use solang_driver::imports::{
    after_import, parse_import_map, plan_imports, ImportNext, ImportStep,
};
use solang_driver::output::Failure;

fn strings(list: &[&str]) -> Vec<String> {
    list.iter().map(|s| s.to_string()).collect()
}

#[test]
fn import_maps_are_split_at_the_first_equals_sign() {
    let split = |s: &str| parse_import_map(s);
    assert_eq!(split("lib=vendor/lib"), Some(("lib".to_string(), "vendor/lib".to_string())));
    assert_eq!(split("a=b=c"), Some(("a".to_string(), "b=c".to_string())));
    assert_eq!(split("=b"), Some((String::new(), "b".to_string())));
    assert_eq!(split("a="), Some(("a".to_string(), String::new())));
    assert_eq!(split("="), Some((String::new(), String::new())));
    assert_eq!(split("ä=ö"), Some(("ä".to_string(), "ö".to_string())));
    assert_eq!(split("ab"), None);
    assert_eq!(split(""), None);
}

#[test]
fn split_import_maps_rejoin() {
    for text in ["lib=vendor/lib", "a=b=c", "=b", "a=", "="] {
        let (map, path) = parse_import_map(text).unwrap();
        assert_eq!(format!("{}={}", map, path), text);
        assert!(!map.contains('='));
    }
}

#[test]
fn imports_are_set_up_in_order() {
    let steps = plan_imports(2, 1, &strings(&["a=b", "c=d"]));
    assert_eq!(
        steps,
        vec![
            ImportStep::InputDirectory(0),
            ImportStep::InputDirectory(1),
            ImportStep::CurrentDirectory,
            ImportStep::Path(0),
            ImportStep::MapTo { map: "a".to_string(), path: "b".to_string() },
            ImportStep::MapTo { map: "c".to_string(), path: "d".to_string() },
        ]
    );
}

#[test]
fn first_refused_map_is_the_last_step() {
    let steps = plan_imports(0, 0, &strings(&["a=b", "bad", "c=d"]));
    assert_eq!(
        steps,
        vec![
            ImportStep::CurrentDirectory,
            ImportStep::MapTo { map: "a".to_string(), path: "b".to_string() },
            ImportStep::BadMap("bad".to_string()),
        ]
    );
}

fn gone() -> Result<(), String> {
    Err("gone".to_string())
}

fn failed(line: &str) -> ImportNext<String> {
    ImportNext::Fail(Failure { line: line.to_string(), code: 1 })
}

#[test]
fn steps_are_tried_one_after_the_other() {
    let steps = plan_imports(1, 1, &strings(&["a=b"]));
    assert_eq!(after_import(&steps, 0, "", Ok(())), ImportNext::Then(1));
    assert_eq!(after_import(&steps, 1, "", Ok(())), ImportNext::Then(2));
    assert_eq!(after_import(&steps, 2, "x", Ok(())), ImportNext::Then(3));
    assert_eq!(after_import(&steps, 3, "", Ok(())), ImportNext::Ready);
}

#[test]
fn failed_step_ends_the_run() {
    let steps = plan_imports(1, 1, &strings(&["m=p"]));
    assert_eq!(after_import(&steps, 0, "x", gone()), ImportNext::Then(1));
    assert_eq!(
        after_import(&steps, 1, "", gone()),
        failed("error: cannot add current directory to import path: gone")
    );
    assert_eq!(after_import(&steps, 2, "x", gone()), failed("error: import path ‘x’: gone"));
    assert_eq!(after_import(&steps, 3, "x", gone()), failed("error: import path ‘p’: gone"));
}

#[test]
fn refused_map_ends_the_run_in_its_turn() {
    let steps = plan_imports(0, 0, &strings(&["bad", "a=b"]));
    assert_eq!(after_import(&steps, 0, "", Ok(())), ImportNext::Then(1));
    let line = "error: import map ‘bad’: contains no ‘=’";
    assert_eq!(after_import(&steps, 1, "", Ok(())), failed(line));
    assert_eq!(after_import(&steps, 1, "", gone()), failed(line));
}
