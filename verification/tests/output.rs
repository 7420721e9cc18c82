use solang_driver::output::{
    after_create, after_dot, create_file, file_line, output_directory, output_file, version_line,
    CreateNext, CreateStep, Failure, OutputFile,
};
use solang_driver::settings::{Settings, Target};
use solang_driver::text::{read_number, same};

fn settings(output: Option<&str>) -> Settings {
    Settings {
        target: Target::Ewasm,
        binary_extension: "wasm".to_string(),
        emit: None,
        verbose: false,
        std_json: false,
        output: output.map(|s| s.to_string()),
    }
}

#[test]
fn files_lie_in_the_output_directory() {
    assert_eq!(
        output_file(&settings(Some("out")), "flipper", "wasm"),
        OutputFile { dir: "out".to_string(), name: "flipper.wasm".to_string() }
    );
    assert_eq!(
        output_file(&settings(None), "flipper", "abi"),
        OutputFile { dir: ".".to_string(), name: "flipper.abi".to_string() }
    );
    assert_eq!(output_directory(&settings(None)), ".");
    assert_eq!(output_directory(&settings(Some("x/y"))), "x/y");
}

fn make(dir: &str) -> CreateStep<String> {
    CreateStep::MakeDirectory(dir.to_string())
}

fn create(path: &str) -> CreateStep<String> {
    CreateStep::Create(path.to_string())
}

fn failure(line: &str) -> Failure<String> {
    Failure { line: line.to_string(), code: 1 }
}

#[test]
fn directory_is_made_before_the_file() {
    assert_eq!(create_file("out/a.wasm", Some("out")), make("out"));
    assert_eq!(
        after_create(&make("out"), "out/a.wasm", Ok(())),
        CreateNext::Then(create("out/a.wasm"))
    );
    assert_eq!(after_create(&create("out/a.wasm"), "out/a.wasm", Ok(())), CreateNext::Opened);
    assert_eq!(create_file("/", None), create("/"));
}

#[test]
fn failed_directory_ends_the_run() {
    assert_eq!(
        after_create(&make("out"), "out/a", Err("denied".to_string())),
        CreateNext::Fail(failure("error: cannot create output directory ‘out’: denied"))
    );
}

#[test]
fn failed_creation_ends_the_run() {
    assert_eq!(
        after_create(&create("out/a"), "out/a", Err("denied".to_string())),
        CreateNext::Fail(failure("error: cannot create file ‘out/a’: denied"))
    );
}

#[test]
fn failed_graph_ends_the_run() {
    assert_eq!(
        after_dot("a.dot", Err("full".to_string())),
        Some(failure("a.dot: error: full"))
    );
    assert_eq!(after_dot("a.dot", Ok(())), None);
}

#[test]
fn lines_are_put_together() {
    assert_eq!(file_line("info: Saving ABI ", "./a.abi", " for contract a"),
        "info: Saving ABI ./a.abi for contract a");
    assert_eq!(version_line("0.1"), "info: Solang version 0.1");
}

#[test]
fn numbers_are_read_in_decimal() {
    for n in [0u128, 7, 10, 99, 100, 4294967296, u128::MAX] {
        assert_eq!(read_number(&format!("{}", n)), Some(n));
    }
    assert_eq!(read_number("0012"), Some(12));
    assert_eq!(read_number(""), None);
    assert_eq!(read_number("-1"), None);
    assert_eq!(read_number("1x"), None);
}

#[test]
fn numbers_that_are_too_large_are_not_read() {
    assert_eq!(read_number("340282366920938463463374607431768211455"), Some(u128::MAX));
    assert_eq!(read_number("340282366920938463463374607431768211456"), None);
    assert_eq!(read_number("3402823669209384634633746074317682114550"), None);
}

#[test]
fn texts_are_compared_by_their_characters() {
    assert!(same("ab", "ab"));
    assert!(!same("ab", "abc"));
    assert!(!same("ab", "aB"));
    assert!(same("", ""));
}
