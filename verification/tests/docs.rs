use solang_driver::docs::DocJob;
use solang_driver::output::Effect;
use solang_driver::protocol::{ContractInfo, NamespaceInfo};
use solang_driver::settings::{Settings, Target};

fn settings(output: Option<&str>) -> Settings {
    Settings {
        target: Target::Ewasm,
        binary_extension: "wasm".to_string(),
        emit: None,
        verbose: false,
        std_json: false,
        output: output.map(|s| s.to_string()),
    }
}

fn namespace(contracts: usize, any_errors: bool) -> NamespaceInfo {
    let mut list = Vec::new();
    for _ in 0..contracts {
        list.push(ContractInfo {
            name: "c".to_string(),
            is_concrete: false,
            fixed_layout_size: "0".to_string(),
        });
    }
    NamespaceInfo { contracts: list, target: "ewasm".to_string(), any_errors }
}

#[test]
fn docs_are_generated_behind_the_last_file() {
    let s = settings(Some("out"));
    let mut job = DocJob::new(vec!["a.sol".to_string(), "b.sol".to_string()]);
    assert_eq!(job.wait(), Some(0));
    assert_eq!(job.step(&s, &namespace(1, false)), vec![Effect::PrintDiagnostics, Effect::Keep]);
    assert_eq!(job.wait(), Some(1));
    assert_eq!(
        job.step(&s, &namespace(2, false)),
        vec![Effect::PrintDiagnostics, Effect::Keep, Effect::GenerateDocs("out".to_string())]
    );
    assert_eq!(job.wait(), None);
}

#[test]
fn docs_lie_in_the_current_directory_by_default() {
    let mut job = DocJob::new(vec!["a.sol".to_string()]);
    assert_eq!(
        job.step(&settings(None), &namespace(1, false)),
        vec![Effect::PrintDiagnostics, Effect::Keep, Effect::GenerateDocs(".".to_string())]
    );
}

#[test]
fn one_bad_file_keeps_docs_from_being_generated() {
    let s = settings(None);
    let mut job = DocJob::new(vec!["a.sol".to_string(), "b.sol".to_string(), "c.sol".to_string()]);
    assert_eq!(
        job.step(&s, &namespace(0, true)),
        vec![
            Effect::PrintDiagnostics,
            Effect::Error("a.sol: error: no contracts found".to_string()),
        ]
    );
    assert_eq!(job.step(&s, &namespace(1, true)), vec![Effect::PrintDiagnostics]);
    assert_eq!(job.step(&s, &namespace(1, false)), vec![Effect::PrintDiagnostics, Effect::Keep]);
    assert_eq!(job.wait(), None);
}
