use solang_driver::bundle::{BundleJob, BundleWait};
use solang_driver::compilation::{Compilation, Wait};
use solang_driver::json::JsonResult;
use solang_driver::names::list_names;
use solang_driver::output::{Content, DriverEffect, Effect, OutputFile, Part};
use solang_driver::process_file::FileWait;
use solang_driver::protocol::{
    BinaryInfo, ContractInfo, Event, Generate, NamespaceInfo, Verdict,
};
use solang_driver::settings::{Emit, Settings, Target};

type Answer = Event<&'static str, &'static str>;
type Job = Compilation<&'static str, &'static str>;

fn settings(target: Target) -> Settings {
    Settings {
        target,
        binary_extension: "so".to_string(),
        emit: None,
        verbose: false,
        std_json: false,
        output: Some("out".to_string()),
    }
}

fn contract(name: &str, is_concrete: bool) -> ContractInfo {
    ContractInfo { name: name.to_string(), is_concrete, fixed_layout_size: "16".to_string() }
}

fn namespace(contracts: Vec<ContractInfo>) -> NamespaceInfo {
    NamespaceInfo { contracts, target: "shown".to_string(), any_errors: false }
}

fn emitted(name: &str) -> Answer {
    Event::Emitted(BinaryInfo { name: name.to_string(), has_runtime: false })
}

fn abi_file(content: &str) -> Answer {
    Event::AbiFile { content: content.to_string(), extension: "abi".to_string() }
}

fn file(name: &str) -> OutputFile<String> {
    OutputFile { dir: "out".to_string(), name: name.to_string() }
}

fn compilation(settings: Settings, inputs: &[&str]) -> Job {
    Compilation::new(
        settings,
        inputs.iter().map(|s| s.to_string()).collect(),
        "shown".to_string(),
    )
}

fn step(job: &mut Job, event: Answer) -> Vec<DriverEffect> {
    assert!(job.accepts(&event));
    job.step(event)
}

#[test]
fn names_are_listed_ascending_and_once() {
    let files = vec![
        namespace(vec![contract("b", true), contract("z", false), contract("a", true)]),
        namespace(vec![]),
        namespace(vec![contract("ab", true), contract("b", true), contract("B", true)]),
    ];
    assert_eq!(list_names(&files), "B, a, ab, b");
    assert_eq!(list_names(&vec![]), "");
    assert_eq!(list_names(&vec![namespace(vec![contract("é", true), contract("z", true)])]), "z, é");
}

#[test]
fn files_are_worked_on_in_turn() {
    let mut job = compilation(settings(Target::Ewasm), &["a.sol", "b.sol"]);
    assert_eq!(job.wait(), Wait::File(0, FileWait::Resolve));
    let effects = step(&mut job, Event::Resolved(namespace(vec![contract("x", false)])));
    assert_eq!(effects, vec![Effect::PrintDiagnostics, Effect::Keep]);
    assert_eq!(job.wait(), Wait::File(1, FileWait::Resolve));
    let effects = step(&mut job, Event::Resolved(namespace(vec![contract("y", false)])));
    assert_eq!(effects, vec![Effect::PrintDiagnostics, Effect::Keep]);
    assert_eq!(job.wait(), Wait::Over(0));
    assert_eq!(job.json().target, "shown");
    assert_eq!(job.json().contracts.len(), 2);
    assert!(!job.settings().std_json);
}

#[test]
fn rejected_file_fails_the_run() {
    let mut job = compilation(settings(Target::Solana), &["a.sol", "b.sol"]);
    assert_eq!(
        step(&mut job, Event::Resolved(namespace(vec![]))),
        vec![Effect::PrintDiagnostics]
    );
    assert_eq!(job.wait(), Wait::File(1, FileWait::Resolve));
    assert_eq!(
        step(&mut job, Event::Resolved(namespace(vec![contract("x", true)]))),
        vec![
            Effect::PrintDiagnostics,
            Effect::Keep,
            Effect::Error("error: not all contracts are valid".to_string()),
        ]
    );
    assert_eq!(job.wait(), Wait::Over(1));
}

#[test]
fn rejected_file_is_reported_as_json() {
    let mut s = settings(Target::Solana);
    s.std_json = true;
    let mut job = compilation(s, &["a.sol"]);
    assert_eq!(step(&mut job, Event::Resolved(namespace(vec![]))), vec![]);
    assert_eq!(step(&mut job, Event::Diagnostics(vec!["bad"])), vec![Effect::PrintJson]);
    assert_eq!(job.wait(), Wait::Over(0));
    assert_eq!(job.json().errors, vec!["bad"]);
}

#[test]
fn syntax_trees_end_the_run() {
    let mut s = settings(Target::Solana);
    s.emit = Some(Emit::AstDot);
    let mut job = compilation(s, &["a.sol"]);
    step(&mut job, Event::Resolved(namespace(vec![])));
    assert_eq!(
        step(&mut job, Event::Stem("a".to_string())),
        vec![Effect::SaveDot(file("a.dot")), Effect::Keep]
    );
    assert_eq!(job.wait(), Wait::Over(0));
}

#[test]
fn missing_code_ends_the_run() {
    let mut s = settings(Target::Ewasm);
    s.emit = Some(Emit::Object);
    let mut job = compilation(s, &["a.sol", "b.sol"]);
    step(&mut job, Event::Resolved(namespace(vec![contract("x", true)])));
    step(&mut job, emitted("x"));
    assert_eq!(
        step(&mut job, Event::Generated(Err("no".to_string()))),
        vec![Effect::Print("error: no".to_string())]
    );
    assert_eq!(job.wait(), Wait::Over(1));
    let more: Answer = Event::Stem(String::new());
    assert!(!job.accepts(&more));
}

#[test]
fn all_files_are_linked_for_solana() {
    let mut s = settings(Target::Solana);
    s.verbose = true;
    let mut job = compilation(s, &["a.sol", "b.sol"]);
    step(&mut job, Event::Resolved(namespace(vec![contract("y", true), contract("n", false)])));
    step(&mut job, Event::Resolved(namespace(vec![contract("m", false), contract("x", true)])));
    assert_eq!(job.wait(), Wait::Bundle(BundleWait::Binary));
    assert_eq!(
        step(&mut job, emitted("bundle")),
        vec![Effect::InfoFile {
            before: "info: Saving binary ".to_string(),
            file: file("bundle.so"),
            after: " for contracts: x, y".to_string(),
        }]
    );
    assert_eq!(job.wait(), Wait::Bundle(BundleWait::Linked));
    assert_eq!(
        step(&mut job, Event::Code(vec![9])),
        vec![Effect::Save(file("bundle.so"), Content::Bytes(vec![9]))]
    );
    assert_eq!(job.wait(), Wait::Bundle(BundleWait::AbiFile(0, 0)));
    assert_eq!(
        step(&mut job, abi_file("Y")),
        vec![
            Effect::InfoFile {
                before: "info: Saving ABI ".to_string(),
                file: file("y.abi"),
                after: " for contract y".to_string(),
            },
            Effect::Save(file("y.abi"), Content::Text("Y".to_string())),
        ]
    );
    assert_eq!(job.wait(), Wait::Bundle(BundleWait::AbiFile(1, 1)));
    step(&mut job, abi_file("X"));
    assert_eq!(job.wait(), Wait::Over(0));
}

#[test]
fn linked_program_is_reported_as_json() {
    let mut s = settings(Target::Solana);
    s.std_json = true;
    let mut job = compilation(s, &["a.sol"]);
    step(&mut job, Event::Resolved(namespace(vec![contract("x", true)])));
    step(&mut job, Event::Diagnostics(vec![]));
    assert_eq!(step(&mut job, Event::Abi(vec!["f"])), vec![Effect::Keep]);
    assert_eq!(step(&mut job, emitted("bundle")), vec![]);
    assert_eq!(step(&mut job, Event::Code(vec![127, 69])), vec![Effect::PrintJson]);
    assert_eq!(job.wait(), Wait::Over(0));
    assert_eq!(job.json().program, "7F45");
    let found = job.json().contracts.get("a.sol").unwrap().get("x").unwrap();
    assert_eq!(found.minimum_space, Some(16));
}

#[test]
fn json_is_printed_at_the_end() {
    let mut s = settings(Target::Ewasm);
    s.std_json = true;
    let mut job = compilation(s, &["a.sol"]);
    step(&mut job, Event::Resolved(namespace(vec![contract("x", true)])));
    step(&mut job, Event::Diagnostics(vec![]));
    step(&mut job, emitted("x"));
    step(&mut job, Event::Abi(vec![]));
    assert_eq!(step(&mut job, Event::Code(vec![1])), vec![Effect::Keep, Effect::PrintJson]);
    assert_eq!(job.wait(), Wait::Over(0));
}

#[test]
fn early_stage_of_the_bundle_is_written() {
    let mut s = settings(Target::Solana);
    s.emit = Some(Emit::LlvmBc);
    let mut json: JsonResult<&str, &str> = JsonResult::new("shown".to_string());
    let mut job = BundleJob::new();
    let files = vec![namespace(vec![contract("x", true)])];
    let effects = job.step(&s, &files, &mut json, emitted("bundle.sol"));
    assert_eq!(effects, vec![Effect::SaveBitcode(Part::Main, file("bundle.sol.bc"))]);
    assert_eq!(job.wait(), BundleWait::Ended(Verdict::Accepted));
}

#[test]
fn missing_code_of_the_bundle_ends_the_run() {
    let mut s = settings(Target::Solana);
    s.emit = Some(Emit::Asm);
    let mut json: JsonResult<&str, &str> = JsonResult::new("shown".to_string());
    let mut job = BundleJob::new();
    let files = vec![namespace(vec![contract("x", true)])];
    assert_eq!(job.step(&s, &files, &mut json, emitted("bundle")), vec![]);
    assert_eq!(job.wait(), BundleWait::Generated(Generate::Assembly));
    let failed: Answer = Event::Generated(Err("no".to_string()));
    assert!(job.accepts(&failed));
    assert_eq!(
        job.step(&s, &files, &mut json, failed),
        vec![Effect::Print("error: no".to_string())]
    );
    assert_eq!(job.wait(), BundleWait::Ended(Verdict::Exit(1)));
}

#[test]
fn bundle_without_concrete_contracts_has_no_abi() {
    let s = settings(Target::Solana);
    let mut json: JsonResult<&str, &str> = JsonResult::new("shown".to_string());
    let mut job = BundleJob::new();
    let files = vec![namespace(vec![contract("x", false)]), namespace(vec![])];
    job.step(&s, &files, &mut json, emitted("bundle"));
    let effects = job.step(&s, &files, &mut json, Event::Code(vec![]));
    assert_eq!(effects, vec![Effect::Save(file("bundle.so"), Content::Bytes(vec![]))]);
    assert_eq!(job.wait(), BundleWait::Ended(Verdict::Accepted));
}

#[test]
fn graphs_for_solana_leave_the_bundle_unwritten() {
    let mut s = settings(Target::Solana);
    s.emit = Some(Emit::Cfg);
    let mut job = compilation(s, &["a.sol"]);
    assert_eq!(
        step(&mut job, Event::Resolved(namespace(vec![contract("x", true)]))),
        vec![Effect::PrintDiagnostics, Effect::PrintCfg(0), Effect::Keep]
    );
    assert_eq!(job.wait(), Wait::Bundle(BundleWait::Binary));
    assert_eq!(step(&mut job, emitted("bundle")), vec![]);
    assert_eq!(job.wait(), Wait::Over(0));
}

fn broken() -> NamespaceInfo {
    NamespaceInfo {
        contracts: vec![contract("e", true)],
        target: "shown".to_string(),
        any_errors: true,
    }
}

fn run(job: &mut Job, events: Vec<Answer>) -> Vec<DriverEffect> {
    let mut effects = Vec::new();
    for event in events {
        effects.extend(step(job, event));
    }
    effects
}

fn not_valid() -> DriverEffect {
    Effect::Error("error: not all contracts are valid".to_string())
}

#[test]
fn good_inputs_are_written_beside_a_rejected_one() {
    let mut job = compilation(settings(Target::Ewasm), &["bad.sol", "good.sol"]);
    let effects = run(
        &mut job,
        vec![
            Event::Resolved(broken()),
            Event::Resolved(namespace(vec![contract("x", true)])),
            emitted("x"),
            Event::Code(vec![1]),
            abi_file("[]"),
        ],
    );
    assert_eq!(
        effects,
        vec![
            Effect::PrintDiagnostics,
            Effect::PrintDiagnostics,
            Effect::Save(file("x.so"), Content::Bytes(vec![1])),
            Effect::Save(file("x.abi"), Content::Text("[]".to_string())),
            Effect::Keep,
            not_valid(),
        ]
    );
    assert_eq!(job.wait(), Wait::Over(1));
}

#[test]
fn nothing_is_linked_beside_a_rejected_input() {
    let mut job = compilation(settings(Target::Solana), &["good.sol", "bad.sol"]);
    let effects = run(
        &mut job,
        vec![
            Event::Resolved(namespace(vec![contract("x", true)])),
            Event::Resolved(broken()),
        ],
    );
    assert_eq!(
        effects,
        vec![
            Effect::PrintDiagnostics,
            Effect::Keep,
            Effect::PrintDiagnostics,
            not_valid(),
        ]
    );
    assert_eq!(job.wait(), Wait::Over(1));
}

#[test]
fn rejected_input_is_reported_as_json() {
    let mut s = settings(Target::Solana);
    s.std_json = true;
    let mut job = compilation(s, &["bad.sol", "good.sol"]);
    let effects = run(
        &mut job,
        vec![
            Event::Resolved(broken()),
            Event::Diagnostics(vec!["wrong"]),
            Event::Resolved(namespace(vec![contract("x", true)])),
            Event::Diagnostics(vec![]),
            Event::Abi(vec!["f"]),
        ],
    );
    assert_eq!(effects, vec![Effect::Keep, Effect::PrintJson]);
    assert_eq!(job.wait(), Wait::Over(0));
    assert_eq!(job.json().errors, vec!["wrong"]);
    assert_eq!(job.json().program, "");
    assert!(job.json().contracts.get("bad.sol").is_none());
    assert_eq!(job.json().contracts.get("good.sol").unwrap().len(), 1);
}

#[test]
fn syntax_trees_of_all_inputs_are_written() {
    let mut s = settings(Target::Solana);
    s.emit = Some(Emit::AstDot);
    let mut job = compilation(s, &["bad.sol", "good.sol"]);
    let effects = run(
        &mut job,
        vec![
            Event::Resolved(broken()),
            Event::Stem("bad".to_string()),
            Event::Resolved(namespace(vec![])),
            Event::Stem("good".to_string()),
        ],
    );
    assert_eq!(
        effects,
        vec![
            Effect::PrintDiagnostics,
            Effect::SaveDot(file("bad.dot")),
            Effect::Keep,
            Effect::PrintDiagnostics,
            Effect::SaveDot(file("good.dot")),
            Effect::Keep,
        ]
    );
    assert_eq!(job.wait(), Wait::Over(0));
}

#[test]
fn graphs_of_all_inputs_are_printed() {
    let mut s = settings(Target::Ewasm);
    s.emit = Some(Emit::Cfg);
    let mut job = compilation(s, &["a.sol", "b.sol"]);
    let effects = run(
        &mut job,
        vec![
            Event::Resolved(namespace(vec![contract("n", false), contract("x", true)])),
            Event::Resolved(namespace(vec![contract("y", true)])),
        ],
    );
    assert_eq!(
        effects,
        vec![
            Effect::PrintDiagnostics,
            Effect::PrintCfg(1),
            Effect::Keep,
            Effect::PrintDiagnostics,
            Effect::PrintCfg(0),
            Effect::Keep,
        ]
    );
    assert_eq!(job.wait(), Wait::Over(0));
}

#[test]
fn modules_of_all_inputs_are_dumped() {
    let mut s = settings(Target::Ewasm);
    s.emit = Some(Emit::LlvmIr);
    let mut job = compilation(s, &["a.sol", "b.sol"]);
    let split = Event::Emitted(BinaryInfo { name: "x".to_string(), has_runtime: true });
    let mut effects = run(
        &mut job,
        vec![
            Event::Resolved(namespace(vec![contract("x", true)])),
            split,
            Event::Resolved(namespace(vec![contract("y", true)])),
            emitted("y"),
        ],
    );
    effects.retain(|e| matches!(e, Effect::DumpLlvm(_, _)));
    assert_eq!(
        effects,
        vec![
            Effect::DumpLlvm(Part::Main, file("x_deploy.ll")),
            Effect::DumpLlvm(Part::Runtime, file("x_runtime.ll")),
            Effect::DumpLlvm(Part::Main, file("y.ll")),
        ]
    );
    assert_eq!(job.wait(), Wait::Over(0));
}

#[test]
fn missing_code_of_an_input_ends_the_run() {
    let mut s = settings(Target::Ewasm);
    s.emit = Some(Emit::Object);
    let mut job = compilation(s, &["a.sol", "b.sol", "c.sol"]);
    let effects = run(
        &mut job,
        vec![
            Event::Resolved(namespace(vec![contract("x", true)])),
            emitted("x"),
            Event::Generated(Ok(vec![1])),
            Event::Resolved(namespace(vec![contract("y", true)])),
            emitted("y"),
            Event::Generated(Err("no".to_string())),
        ],
    );
    assert_eq!(
        effects,
        vec![
            Effect::PrintDiagnostics,
            Effect::Save(file("x.o"), Content::Bytes(vec![1])),
            Effect::Keep,
            Effect::PrintDiagnostics,
            Effect::Print("error: no".to_string()),
        ]
    );
    assert_eq!(job.wait(), Wait::Over(1));
}

#[test]
fn early_stage_for_solana_is_that_of_the_linked_binary() {
    let mut s = settings(Target::Solana);
    s.emit = Some(Emit::Object);
    let mut job = compilation(s, &["a.sol", "b.sol"]);
    let effects = run(
        &mut job,
        vec![
            Event::Resolved(namespace(vec![contract("x", true)])),
            Event::Resolved(namespace(vec![contract("y", true)])),
            emitted("bundle"),
            Event::Generated(Ok(vec![9])),
        ],
    );
    assert_eq!(
        effects,
        vec![
            Effect::PrintDiagnostics,
            Effect::Keep,
            Effect::PrintDiagnostics,
            Effect::Keep,
            Effect::Save(file("bundle.o"), Content::Bytes(vec![9])),
        ]
    );
    assert_eq!(job.wait(), Wait::Over(0));
}
