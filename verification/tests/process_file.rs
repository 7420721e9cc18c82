use solang_driver::json::JsonResult;
use solang_driver::output::{Content, DriverEffect, Effect, OutputFile, Part};
use solang_driver::process_file::{FileJob, FileWait};
use solang_driver::protocol::{
    BinaryInfo, ContractInfo, Event, Generate, NamespaceInfo, Verdict,
};
use solang_driver::settings::{Emit, Settings, Target};
use solang_driver::string_map::StringMap;

type Answer = Event<&'static str, &'static str>;

fn settings(target: Target) -> Settings {
    Settings {
        target,
        binary_extension: "bin".to_string(),
        emit: None,
        verbose: false,
        std_json: false,
        output: None,
    }
}

fn contract(name: &str, is_concrete: bool, size: u128) -> ContractInfo {
    ContractInfo { name: name.to_string(), is_concrete, fixed_layout_size: size.to_string() }
}

fn resolved(contracts: Vec<ContractInfo>, any_errors: bool) -> Answer {
    Event::Resolved(NamespaceInfo { contracts, target: "shown".to_string(), any_errors })
}

fn emitted(name: &str) -> Answer {
    Event::Emitted(BinaryInfo { name: name.to_string(), has_runtime: false })
}

fn abi_file(content: &str) -> Answer {
    Event::AbiFile { content: content.to_string(), extension: "abi".to_string() }
}

fn file(name: &str) -> OutputFile<String> {
    OutputFile { dir: ".".to_string(), name: name.to_string() }
}

fn info(line: &str) -> DriverEffect {
    Effect::Info(line.to_string())
}

fn saving(what: &str, name: &str, contract: &str) -> DriverEffect {
    Effect::InfoFile {
        before: format!("info: Saving {} ", what),
        file: file(name),
        after: format!(" for contract {}", contract),
    }
}

struct Run {
    settings: Settings,
    job: FileJob<&'static str>,
    json: JsonResult<&'static str, &'static str>,
}

impl Run {
    fn new(settings: Settings) -> Run {
        Run {
            settings,
            job: FileJob::new("a.sol".to_string()),
            json: JsonResult::new("shown".to_string()),
        }
    }

    fn step(&mut self, event: Answer) -> Vec<DriverEffect> {
        assert!(self.job.accepts(&event));
        self.job.step(&self.settings, &mut self.json, event)
    }
}

#[test]
fn file_without_contracts_is_rejected() {
    let mut run = Run::new(settings(Target::Ewasm));
    assert_eq!(run.job.wait(), FileWait::Resolve);
    assert_eq!(run.step(resolved(vec![], false)), vec![Effect::PrintDiagnostics]);
    assert_eq!(run.job.wait(), FileWait::Ended(Verdict::Rejected));
    assert_eq!(run.json.contracts.len(), 0);
}

#[test]
fn file_with_errors_is_rejected() {
    let mut run = Run::new(settings(Target::Solana));
    let effects = run.step(resolved(vec![contract("c", true, 1)], true));
    assert_eq!(effects, vec![Effect::PrintDiagnostics]);
    assert_eq!(run.job.wait(), FileWait::Ended(Verdict::Rejected));
}

#[test]
fn rejected_file_reports_its_diagnostics_as_json() {
    let mut s = settings(Target::Ewasm);
    s.std_json = true;
    let mut run = Run::new(s);
    assert_eq!(run.step(resolved(vec![], true)), vec![]);
    assert_eq!(run.job.wait(), FileWait::Diagnostics);
    assert_eq!(run.step(Event::Diagnostics(vec!["bad", "worse"])), vec![]);
    assert_eq!(run.job.wait(), FileWait::Ended(Verdict::Rejected));
    assert_eq!(run.json.errors, vec!["bad", "worse"]);
    assert_eq!(run.json.contracts.len(), 0);
}

#[test]
fn syntax_tree_is_written_whatever_the_diagnostics() {
    let mut s = settings(Target::Ewasm);
    s.emit = Some(Emit::AstDot);
    s.verbose = true;
    let mut run = Run::new(s);
    assert_eq!(run.step(resolved(vec![], true)), vec![Effect::PrintDiagnostics]);
    assert_eq!(run.job.wait(), FileWait::Stem);
    assert_eq!(
        run.step(Event::Stem("a".to_string())),
        vec![
            Effect::InfoFile {
                before: "info: Saving graphviz dot ".to_string(),
                file: file("a.dot"),
                after: String::new(),
            },
            Effect::SaveDot(file("a.dot")),
        ]
    );
    assert_eq!(run.job.wait(), FileWait::Ended(Verdict::Accepted));
    assert_eq!(run.json.contracts.len(), 0);
}

#[test]
fn graphs_of_concrete_contracts_are_printed() {
    let mut s = settings(Target::Solana);
    s.emit = Some(Emit::Cfg);
    let mut run = Run::new(s);
    let contracts = vec![contract("a", true, 1), contract("b", false, 1), contract("c", true, 1)];
    assert_eq!(
        run.step(resolved(contracts, false)),
        vec![Effect::PrintDiagnostics, Effect::PrintCfg(0), Effect::PrintCfg(2)]
    );
    assert_eq!(run.job.wait(), FileWait::Ended(Verdict::Accepted));
}

#[test]
fn contracts_for_solana_are_left_for_the_bundle() {
    let mut s = settings(Target::Solana);
    s.verbose = true;
    let mut run = Run::new(s);
    let contracts = vec![contract("a", true, 16), contract("b", false, 8), contract("c", true, 4)];
    assert_eq!(
        run.step(resolved(contracts, false)),
        vec![
            Effect::PrintDiagnostics,
            info("info: contract a uses at least 16 bytes account data"),
            info("info: contract c uses at least 4 bytes account data"),
        ]
    );
    assert_eq!(run.job.wait(), FileWait::Ended(Verdict::Accepted));
    assert_eq!(run.json.contracts.get("a.sol").unwrap().len(), 0);
}

#[test]
fn contracts_for_solana_are_reported_as_json() {
    let mut s = settings(Target::Solana);
    s.std_json = true;
    let mut run = Run::new(s);
    let contracts = vec![contract("b", false, 8), contract("c", true, 4), contract("d", true, 9)];
    assert_eq!(run.step(resolved(contracts, false)), vec![]);
    assert_eq!(run.step(Event::Diagnostics(vec![])), vec![]);
    assert_eq!(run.job.wait(), FileWait::SolanaAbi(1));
    assert_eq!(run.step(Event::Abi(vec!["f"])), vec![]);
    assert_eq!(run.job.wait(), FileWait::SolanaAbi(2));
    assert_eq!(run.json.contracts.len(), 0);
    assert_eq!(run.step(Event::Abi(vec![])), vec![]);
    assert_eq!(run.job.wait(), FileWait::Ended(Verdict::Accepted));
    let found = run.json.contracts.get("a.sol").unwrap();
    assert_eq!(found.len(), 2);
    assert_eq!(found.get("c").unwrap().abi, vec!["f"]);
    assert_eq!(found.get("c").unwrap().minimum_space, Some(4));
    assert!(found.get("c").unwrap().ewasm.is_none());
    assert_eq!(found.get("d").unwrap().minimum_space, Some(9));
    assert!(found.get("b").is_none());
}

#[test]
fn account_data_has_to_fit_in_32_bits_to_be_reported() {
    let mut s = settings(Target::Solana);
    s.std_json = true;
    let mut run = Run::new(s);
    run.step(resolved(vec![contract("c", true, 4294967296)], false));
    run.step(Event::Diagnostics(vec![]));
    assert_eq!(run.job.wait(), FileWait::SolanaAbi(0));
    let event: Answer = Event::Abi(vec![]);
    assert!(!run.job.accepts(&event));
}

#[test]
fn binary_and_abi_of_each_concrete_contract_are_written() {
    let mut s = settings(Target::Ewasm);
    s.verbose = true;
    let mut run = Run::new(s);
    let contracts = vec![contract("a", true, 0), contract("b", false, 0), contract("c", true, 0)];
    assert_eq!(
        run.step(resolved(contracts, false)),
        vec![
            Effect::PrintDiagnostics,
            info("info: Generating LLVM IR for contract a with target shown"),
        ]
    );
    assert_eq!(run.job.wait(), FileWait::Binary(0));
    assert_eq!(run.step(emitted("a")), vec![saving("binary", "a.bin", "a")]);
    assert_eq!(run.job.wait(), FileWait::Code(0));
    assert_eq!(
        run.step(Event::Code(vec![1, 2])),
        vec![Effect::Save(file("a.bin"), Content::Bytes(vec![1, 2]))]
    );
    assert_eq!(run.job.wait(), FileWait::AbiFile(0));
    assert_eq!(
        run.step(abi_file("[]")),
        vec![
            saving("ABI", "a.abi", "a"),
            Effect::Save(file("a.abi"), Content::Text("[]".to_string())),
            info("info: Generating LLVM IR for contract c with target shown"),
        ]
    );
    assert_eq!(run.job.wait(), FileWait::Binary(2));
    run.step(emitted("c"));
    run.step(Event::Code(vec![]));
    run.step(abi_file("{}"));
    assert_eq!(run.job.wait(), FileWait::Ended(Verdict::Accepted));
    assert_eq!(run.json.contracts.get("a.sol").unwrap().len(), 0);
    assert_eq!(run.job.into_namespace().contracts.len(), 3);
}

#[test]
fn quiet_run_only_saves() {
    let mut run = Run::new(settings(Target::Substrate { address_length: 32, value_length: 16 }));
    assert_eq!(
        run.step(resolved(vec![contract("a", true, 0)], false)),
        vec![Effect::PrintDiagnostics]
    );
    assert_eq!(run.step(emitted("a")), vec![]);
    assert_eq!(
        run.step(Event::Code(vec![7])),
        vec![Effect::Save(file("a.bin"), Content::Bytes(vec![7]))]
    );
    assert_eq!(
        run.step(abi_file("x")),
        vec![Effect::Save(file("a.abi"), Content::Text("x".to_string()))]
    );
}

#[test]
fn code_is_reported_as_json() {
    let mut s = settings(Target::Ewasm);
    s.std_json = true;
    let mut run = Run::new(s);
    run.step(resolved(vec![contract("a", true, 0)], false));
    assert_eq!(run.step(Event::Diagnostics(vec!["warning"])), vec![]);
    assert_eq!(run.step(emitted("a")), vec![]);
    assert_eq!(run.job.wait(), FileWait::JsonAbi(0));
    assert_eq!(run.step(Event::Abi(vec!["f"])), vec![]);
    assert_eq!(run.job.wait(), FileWait::JsonCode(0));
    assert_eq!(run.step(Event::Code(vec![0, 97, 115, 109])), vec![]);
    assert_eq!(run.job.wait(), FileWait::Ended(Verdict::Accepted));
    let found = run.json.contracts.get("a.sol").unwrap().get("a").unwrap();
    assert_eq!(found.abi, vec!["f"]);
    assert_eq!(found.ewasm.as_ref().unwrap().wasm, "0061736D");
    assert_eq!(found.minimum_space, None);
    assert_eq!(run.json.errors, vec!["warning"]);
}

#[test]
fn early_stage_writes_no_binary() {
    let mut s = settings(Target::Ewasm);
    s.emit = Some(Emit::LlvmIr);
    let mut run = Run::new(s);
    run.step(resolved(vec![contract("a", true, 0), contract("b", true, 0)], false));
    assert_eq!(run.step(emitted("a")), vec![Effect::DumpLlvm(Part::Main, file("a.ll"))]);
    assert_eq!(run.job.wait(), FileWait::Binary(1));
    run.step(emitted("b"));
    assert_eq!(run.job.wait(), FileWait::Ended(Verdict::Accepted));
}

#[test]
fn object_code_is_written() {
    let mut s = settings(Target::Ewasm);
    s.emit = Some(Emit::Object);
    let mut run = Run::new(s);
    run.step(resolved(vec![contract("a", true, 0)], false));
    assert_eq!(run.step(emitted("a")), vec![]);
    assert_eq!(run.job.wait(), FileWait::Generated(0, Generate::Object));
    assert_eq!(
        run.step(Event::Generated(Ok(vec![5]))),
        vec![Effect::Save(file("a.o"), Content::Bytes(vec![5]))]
    );
    assert_eq!(run.job.wait(), FileWait::Ended(Verdict::Accepted));
}

#[test]
fn missing_assembly_ends_the_run() {
    let mut s = settings(Target::Ewasm);
    s.emit = Some(Emit::Asm);
    let mut run = Run::new(s);
    run.step(resolved(vec![contract("a", true, 0), contract("b", true, 0)], false));
    run.step(emitted("a"));
    assert_eq!(
        run.step(Event::Generated(Err("no".to_string()))),
        vec![Effect::Print("error: no".to_string())]
    );
    assert_eq!(run.job.wait(), FileWait::Ended(Verdict::Exit(1)));
}

#[test]
fn only_the_answer_waited_for_is_accepted() {
    let run = Run::new(settings(Target::Ewasm));
    let wrong: Answer = Event::Code(vec![]);
    assert!(!run.job.accepts(&wrong));
    assert!(run.job.accepts(&resolved(vec![], false)));
}

#[test]
fn layout_of_any_size_is_displayed() {
    let mut s = settings(Target::Solana);
    s.verbose = true;
    let mut run = Run::new(s);
    let size = "340282366920938463463374607431768211456000";
    let huge = ContractInfo {
        name: "c".to_string(),
        is_concrete: true,
        fixed_layout_size: size.to_string(),
    };
    assert_eq!(
        run.step(resolved(vec![huge], false)),
        vec![
            Effect::PrintDiagnostics,
            info(&format!("info: contract c uses at least {} bytes account data", size)),
        ]
    );
    assert_eq!(run.job.wait(), FileWait::Ended(Verdict::Accepted));
}

#[test]
fn file_for_solana_writes_nothing_at_any_stage() {
    for emit in [Emit::LlvmIr, Emit::LlvmBc, Emit::Object, Emit::Asm] {
        let mut s = settings(Target::Solana);
        s.emit = Some(emit);
        let mut run = Run::new(s);
        let effects = run.step(resolved(vec![contract("a", true, 0)], false));
        assert_eq!(effects, vec![Effect::PrintDiagnostics]);
        assert_eq!(run.job.wait(), FileWait::Ended(Verdict::Accepted));
        assert_eq!(run.json.contracts.get("a.sol").unwrap().len(), 0);
    }
}

#[test]
fn early_stages_record_no_contracts() {
    let mut s = settings(Target::Ewasm);
    s.emit = Some(Emit::LlvmBc);
    let mut run = Run::new(s);
    run.step(resolved(vec![contract("a", true, 0)], false));
    assert_eq!(
        run.step(emitted("a")),
        vec![Effect::SaveBitcode(Part::Main, file("a.bc"))]
    );
    assert_eq!(run.job.wait(), FileWait::Ended(Verdict::Accepted));
    assert_eq!(run.json.contracts.len(), 1);
    assert_eq!(run.json.contracts.get("a.sol").unwrap().len(), 0);
}

fn whole_file(verbose: bool) -> (Vec<DriverEffect>, FileWait) {
    let mut s = settings(Target::Ewasm);
    s.verbose = verbose;
    let mut run = Run::new(s);
    let mut effects = run.step(resolved(vec![contract("a", true, 0)], false));
    effects.extend(run.step(emitted("a")));
    effects.extend(run.step(Event::Code(vec![1, 2])));
    effects.extend(run.step(abi_file("[]")));
    (effects, run.job.wait())
}

#[test]
fn verbosity_adds_only_information() {
    let (mut verbose, end) = whole_file(true);
    let said = verbose.len();
    verbose.retain(|e| !matches!(e, Effect::Info(_) | Effect::InfoFile { .. }));
    assert_eq!(said, verbose.len() + 3);
    assert_eq!((verbose, end), whole_file(false));
}

#[test]
fn work_on_a_file_leaves_the_rest_of_the_result() {
    let mut s = settings(Target::Ewasm);
    s.std_json = true;
    let mut run = Run::new(s);
    run.json.add_errors(vec!["old"]);
    run.json.add_file("b.sol".to_string(), StringMap::new());
    run.step(resolved(vec![contract("a", true, 0)], false));
    run.step(Event::Diagnostics(vec!["new"]));
    run.step(emitted("a"));
    run.step(Event::Abi(vec!["f"]));
    run.step(Event::Code(vec![10]));
    assert_eq!(run.json.errors, vec!["old", "new"]);
    assert_eq!(run.json.contracts.len(), 2);
    assert_eq!(run.json.contracts.get("b.sol").unwrap().len(), 0);
    assert_eq!(run.json.contracts.get("a.sol").unwrap().len(), 1);
    assert_eq!((run.json.target.as_str(), run.json.program.as_str()), ("shown", ""));
}
