//! The work on one input file.
//!
//! A `FileJob` says what it waits for, takes the compiler's answer in a step and returns what is to
//! be done before it is asked again.
use vstd::prelude::*;
use vstd::string::*;

use crate::intermediates::{
    generated, intermediates, save_generated, save_intermediates, Intermediates,
};
use crate::json::{
    code_report, contract_reports, insert_adds_report, minimum_space, read_minimum_space,
    solana_report, ContractReport, JsonContract, JsonResult, Report,
};
use crate::output::{
    file_named, output_file, saving, say_saving, views, views_empty, views_push, Content,
    DriverEffect, Effect, EffectView,
};
use crate::protocol::{
    unresolved, ContractInfo, Event, Generate, NamespaceInfo, NamespaceView, Verdict,
};
use crate::settings::{Emit, Settings, Target};
use crate::string_map::StringMap;
use crate::text::around;

verus! {

/// What the work on a file waits for. A number is that of a contract.
#[derive(Debug, Clone, Copy, PartialEq, Eq, Structural)]
pub enum FileWait {
    /// The file is to be parsed, resolved and run through the code generator.
    Resolve,
    /// Its diagnostics are to be collected.
    Diagnostics,
    /// The stem of its name.
    Stem,
    /// The ABI of a contract for Solana.
    SolanaAbi(usize),
    /// A contract is to be emitted.
    Binary(usize),
    /// Code of the emitted binary at an early stage.
    Generated(usize, Generate),
    /// The ABI of an emitted contract, for the JSON result.
    JsonAbi(usize),
    /// The code of an emitted contract, for the JSON result.
    JsonCode(usize),
    /// The code of an emitted contract, to be written.
    Code(usize),
    /// The ABI of an emitted contract, to be written.
    AbiFile(usize),
    /// Nothing: the work is over.
    Ended(Verdict),
}

/// The work on one input file.
pub struct FileJob<A> {
    filename: String,
    namespace: NamespaceInfo,
    binary: String,
    abi: Vec<A>,
    found: StringMap<JsonContract<A>>,
    wait: FileWait,
}

/// How far the work on a file has come: its name, what the compiler told of it, the name of the
/// binary and the ABI in hand, what is to be reported of its contracts, and what is waited for.
#[verifier::ext_equal]
pub struct FileState<A> {
    pub filename: Seq<char>,
    pub namespace: NamespaceView,
    pub binary: Seq<char>,
    pub abi: Seq<A>,
    pub found: Map<Seq<char>, ContractReport<A>>,
    pub wait: FileWait,
}

impl<A> View for FileJob<A> {
    type V = FileState<A>;

    closed spec fn view(&self) -> FileState<A> {
        FileState {
            filename: self.filename@,
            namespace: self.namespace@,
            binary: self.binary@,
            abi: self.abi@,
            found: contract_reports(self.found@),
            wait: self.wait,
        }
    }
}

/// The contract that a wait is about.
pub open spec fn wait_contract(wait: FileWait) -> Option<usize> {
    match wait {
        FileWait::SolanaAbi(i) => Some(i),
        FileWait::Binary(i) => Some(i),
        FileWait::Generated(i, _) => Some(i),
        FileWait::JsonAbi(i) => Some(i),
        FileWait::JsonCode(i) => Some(i),
        FileWait::Code(i) => Some(i),
        FileWait::AbiFile(i) => Some(i),
        _ => None,
    }
}

impl<A> FileState<A> {
    /// Whether the contracts can be numbered and the one that is waited on is among them.
    pub open spec fn valid(self) -> bool {
        &&& self.namespace.contracts.len() <= usize::MAX
        &&& wait_contract(self.wait) matches Some(i) ==> i < self.namespace.contracts.len()
    }
}

/// The work on the file of the given name, before it has been looked at.
pub open spec fn untouched<A>(filename: Seq<char>) -> FileState<A> {
    FileState {
        filename,
        namespace: unresolved(),
        binary: Seq::empty(),
        abi: Seq::empty(),
        found: Map::empty(),
        wait: FileWait::Resolve,
    }
}

/// Whether the event answers what is waited for. The account data of a contract for Solana has to
/// fit in 32 bits to be reported.
pub open spec fn answers<E, A>(wait: FileWait, namespace: NamespaceView, event: Event<E, A>) -> bool {
    match wait {
        FileWait::Resolve => event is Resolved,
        FileWait::Diagnostics => event is Diagnostics,
        FileWait::Stem => event is Stem,
        FileWait::SolanaAbi(i) => event is Abi
            && minimum_space(namespace.contracts[i as int].fixed_layout_size@) is Some,
        FileWait::Binary(_) => event is Emitted,
        FileWait::Generated(_, _) => event is Generated,
        FileWait::JsonAbi(_) => event is Abi,
        FileWait::JsonCode(_) => event is Code,
        FileWait::Code(_) => event is Code,
        FileWait::AbiFile(_) => event is AbiFile,
        FileWait::Ended(_) => false,
    }
}

/// What a verbose run says of the account data of a contract.
pub open spec fn account_data(s: Settings, contract: ContractInfo) -> Seq<EffectView> {
    if s.verbose {
        seq![
            Effect::Info(
                "info: contract "@ + contract.name@ + " uses at least "@
                    + contract.fixed_layout_size@ + " bytes account data"@,
            ),
        ]
    } else {
        Seq::empty()
    }
}

/// What a verbose run says before a contract is emitted.
pub open spec fn generating(s: Settings, contract: ContractInfo, target: Seq<char>) -> Seq<
    EffectView,
> {
    if s.verbose {
        seq![
            Effect::Info(
                "info: Generating LLVM IR for contract "@ + contract.name@ + " with target "@
                    + target,
            ),
        ]
    } else {
        Seq::empty()
    }
}

/// What is done up to the next question, and that question.
#[verifier::ext_equal]
pub struct Visit {
    pub effects: Seq<EffectView>,
    pub wait: FileWait,
}

/// What is done with the contracts from number `i` on until the compiler is needed. Only concrete
/// contracts count. For the control flow graphs each is printed. For Solana a contract is only
/// reported, since all are linked in one go later; for any other target it is emitted.
pub open spec fn visit(s: Settings, namespace: NamespaceView, i: nat) -> Visit
    decreases namespace.contracts.len() - i,
{
    if i >= namespace.contracts.len() {
        Visit { effects: Seq::empty(), wait: FileWait::Ended(Verdict::Accepted) }
    } else {
        let contract = namespace.contracts[i as int];
        let rest = visit(s, namespace, i + 1);
        if !contract.is_concrete {
            rest
        } else if s.emit == Some(Emit::Cfg) {
            Visit { effects: seq![Effect::PrintCfg(i as usize)] + rest.effects, ..rest }
        } else if s.target == Target::Solana {
            if s.std_json {
                Visit { effects: Seq::empty(), wait: FileWait::SolanaAbi(i as usize) }
            } else {
                Visit { effects: account_data(s, contract) + rest.effects, ..rest }
            }
        } else {
            Visit {
                effects: generating(s, contract, namespace.target),
                wait: FileWait::Binary(i as usize),
            }
        }
    }
}

/// The outcome of a step: the new state, the JSON result and what is to be done.
#[verifier::ext_equal]
pub struct FileStep<E, A> {
    pub state: FileState<A>,
    pub report: Report<E, A>,
    pub effects: Seq<EffectView>,
}

/// Going on with the contracts from number `i` on after `effects`. Once all have been visited, what
/// was found of them is handed over under the name of the file.
pub open spec fn go_on<E, A>(
    s: Settings,
    state: FileState<A>,
    report: Report<E, A>,
    effects: Seq<EffectView>,
    i: nat,
) -> FileStep<E, A> {
    let next = visit(s, state.namespace, i);
    if next.wait == FileWait::Ended(Verdict::Accepted) {
        FileStep {
            state: FileState { wait: next.wait, found: Map::empty(), ..state },
            report: Report {
                contracts: report.contracts.insert(state.filename, state.found),
                ..report
            },
            effects: effects + next.effects,
        }
    } else {
        FileStep {
            state: FileState { wait: next.wait, ..state },
            report,
            effects: effects + next.effects,
        }
    }
}

/// What becomes of a file whose diagnostics have been dealt with: its syntax tree is written where
/// that was asked for, whatever the diagnostics say; a file without contracts or with an error is
/// rejected; the contracts of any other are visited.
pub open spec fn judge<E, A>(
    s: Settings,
    state: FileState<A>,
    report: Report<E, A>,
    effects: Seq<EffectView>,
) -> FileStep<E, A> {
    if s.emit == Some(Emit::AstDot) {
        FileStep { state: FileState { wait: FileWait::Stem, ..state }, report, effects }
    } else if state.namespace.contracts.len() == 0 || state.namespace.any_errors {
        FileStep {
            state: FileState { wait: FileWait::Ended(Verdict::Rejected), ..state },
            report,
            effects,
        }
    } else {
        go_on(s, state, report, effects, 0)
    }
}

/// Writing the syntax tree of a file.
pub open spec fn save_dot(s: Settings, stem: Seq<char>) -> Seq<EffectView> {
    let file = file_named(s, stem, "dot"@);
    (if s.verbose {
        seq![
            Effect::InfoFile {
                before: "info: Saving graphviz dot "@,
                file,
                after: Seq::<char>::empty(),
            },
        ]
    } else {
        Seq::<EffectView>::empty()
    }).push(Effect::SaveDot(file))
}

/// Writing the ABI of a contract.
pub open spec fn save_abi(
    s: Settings,
    contract: Seq<char>,
    content: Seq<char>,
    extension: Seq<char>,
) -> Seq<EffectView> {
    let file = file_named(s, contract, extension);
    saving(s, "ABI"@, file, contract).push(Effect::Save(file, Content::Text(content)))
}

/// What the answer `event` leads to.
pub open spec fn file_step<E, A>(
    s: Settings,
    state: FileState<A>,
    report: Report<E, A>,
    event: Event<E, A>,
) -> FileStep<E, A> {
    let none = Seq::<EffectView>::empty();
    match (state.wait, event) {
        (FileWait::Resolve, Event::Resolved(namespace)) => {
            let state = FileState { namespace: namespace@, ..state };
            if s.std_json {
                FileStep {
                    state: FileState { wait: FileWait::Diagnostics, ..state },
                    report,
                    effects: none,
                }
            } else {
                judge(s, state, report, seq![Effect::PrintDiagnostics])
            }
        },
        (FileWait::Diagnostics, Event::Diagnostics(errors)) => judge(
            s,
            state,
            Report { errors: report.errors + errors@, ..report },
            none,
        ),
        (FileWait::Stem, Event::Stem(stem)) => FileStep {
            state: FileState { wait: FileWait::Ended(Verdict::Accepted), ..state },
            report,
            effects: save_dot(s, stem@),
        },
        (FileWait::SolanaAbi(i), Event::Abi(abi)) => {
            let contract = state.namespace.contracts[i as int];
            let found = state.found.insert(
                contract.name@,
                solana_report(abi@, contract.fixed_layout_size@),
            );
            go_on(
                s,
                FileState { found, ..state },
                report,
                account_data(s, contract),
                (i + 1) as nat,
            )
        },
        (FileWait::Binary(i), Event::Emitted(binary)) => {
            let state = FileState { binary: binary.name@, ..state };
            match intermediates(s, binary) {
                Intermediates::Saved(effects) => go_on(s, state, report, effects, (i + 1) as nat),
                Intermediates::Code(generate) => FileStep {
                    state: FileState { wait: FileWait::Generated(i, generate), ..state },
                    report,
                    effects: none,
                },
                Intermediates::Unhandled => if s.std_json {
                    FileStep {
                        state: FileState { wait: FileWait::JsonAbi(i), ..state },
                        report,
                        effects: none,
                    }
                } else {
                    FileStep {
                        state: FileState { wait: FileWait::Code(i), ..state },
                        report,
                        effects: saving(
                            s,
                            "binary"@,
                            file_named(s, binary.name@, s.binary_extension@),
                            binary.name@,
                        ),
                    }
                },
            }
        },
        (FileWait::Generated(i, generate), Event::Generated(code)) => {
            let effects = generated(s, generate, state.binary, code);
            if code is Ok {
                go_on(s, state, report, effects, (i + 1) as nat)
            } else {
                FileStep {
                    state: FileState { wait: FileWait::Ended(Verdict::Exit(1)), ..state },
                    report,
                    effects,
                }
            }
        },
        (FileWait::JsonAbi(i), Event::Abi(abi)) => FileStep {
            state: FileState { abi: abi@, wait: FileWait::JsonCode(i), ..state },
            report,
            effects: none,
        },
        (FileWait::JsonCode(i), Event::Code(code)) => {
            let found = state.found.insert(state.binary, code_report(state.abi, code@));
            go_on(
                s,
                FileState { found, abi: Seq::empty(), ..state },
                report,
                none,
                (i + 1) as nat,
            )
        },
        (FileWait::Code(i), Event::Code(code)) => FileStep {
            state: FileState { wait: FileWait::AbiFile(i), ..state },
            report,
            effects: seq![
                Effect::Save(
                    file_named(s, state.binary, s.binary_extension@),
                    Content::Bytes(code@),
                ),
            ],
        },
        (FileWait::AbiFile(i), Event::AbiFile { content, extension }) => go_on(
            s,
            state,
            report,
            save_abi(s, state.binary, content@, extension@),
            (i + 1) as nat,
        ),
        _ => FileStep { state, report, effects: none },
    }
}

/// Says, where the run is verbose, how much account data a contract uses.
fn say_account_data(effects: &mut Vec<DriverEffect>, s: &Settings, contract: &ContractInfo)
    ensures
        views(final(effects)@) == views(old(effects)@) + account_data(*s, *contract),
{
    broadcast use views_push;

    if s.verbose {
        effects.push(
            Effect::Info(
                around("info: contract ", contract.name.as_str(), " uses at least ").concat(
                    contract.fixed_layout_size.as_str(),
                ).concat(" bytes account data"),
            ),
        );
    }
    assert(views(effects@) =~= views(old(effects)@) + account_data(*s, *contract));
}

/// Says, where the run is verbose, that a contract is about to be emitted.
fn say_generating(
    effects: &mut Vec<DriverEffect>,
    s: &Settings,
    contract: &ContractInfo,
    target: &str,
)
    ensures
        views(final(effects)@) == views(old(effects)@) + generating(*s, *contract, target@),
{
    broadcast use views_push;

    if s.verbose {
        effects.push(
            Effect::Info(
                around(
                    "info: Generating LLVM IR for contract ",
                    contract.name.as_str(),
                    " with target ",
                ).concat(target),
            ),
        );
    }
    assert(views(effects@) =~= views(old(effects)@) + generating(*s, *contract, target@));
}

/// Visits the contracts from number `start` on until the compiler is needed.
fn visit_contracts(
    effects: &mut Vec<DriverEffect>,
    s: &Settings,
    namespace: &NamespaceInfo,
    start: usize,
) -> (r: FileWait)
    ensures
        views(final(effects)@) == views(old(effects)@) + visit(
            *s,
            namespace@,
            start as nat,
        ).effects,
        r == visit(*s, namespace@, start as nat).wait,
        wait_contract(r) matches Some(i) ==> start <= i < namespace.contracts@.len(),
{
    broadcast use views_push;

    let ghost whole = visit(*s, namespace@, start as nat);
    let ghost before = views(effects@);
    let mut i: usize = start;
    assert(before + whole.effects =~= views(effects@) + visit(*s, namespace@, i as nat).effects);
    while i < namespace.contracts.len()
        invariant
            start <= i,
            before == views(old(effects)@),
            before + whole.effects =~= views(effects@) + visit(*s, namespace@, i as nat).effects,
            whole.wait == visit(*s, namespace@, i as nat).wait,
            whole == visit(*s, namespace@, start as nat),
        decreases namespace.contracts@.len() - i,
    {
        let contract = &namespace.contracts[i];
        let ghost rest = visit(*s, namespace@, (i + 1) as nat);
        let ghost so_far = views(effects@);
        if contract.is_concrete {
            if s.emit == Some(Emit::Cfg) {
                effects.push(Effect::PrintCfg(i));
                assert(so_far + (seq![Effect::PrintCfg(i)] + rest.effects) =~= views(effects@)
                    + rest.effects);
            } else if s.target == Target::Solana {
                if s.std_json {
                    assert(so_far + Seq::<EffectView>::empty() =~= so_far);
                    return FileWait::SolanaAbi(i);
                }
                say_account_data(effects, s, contract);
                assert(so_far + (account_data(*s, *contract) + rest.effects) =~= views(effects@)
                    + rest.effects);
            } else {
                say_generating(effects, s, contract, namespace.target.as_str());
                return FileWait::Binary(i);
            }
        }
        i = i + 1;
    }
    assert(views(effects@) + Seq::<EffectView>::empty() =~= views(effects@));
    FileWait::Ended(Verdict::Accepted)
}

impl<A> FileJob<A> {
    /// The work on the file of the given name, before it has been looked at.
    pub fn new(filename: String) -> (r: Self)
        ensures
            r@ == untouched::<A>(filename@),
    {
        let r = FileJob {
            filename,
            namespace: NamespaceInfo::unresolved(),
            binary: String::new(),
            abi: Vec::new(),
            found: StringMap::new(),
            wait: FileWait::Resolve,
        };
        assert(r@.found =~= Map::<Seq<char>, ContractReport<A>>::empty());
        r
    }

    /// What is waited for.
    pub fn wait(&self) -> (r: FileWait)
        ensures
            r == self@.wait,
    {
        self.wait
    }

    /// What the compiler told of the file.
    pub fn into_namespace(self) -> (r: NamespaceInfo)
        ensures
            r@ == self@.namespace,
    {
        self.namespace
    }

    /// Whether the event answers what is waited for.
    pub fn accepts<E>(&self, event: &Event<E, A>) -> (r: bool)
        requires
            self@.valid(),
        ensures
            r == answers(self@.wait, self@.namespace, *event),
    {
        match (self.wait, event) {
            (FileWait::Resolve, Event::Resolved(_)) => true,
            (FileWait::Diagnostics, Event::Diagnostics(_)) => true,
            (FileWait::Stem, Event::Stem(_)) => true,
            (FileWait::SolanaAbi(i), Event::Abi(_)) => {
                let size: &str = self.namespace.contracts[i].fixed_layout_size.as_str();
                read_minimum_space(size).is_some()
            },
            (FileWait::Binary(_), Event::Emitted(_)) => true,
            (FileWait::Generated(_, _), Event::Generated(_)) => true,
            (FileWait::JsonAbi(_), Event::Abi(_)) => true,
            (FileWait::JsonCode(_), Event::Code(_)) => true,
            (FileWait::Code(_), Event::Code(_)) => true,
            (FileWait::AbiFile(_), Event::AbiFile { .. }) => true,
            _ => false,
        }
    }

    /// Goes on with the contracts from number `i` on.
    fn go_on<E>(
        &mut self,
        s: &Settings,
        json: &mut JsonResult<E, A>,
        effects: &mut Vec<DriverEffect>,
        i: usize,
    )
        requires
            old(self)@.namespace.contracts.len() <= usize::MAX,
        ensures
            ({
                let r = go_on(*s, old(self)@, old(json)@, views(old(effects)@), i as nat);
                &&& final(self)@ == r.state
                &&& final(json)@ == r.report
                &&& views(final(effects)@) == r.effects
            }),
            final(self)@.valid(),
    {
        self.wait = visit_contracts(effects, s, &self.namespace, i);
        if self.wait == FileWait::Ended(Verdict::Accepted) {
            let mut found: StringMap<JsonContract<A>> = StringMap::new();
            std::mem::swap(&mut found, &mut self.found);
            json.add_file(self.filename.clone(), found);
            assert(self@.found =~= Map::<Seq<char>, ContractReport<A>>::empty());
        }
    }

    /// Decides what becomes of a file whose diagnostics have been dealt with.
    fn judge<E>(
        &mut self,
        s: &Settings,
        json: &mut JsonResult<E, A>,
        effects: &mut Vec<DriverEffect>,
    )
        requires
            old(self)@.namespace.contracts.len() <= usize::MAX,
        ensures
            ({
                let r = judge(*s, old(self)@, old(json)@, views(old(effects)@));
                &&& final(self)@ == r.state
                &&& final(json)@ == r.report
                &&& views(final(effects)@) == r.effects
            }),
            final(self)@.valid(),
    {
        if s.emit == Some(Emit::AstDot) {
            self.wait = FileWait::Stem;
        } else if self.namespace.contracts.len() == 0 || self.namespace.any_errors {
            self.wait = FileWait::Ended(Verdict::Rejected);
        } else {
            self.go_on(s, json, effects, 0);
        }
    }

    /// Takes the compiler's answer and returns what is to be done next.
    pub fn step<E>(
        &mut self,
        s: &Settings,
        json: &mut JsonResult<E, A>,
        event: Event<E, A>,
    ) -> (effects: Vec<DriverEffect>)
        requires
            old(self)@.valid(),
            answers(old(self)@.wait, old(self)@.namespace, event),
        ensures
            ({
                let r = file_step(*s, old(self)@, old(json)@, event);
                &&& final(self)@ == r.state
                &&& final(json)@ == r.report
                &&& views(effects@) == r.effects
            }),
            final(self)@.valid(),
    {
        broadcast use {views_push, views_empty};

        assert(self.namespace.contracts.len() <= usize::MAX);
        let mut effects: Vec<DriverEffect> = Vec::new();
        match (self.wait, event) {
            (FileWait::Resolve, Event::Resolved(namespace)) => {
                self.namespace = namespace;
                assert(self.namespace.contracts.len() <= usize::MAX);
                if s.std_json {
                    self.wait = FileWait::Diagnostics;
                } else {
                    effects.push(Effect::PrintDiagnostics);
                    assert(views(effects@) =~= seq![Effect::PrintDiagnostics]);
                    self.judge(s, json, &mut effects);
                }
            },
            (FileWait::Diagnostics, Event::Diagnostics(errors)) => {
                json.add_errors(errors);
                self.judge(s, json, &mut effects);
            },
            (FileWait::Stem, Event::Stem(stem)) => {
                let file = output_file(s, stem.as_str(), "dot");
                if s.verbose {
                    effects.push(
                        Effect::InfoFile {
                            before: "info: Saving graphviz dot ".to_owned(),
                            file: file.copy(),
                            after: String::new(),
                        },
                    );
                }
                effects.push(Effect::SaveDot(file));
                assert(views(effects@) =~= save_dot(*s, stem@));
                self.wait = FileWait::Ended(Verdict::Accepted);
            },
            (FileWait::SolanaAbi(i), Event::Abi(abi)) => {
                let contract = &self.namespace.contracts[i];
                let report = JsonContract::solana(abi, contract.fixed_layout_size.as_str());
                proof {
                    insert_adds_report(self.found@, contract.name@, report);
                }
                self.found.insert(contract.name.clone(), report);
                say_account_data(&mut effects, s, contract);
                assert(views(effects@) =~= account_data(*s, *contract));
                self.go_on(s, json, &mut effects, i + 1);
            },
            (FileWait::Binary(i), Event::Emitted(binary)) => {
                let decision = save_intermediates(s, &binary);
                self.binary = binary.name;
                match decision {
                    Intermediates::Saved(saved) => {
                        effects = saved;
                        self.go_on(s, json, &mut effects, i + 1);
                    },
                    Intermediates::Code(generate) => {
                        self.wait = FileWait::Generated(i, generate);
                    },
                    Intermediates::Unhandled => {
                        if s.std_json {
                            self.wait = FileWait::JsonAbi(i);
                        } else {
                            let file = output_file(
                                s,
                                self.binary.as_str(),
                                s.binary_extension.as_str(),
                            );
                            say_saving(&mut effects, s, "binary", &file, self.binary.as_str());
                            assert(views(effects@) =~= saving(
                                *s,
                                "binary"@,
                                file@,
                                self.binary@,
                            ));
                            self.wait = FileWait::Code(i);
                        }
                    },
                }
            },
            (FileWait::Generated(i, generate), Event::Generated(code)) => {
                let made = code.is_ok();
                effects = save_generated(s, generate, self.binary.as_str(), code);
                if made {
                    self.go_on(s, json, &mut effects, i + 1);
                } else {
                    self.wait = FileWait::Ended(Verdict::Exit(1));
                }
            },
            (FileWait::JsonAbi(i), Event::Abi(abi)) => {
                self.abi = abi;
                self.wait = FileWait::JsonCode(i);
            },
            (FileWait::JsonCode(i), Event::Code(code)) => {
                let mut abi: Vec<A> = Vec::new();
                std::mem::swap(&mut abi, &mut self.abi);
                let report = JsonContract::with_code(abi, &code);
                proof {
                    insert_adds_report(self.found@, self.binary@, report);
                }
                self.found.insert(self.binary.clone(), report);
                self.go_on(s, json, &mut effects, i + 1);
            },
            (FileWait::Code(i), Event::Code(code)) => {
                let file = output_file(s, self.binary.as_str(), s.binary_extension.as_str());
                effects.push(Effect::Save(file, Content::Bytes(code)));
                assert(views(effects@) =~= seq![
                    Effect::Save(
                        file_named(*s, self.binary@, s.binary_extension@),
                        Content::Bytes(code@),
                    ),
                ]);
                self.wait = FileWait::AbiFile(i);
            },
            (FileWait::AbiFile(i), Event::AbiFile { content, extension }) => {
                let file = output_file(s, self.binary.as_str(), extension.as_str());
                say_saving(&mut effects, s, "ABI", &file, self.binary.as_str());
                effects.push(Effect::Save(file, Content::Text(content)));
                assert(views(effects@) =~= save_abi(*s, self.binary@, content@, extension@));
                self.go_on(s, json, &mut effects, i + 1);
            },
            _ => {},
        }
        effects
    }
}

} // verus!
