//! What each answer leads to, said outright: the lines, the files and their names, and what is
//! waited for next.
use vstd::prelude::*;

use crate::bundle::{bundle_answers, bundle_step, next_abi, unlinked, BundleState, BundleWait};
use crate::compilation::{compilation_step, initial, CompilationState, Stage, Wait};
use crate::intermediates::{generated, intermediates, Intermediates};
use crate::json::{ContractReport, Report};
use crate::names::{concrete_names, name_listing};
use crate::output::{Content, Effect, EffectView, OutputFile, Part};
use crate::outside::{hex_upper, joined};
use crate::process_file::{
    answers, file_step, go_on, save_abi, untouched, visit, FileState, FileStep, FileWait,
};
use crate::protocol::{BinaryInfo, ContractInfo, Event, Generate, NamespaceView, Verdict};
use crate::settings::{Emit, Settings, Target};
use crate::text::{decimal_value, digits_are_zero_to_nine};

verus! {

/// The file of this name in the directory given, or in the current one where none was.
pub open spec fn placed(s: Settings, name: Seq<char>) -> OutputFile<Seq<char>> {
    OutputFile {
        dir: match s.output {
            Some(dir) => dir@,
            None => "."@,
        },
        name,
    }
}

/// An effect that a verbose run alone has.
pub open spec fn if_verbose(s: Settings, effect: EffectView) -> Seq<EffectView> {
    if s.verbose {
        seq![effect]
    } else {
        Seq::empty()
    }
}

/// The line that tells of an artifact of a contract about to be written to the file of this name.
pub open spec fn saving_line(
    s: Settings,
    artifact: Seq<char>,
    name: Seq<char>,
    contract: Seq<char>,
) -> EffectView {
    Effect::InfoFile {
        before: "info: Saving "@ + artifact + " "@,
        file: placed(s, name),
        after: " for contract "@ + contract,
    }
}

/// How the driver words what it does: files lie in the directory given or in the current one,
/// information is for verbose runs, and a line on an artifact names it, its file and its contract.
pub proof fn lines_and_files_are_worded_like_this(
    s: Settings,
    artifact: Seq<char>,
    name: Seq<char>,
    contract: Seq<char>,
    info: ContractInfo,
    effect: EffectView,
)
    ensures
        ({
            let dir = match s.output {
                Some(dir) => dir@,
                None => "."@,
            };
            &&& placed(s, name) == OutputFile { dir, name }
            &&& saving_line(s, artifact, name, contract) == Effect::<Seq<char>, Seq<u8>>::InfoFile {
                before: "info: Saving "@ + artifact + " "@,
                file: OutputFile { dir, name },
                after: " for contract "@ + contract,
            }
        }),
        account_line(info) == Effect::<Seq<char>, Seq<u8>>::Info(
            "info: contract "@ + info.name@ + " uses at least "@ + info.fixed_layout_size@
                + " bytes account data"@,
        ),
        s.verbose ==> if_verbose(s, effect) == seq![effect],
        !s.verbose ==> if_verbose(s, effect) == Seq::<EffectView>::empty(),
{
}

/// With LLVM IR asked for, whatever the target is, the main module of a binary is dumped under its
/// name, or, where it has a runtime, as the deployer, and then the runtime; with bitcode likewise. A
/// verbose run says so before each.
pub proof fn llvm_is_written_module_by_module(s: Settings, binary: BinaryInfo)
    ensures
        ({
            let name = binary.name@;
            let plain = name + "."@ + "ll"@;
            let deploy = name + "_deploy"@ + "."@ + "ll"@;
            let runtime = name + "_runtime"@ + "."@ + "ll"@;
            s.emit == Some(Emit::LlvmIr) ==> intermediates(s, binary) == Intermediates::Saved(
                if binary.has_runtime {
                    if_verbose(s, saving_line(s, "deployer LLVM"@, deploy, name)) + seq![
                        Effect::DumpLlvm(Part::Main, placed(s, deploy)),
                    ] + if_verbose(s, saving_line(s, "runtime LLVM"@, runtime, name)) + seq![
                        Effect::DumpLlvm(Part::Runtime, placed(s, runtime)),
                    ]
                } else {
                    if_verbose(s, saving_line(s, "LLVM IR"@, plain, name)) + seq![
                        Effect::DumpLlvm(Part::Main, placed(s, plain)),
                    ]
                },
            )
        }),
        ({
            let name = binary.name@;
            let plain = name + "."@ + "bc"@;
            let deploy = name + "_deploy"@ + "."@ + "bc"@;
            let runtime = name + "_runtime"@ + "."@ + "bc"@;
            s.emit == Some(Emit::LlvmBc) ==> intermediates(s, binary) == Intermediates::Saved(
                if binary.has_runtime {
                    if_verbose(s, saving_line(s, "deploy LLVM BC"@, deploy, name)) + seq![
                        Effect::SaveBitcode(Part::Main, placed(s, deploy)),
                    ] + if_verbose(s, saving_line(s, "runtime LLVM BC"@, runtime, name)) + seq![
                        Effect::SaveBitcode(Part::Runtime, placed(s, runtime)),
                    ]
                } else {
                    if_verbose(s, saving_line(s, "LLVM BC"@, plain, name)) + seq![
                        Effect::SaveBitcode(Part::Main, placed(s, plain)),
                    ]
                },
            )
        }),
        s.emit == Some(Emit::Object) ==> intermediates(s, binary) == Intermediates::<
            Seq<EffectView>,
        >::Code(Generate::Object),
        s.emit == Some(Emit::Asm) ==> intermediates(s, binary) == Intermediates::<
            Seq<EffectView>,
        >::Code(Generate::Assembly),
        s.emit == Some(Emit::Cfg) || s.emit == Some(Emit::AstDot) ==> intermediates(s, binary)
            == Intermediates::Saved(Seq::<EffectView>::empty()),
        s.emit is None ==> intermediates(s, binary) is Unhandled,
{
    let name = binary.name@;
    if let Intermediates::Saved(effects) = intermediates(s, binary) {
        let e = if s.emit == Some(Emit::LlvmIr) {
            "ll"@
        } else {
            "bc"@
        };
        let plain = name + "."@ + e;
        let deploy = name + "_deploy"@ + "."@ + e;
        let runtime = name + "_runtime"@ + "."@ + e;
        if s.emit == Some(Emit::LlvmIr) {
            if binary.has_runtime {
                assert(effects =~= if_verbose(s, saving_line(s, "deployer LLVM"@, deploy, name))
                    + seq![Effect::DumpLlvm(Part::Main, placed(s, deploy))] + if_verbose(
                    s,
                    saving_line(s, "runtime LLVM"@, runtime, name),
                ) + seq![Effect::DumpLlvm(Part::Runtime, placed(s, runtime))]);
            } else {
                assert(effects =~= if_verbose(s, saving_line(s, "LLVM IR"@, plain, name)) + seq![
                    Effect::DumpLlvm(Part::Main, placed(s, plain)),
                ]);
            }
        } else if s.emit == Some(Emit::LlvmBc) {
            if binary.has_runtime {
                assert(effects =~= if_verbose(s, saving_line(s, "deploy LLVM BC"@, deploy, name))
                    + seq![Effect::SaveBitcode(Part::Main, placed(s, deploy))] + if_verbose(
                    s,
                    saving_line(s, "runtime LLVM BC"@, runtime, name),
                ) + seq![Effect::SaveBitcode(Part::Runtime, placed(s, runtime))]);
            } else {
                assert(effects =~= if_verbose(s, saving_line(s, "LLVM BC"@, plain, name)) + seq![
                    Effect::SaveBitcode(Part::Main, placed(s, plain)),
                ]);
            }
        }
    }
}

/// Object code is written under the name of its contract with the extension `o` and assembly code
/// with `asm`; where there is none, the reason is printed and nothing is written.
pub proof fn code_is_written_under_its_extension(
    s: Settings,
    contract: Seq<char>,
    code: Vec<u8>,
    reason: String,
)
    ensures
        generated(s, Generate::Object, contract, Ok(code)) == if_verbose(
            s,
            saving_line(s, "Object"@, contract + "."@ + "o"@, contract),
        ) + seq![
            Effect::Save(placed(s, contract + "."@ + "o"@), Content::Bytes(code@)),
        ],
        generated(s, Generate::Assembly, contract, Ok(code)) == if_verbose(
            s,
            saving_line(s, "Assembly"@, contract + "."@ + "asm"@, contract),
        ) + seq![
            Effect::Save(placed(s, contract + "."@ + "asm"@), Content::Bytes(code@)),
        ],
        forall|generate: Generate| #[trigger]
            generated(s, generate, contract, Err(reason)) == seq![
                Effect::<Seq<char>, Seq<u8>>::Print("error: "@ + reason@),
            ],
{
    assert(generated(s, Generate::Object, contract, Ok(code)) =~= if_verbose(
        s,
        saving_line(s, "Object"@, contract + "."@ + "o"@, contract),
    ) + seq![Effect::Save(placed(s, contract + "."@ + "o"@), Content::Bytes(code@))]);
    assert(generated(s, Generate::Assembly, contract, Ok(code)) =~= if_verbose(
        s,
        saving_line(s, "Assembly"@, contract + "."@ + "asm"@, contract),
    ) + seq![Effect::Save(placed(s, contract + "."@ + "asm"@), Content::Bytes(code@))]);
}

/// Whether the compiler is needed for a contract.
pub open spec fn needs_compiler(s: Settings, contract: ContractInfo) -> bool {
    contract.is_concrete && s.emit != Some(Emit::Cfg) && (s.target != Target::Solana || s.std_json)
}

/// The line that tells of the account data of a contract.
pub open spec fn account_line(contract: ContractInfo) -> EffectView {
    Effect::Info(
        "info: contract "@ + contract.name@ + " uses at least "@ + contract.fixed_layout_size@
            + " bytes account data"@,
    )
}

/// What is done with the contracts from number `i` up to number `k` where none needs the compiler:
/// the graph of each concrete one is printed, or its account data told.
pub open spec fn passed_over(s: Settings, contracts: Seq<ContractInfo>, i: nat, k: nat) -> Seq<
    EffectView,
>
    decreases k - i,
{
    if i >= k {
        Seq::empty()
    } else {
        (if !contracts[i as int].is_concrete {
            Seq::empty()
        } else if s.emit == Some(Emit::Cfg) {
            seq![Effect::PrintCfg(i as usize)]
        } else {
            if_verbose(s, account_line(contracts[i as int]))
        }) + passed_over(s, contracts, i + 1, k)
    }
}

/// Whether a step, after the effects `lead`, passed over the contracts from number `i` up to number
/// `k`, which is the first that needs the compiler or lies behind the last one. There the compiler is
/// asked for the ABI for Solana and for the binary otherwise; behind the last contract the file is
/// accepted, and what was found is recorded under its name.
pub open spec fn goes_on_to<E, A>(
    s: Settings,
    state: FileState<A>,
    report: Report<E, A>,
    lead: Seq<EffectView>,
    i: nat,
    k: nat,
    r: FileStep<E, A>,
) -> bool {
    let contracts = state.namespace.contracts;
    &&& i <= k <= contracts.len()
    &&& forall|j: int| i <= j < k ==> !needs_compiler(s, #[trigger] contracts[j])
    &&& if k == contracts.len() {
        &&& r.state == (FileState {
            wait: FileWait::Ended(Verdict::Accepted),
            found: Map::empty(),
            ..state
        })
        &&& r.report == (Report {
            contracts: report.contracts.insert(state.filename, state.found),
            ..report
        })
        &&& r.effects == lead + passed_over(s, contracts, i, k)
    } else {
        let contract = contracts[k as int];
        &&& needs_compiler(s, contract)
        &&& r.report == report
        &&& if s.target == Target::Solana {
            &&& r.state == (FileState { wait: FileWait::SolanaAbi(k as usize), ..state })
            &&& r.effects == lead + passed_over(s, contracts, i, k)
        } else {
            &&& r.state == (FileState { wait: FileWait::Binary(k as usize), ..state })
            &&& r.effects == lead + (passed_over(s, contracts, i, k) + if_verbose(
                s,
                Effect::Info(
                    "info: Generating LLVM IR for contract "@ + contract.name@ + " with target "@
                        + state.namespace.target,
                ),
            ))
        }
    }
}

/// Whether a step, after the effects `lead`, went on with the contracts from number `i` on.
pub open spec fn goes_on<E, A>(
    s: Settings,
    state: FileState<A>,
    report: Report<E, A>,
    lead: Seq<EffectView>,
    i: nat,
    r: FileStep<E, A>,
) -> bool {
    exists|k: nat| goes_on_to(s, state, report, lead, i, k, r)
}

pub(crate) proof fn visit_passes_over(s: Settings, namespace: NamespaceView, i: nat) -> (k: nat)
    requires
        i <= namespace.contracts.len(),
    ensures
        ({
            let contracts = namespace.contracts;
            let r = visit(s, namespace, i);
            &&& i <= k <= contracts.len()
            &&& forall|j: int| i <= j < k ==> !needs_compiler(s, #[trigger] contracts[j])
            &&& if k == contracts.len() {
                &&& r.wait == FileWait::Ended(Verdict::Accepted)
                &&& r.effects == passed_over(s, contracts, i, k)
            } else {
                let contract = contracts[k as int];
                &&& needs_compiler(s, contract)
                &&& if s.target == Target::Solana {
                    &&& r.wait == FileWait::SolanaAbi(k as usize)
                    &&& r.effects == passed_over(s, contracts, i, k)
                } else {
                    &&& r.wait == FileWait::Binary(k as usize)
                    &&& r.effects == passed_over(s, contracts, i, k) + if_verbose(
                        s,
                        Effect::Info(
                            "info: Generating LLVM IR for contract "@ + contract.name@
                                + " with target "@ + namespace.target,
                        ),
                    )
                }
            }
        }),
    decreases namespace.contracts.len() - i,
{
    let none = Seq::<EffectView>::empty();
    let contracts = namespace.contracts;
    if i >= contracts.len() {
        i
    } else if needs_compiler(s, contracts[i as int]) {
        let said = visit(s, namespace, i).effects;
        assert(none + said =~= said);
        i
    } else {
        let k = visit_passes_over(s, namespace, i + 1);
        let first = if !contracts[i as int].is_concrete {
            none
        } else if s.emit == Some(Emit::Cfg) {
            seq![Effect::PrintCfg(i as usize)]
        } else {
            if_verbose(s, account_line(contracts[i as int]))
        };
        let rest = visit(s, namespace, i + 1).effects;
        let passed = passed_over(s, contracts, i + 1, k);
        assert(visit(s, namespace, i).effects =~= first + rest);
        if k < contracts.len() && s.target != Target::Solana {
            let said = if_verbose(
                s,
                Effect::Info(
                    "info: Generating LLVM IR for contract "@ + contracts[k as int].name@
                        + " with target "@ + namespace.target,
                ),
            );
            assert(first + (passed + said) =~= (first + passed) + said);
        }
        assert forall|j: int| i <= j < k implies !needs_compiler(s, #[trigger] contracts[j]) by {}
        k
    }
}

proof fn go_on_goes_on<E, A>(
    s: Settings,
    state: FileState<A>,
    report: Report<E, A>,
    lead: Seq<EffectView>,
    i: nat,
)
    requires
        i <= state.namespace.contracts.len(),
    ensures
        goes_on(s, state, report, lead, i, go_on(s, state, report, lead, i)),
{
    let k = visit_passes_over(s, state.namespace, i);
    assert(goes_on_to(s, state, report, lead, i, k, go_on(s, state, report, lead, i)));
}

/// Whether a step did what has to be done once the diagnostics are dealt with, after the effects
/// `lead`: the stem is asked for where the syntax tree is; otherwise a file without contracts or with
/// an error is rejected, and the contracts of any other are gone through from the first on.
pub open spec fn is_judged<E, A>(
    s: Settings,
    state: FileState<A>,
    report: Report<E, A>,
    lead: Seq<EffectView>,
    r: FileStep<E, A>,
) -> bool {
    if s.emit == Some(Emit::AstDot) {
        r == (FileStep {
            state: FileState { wait: FileWait::Stem, ..state },
            report,
            effects: lead,
        })
    } else if state.namespace.contracts.len() == 0 || state.namespace.any_errors {
        r == (FileStep {
            state: FileState { wait: FileWait::Ended(Verdict::Rejected), ..state },
            report,
            effects: lead,
        })
    } else {
        goes_on(s, state, report, lead, 0, r)
    }
}

/// A file that has been resolved has its diagnostics printed, or, with JSON asked for, collected and
/// added behind those already there; then it is judged.
pub proof fn resolved_file_is_judged<E, A>(
    s: Settings,
    state: FileState<A>,
    report: Report<E, A>,
    event: Event<E, A>,
)
    ensures
        match (state.wait, event) {
            (FileWait::Resolve, Event::Resolved(namespace)) => {
                let r = file_step(s, state, report, event);
                let known = FileState { namespace: namespace@, ..state };
                if s.std_json {
                    r == (FileStep {
                        state: FileState { wait: FileWait::Diagnostics, ..known },
                        report,
                        effects: Seq::empty(),
                    })
                } else {
                    is_judged(s, known, report, seq![Effect::PrintDiagnostics], r)
                }
            },
            (FileWait::Diagnostics, Event::Diagnostics(errors)) => is_judged(
                s,
                state,
                Report { errors: report.errors + errors@, ..report },
                Seq::empty(),
                file_step(s, state, report, event),
            ),
            _ => true,
        },
{
    match (state.wait, event) {
        (FileWait::Resolve, Event::Resolved(namespace)) => {
            let known = FileState { namespace: namespace@, ..state };
            go_on_goes_on(s, known, report, seq![Effect::PrintDiagnostics], 0);
        },
        (FileWait::Diagnostics, Event::Diagnostics(errors)) => {
            let after = Report { errors: report.errors + errors@, ..report };
            go_on_goes_on(s, state, after, Seq::empty(), 0);
        },
        _ => {},
    }
}

/// The syntax tree of a file is written under its stem with the extension `dot`, and the file is
/// accepted.
pub proof fn syntax_tree_is_saved_under_the_stem<E, A>(
    s: Settings,
    state: FileState<A>,
    report: Report<E, A>,
    stem: String,
)
    requires
        state.wait == FileWait::Stem,
    ensures
        ({
            let file = placed(s, stem@ + "."@ + "dot"@);
            file_step(s, state, report, Event::<E, A>::Stem(stem)) == (FileStep {
                state: FileState { wait: FileWait::Ended(Verdict::Accepted), ..state },
                report,
                effects: if_verbose(
                    s,
                    Effect::InfoFile {
                        before: "info: Saving graphviz dot "@,
                        file,
                        after: Seq::empty(),
                    },
                ) + seq![Effect::SaveDot(file)],
            })
        }),
{
    let file = placed(s, stem@ + "."@ + "dot"@);
    let effects = file_step(s, state, report, Event::<E, A>::Stem(stem)).effects;
    assert(effects =~= if_verbose(
        s,
        Effect::InfoFile { before: "info: Saving graphviz dot "@, file, after: Seq::empty() },
    ) + seq![Effect::SaveDot(file)]);
}

/// A contract for Solana is recorded under its name with its whole ABI and the account data that its
/// layout takes, of which a verbose run tells; then the next contracts are gone through.
pub proof fn solana_contract_is_recorded<E, A>(
    s: Settings,
    state: FileState<A>,
    report: Report<E, A>,
    abi: Vec<A>,
    i: usize,
)
    requires
        state.valid(),
        state.wait == FileWait::SolanaAbi(i),
        answers(state.wait, state.namespace, Event::<E, A>::Abi(abi)),
    ensures
        ({
            let contract = state.namespace.contracts[i as int];
            let found = state.found.insert(
                contract.name@,
                ContractReport {
                    abi: abi@,
                    ewasm: None,
                    minimum_space: Some(decimal_value(contract.fixed_layout_size@) as u32),
                },
            );
            goes_on(
                s,
                FileState { found, ..state },
                report,
                if_verbose(s, account_line(contract)),
                (i + 1) as nat,
                file_step(s, state, report, Event::<E, A>::Abi(abi)),
            )
        }),
{
    let contract = state.namespace.contracts[i as int];
    let found = state.found.insert(
        contract.name@,
        ContractReport {
            abi: abi@,
            ewasm: None,
            minimum_space: Some(decimal_value(contract.fixed_layout_size@) as u32),
        },
    );
    go_on_goes_on(
        s,
        FileState { found, ..state },
        report,
        if_verbose(s, account_line(contract)),
        (i + 1) as nat,
    );
}

/// What an emitted binary leads to. With no early stage asked for its ABI is asked for, for the JSON
/// result, or else its code, which a verbose run tells of as it is about to be written under the name
/// of the binary. LLVM is written and the next contracts are gone through; other code is asked for.
pub proof fn emitted_contract_is_dealt_with<E, A>(
    s: Settings,
    state: FileState<A>,
    report: Report<E, A>,
    binary: BinaryInfo,
    i: usize,
)
    requires
        state.valid(),
        state.wait == FileWait::Binary(i),
    ensures
        ({
            let r = file_step(s, state, report, Event::<E, A>::Emitted(binary));
            let named = FileState { binary: binary.name@, ..state };
            let none = Seq::<EffectView>::empty();
            match s.emit {
                None => if s.std_json {
                    r == (FileStep {
                        state: FileState { wait: FileWait::JsonAbi(i), ..named },
                        report,
                        effects: none,
                    })
                } else {
                    r == (FileStep {
                        state: FileState { wait: FileWait::Code(i), ..named },
                        report,
                        effects: if_verbose(
                            s,
                            saving_line(
                                s,
                                "binary"@,
                                binary.name@ + "."@ + s.binary_extension@,
                                binary.name@,
                            ),
                        ),
                    })
                },
                Some(Emit::Object) => r == (FileStep {
                    state: FileState { wait: FileWait::Generated(i, Generate::Object), ..named },
                    report,
                    effects: none,
                }),
                Some(Emit::Asm) => r == (FileStep {
                    state: FileState { wait: FileWait::Generated(i, Generate::Assembly), ..named },
                    report,
                    effects: none,
                }),
                _ => intermediates(s, binary) is Saved && goes_on(
                    s,
                    named,
                    report,
                    intermediates(s, binary)->Saved_0,
                    (i + 1) as nat,
                    r,
                ),
            }
        }),
{
    let named = FileState { binary: binary.name@, ..state };
    if let Intermediates::Saved(effects) = intermediates(s, binary) {
        go_on_goes_on(s, named, report, effects, (i + 1) as nat);
    }
    let r = file_step(s, state, report, Event::<E, A>::Emitted(binary));
    if s.emit is None && !s.std_json {
        assert(r.effects =~= if_verbose(
            s,
            saving_line(
                s,
                "binary"@,
                binary.name@ + "."@ + s.binary_extension@,
                binary.name@,
            ),
        ));
    }
}

/// Code made at an early stage is written and the next contracts are gone through; where there is
/// none the reason is printed and the run ends with 1.
pub proof fn generated_code_is_dealt_with<E, A>(
    s: Settings,
    state: FileState<A>,
    report: Report<E, A>,
    code: Result<Vec<u8>, String>,
    i: usize,
    generate: Generate,
)
    requires
        state.valid(),
        state.wait == FileWait::Generated(i, generate),
    ensures
        ({
            let r = file_step(s, state, report, Event::<E, A>::Generated(code));
            match code {
                Ok(bytes) => {
                    let (artifact, name) = match generate {
                        Generate::Object => ("Object"@, state.binary + "."@ + "o"@),
                        Generate::Assembly => ("Assembly"@, state.binary + "."@ + "asm"@),
                    };
                    goes_on(
                        s,
                        state,
                        report,
                        if_verbose(s, saving_line(s, artifact, name, state.binary)) + seq![
                            Effect::Save(placed(s, name), Content::Bytes(bytes@)),
                        ],
                        (i + 1) as nat,
                        r,
                    )
                },
                Err(reason) => r == (FileStep {
                    state: FileState { wait: FileWait::Ended(Verdict::Exit(1)), ..state },
                    report,
                    effects: seq![Effect::Print("error: "@ + reason@)],
                }),
            }
        }),
{
    let effects = generated(s, generate, state.binary, code);
    go_on_goes_on(s, state, report, effects, (i + 1) as nat);
    match code {
        Ok(bytes) => {
            code_is_written_under_its_extension(s, state.binary, bytes, arbitrary());
        },
        Err(reason) => {
            code_is_written_under_its_extension(s, state.binary, arbitrary(), reason);
        },
    }
}

/// For the JSON result the whole ABI of an emitted contract is taken first and then its code; it is
/// recorded under the name of the binary with both, and the next contracts are gone through.
pub proof fn emitted_contract_is_recorded<E, A>(
    s: Settings,
    state: FileState<A>,
    report: Report<E, A>,
    abi: Vec<A>,
    code: Vec<u8>,
    i: usize,
)
    requires
        state.valid(),
    ensures
        state.wait == FileWait::JsonAbi(i) ==> file_step(
            s,
            state,
            report,
            Event::<E, A>::Abi(abi),
        ) == (FileStep {
            state: FileState { abi: abi@, wait: FileWait::JsonCode(i), ..state },
            report,
            effects: Seq::empty(),
        }),
        state.wait == FileWait::JsonCode(i) ==> goes_on(
            s,
            FileState {
                found: state.found.insert(
                    state.binary,
                    ContractReport {
                        abi: state.abi,
                        ewasm: Some(hex_upper(code@)),
                        minimum_space: None,
                    },
                ),
                abi: Seq::empty(),
                ..state
            },
            report,
            Seq::empty(),
            (i + 1) as nat,
            file_step(s, state, report, Event::<E, A>::Code(code)),
        ),
{
    if state.wait == FileWait::JsonCode(i) {
        let next = FileState {
            found: state.found.insert(
                state.binary,
                ContractReport {
                    abi: state.abi,
                    ewasm: Some(hex_upper(code@)),
                    minimum_space: None,
                },
            ),
            abi: Seq::empty(),
            ..state
        };
        go_on_goes_on(s, next, report, Seq::empty(), (i + 1) as nat);
    }
}

/// The code of an emitted contract is written whole under the name of the binary with the extension
/// of the target, and then its ABI whole under the same name with the extension it comes with, of
/// which a verbose run tells; then the next contracts are gone through.
pub proof fn emitted_contract_is_saved<E, A>(
    s: Settings,
    state: FileState<A>,
    report: Report<E, A>,
    code: Vec<u8>,
    content: String,
    extension: String,
    i: usize,
)
    requires
        state.valid(),
    ensures
        state.wait == FileWait::Code(i) ==> file_step(
            s,
            state,
            report,
            Event::<E, A>::Code(code),
        ) == (FileStep {
            state: FileState { wait: FileWait::AbiFile(i), ..state },
            report,
            effects: seq![
                Effect::Save(
                    placed(s, state.binary + "."@ + s.binary_extension@),
                    Content::Bytes(code@),
                ),
            ],
        }),
        state.wait == FileWait::AbiFile(i) ==> goes_on(
            s,
            state,
            report,
            if_verbose(
                s,
                saving_line(s, "ABI"@, state.binary + "."@ + extension@, state.binary),
            ) + seq![
                Effect::Save(
                    placed(s, state.binary + "."@ + extension@),
                    Content::Text(content@),
                ),
            ],
            (i + 1) as nat,
            file_step(s, state, report, Event::<E, A>::AbiFile { content, extension }),
        ),
{
    if state.wait == FileWait::AbiFile(i) {
        let lead = if_verbose(
            s,
            saving_line(s, "ABI"@, state.binary + "."@ + extension@, state.binary),
        ) + seq![
            Effect::Save(placed(s, state.binary + "."@ + extension@), Content::Text(content@)),
        ];
        assert(save_abi(s, state.binary, content@, extension@) =~= lead);
        go_on_goes_on(s, state, report, lead, (i + 1) as nat);
    }
}

/// What is waited for is answered by an event of its kind, and by no other. The account data of a
/// contract for Solana has to be a number that 32 bits can hold to be reported.
pub proof fn answers_are_of_the_kind_waited_for<E, A>(
    state: FileState<A>,
    event: Event<E, A>,
)
    ensures
        answers(state.wait, state.namespace, event) <==> match (state.wait, event) {
            (FileWait::Resolve, Event::Resolved(_)) => true,
            (FileWait::Diagnostics, Event::Diagnostics(_)) => true,
            (FileWait::Stem, Event::Stem(_)) => true,
            (FileWait::SolanaAbi(i), Event::Abi(_)) => {
                let size = state.namespace.contracts[i as int].fixed_layout_size@;
                &&& size.len() > 0
                &&& forall|j: int| 0 <= j < size.len() ==> '0' <= #[trigger] size[j] <= '9'
                &&& decimal_value(size) <= u32::MAX
            },
            (FileWait::Binary(_), Event::Emitted(_)) => true,
            (FileWait::Generated(_, _), Event::Generated(_)) => true,
            (FileWait::JsonAbi(_), Event::Abi(_)) => true,
            (FileWait::JsonCode(_), Event::Code(_)) => true,
            (FileWait::Code(_), Event::Code(_)) => true,
            (FileWait::AbiFile(_), Event::AbiFile { .. }) => true,
            _ => false,
        },
        state.valid() <==> state.namespace.contracts.len() <= usize::MAX && match state.wait {
            FileWait::SolanaAbi(i) => i < state.namespace.contracts.len(),
            FileWait::Binary(i) => i < state.namespace.contracts.len(),
            FileWait::Generated(i, _) => i < state.namespace.contracts.len(),
            FileWait::JsonAbi(i) => i < state.namespace.contracts.len(),
            FileWait::JsonCode(i) => i < state.namespace.contracts.len(),
            FileWait::Code(i) => i < state.namespace.contracts.len(),
            FileWait::AbiFile(i) => i < state.namespace.contracts.len(),
            _ => true,
        },
{
    if let FileWait::SolanaAbi(i) = state.wait {
        digits_are_zero_to_nine(
            state.namespace.contracts[i as int].fixed_layout_size@,
        );
    }
}

/// The work on a file begins with its name alone: the file is to be resolved, and nothing is known or
/// found of it yet.
pub proof fn work_begins_with_the_name<A>(filename: Seq<char>)
    ensures
        untouched::<A>(filename).filename == filename,
        untouched::<A>(filename).wait == FileWait::Resolve,
        untouched::<A>(filename).found == Map::<Seq<char>, ContractReport<A>>::empty(),
        untouched::<A>(filename).namespace.contracts.len() == 0,
        untouched::<A>(filename).valid(),
{
}

/// Whether one place among the contracts of all files does not lie before another: the first numbers
/// are those of the files.
pub open spec fn not_before(n: nat, c: nat, m: nat, d: nat) -> bool {
    n < m || (n == m && c <= d)
}

/// The ABI that is asked for next is that of the first concrete contract from contract `c` of file
/// `n` on; where there is none the linking is over.
pub proof fn next_abi_is_of_the_first_concrete_contract(
    namespaces: Seq<NamespaceView>,
    n: nat,
    c: nat,
)
    requires
        namespaces.len() <= usize::MAX,
        forall|m: int|
            0 <= m < namespaces.len() ==> (#[trigger] namespaces[m]).contracts.len() <= usize::MAX,
    ensures
        match next_abi(namespaces, n, c) {
            BundleWait::AbiFile(m, d) => {
                &&& m < namespaces.len()
                &&& d < namespaces[m as int].contracts.len()
                &&& namespaces[m as int].contracts[d as int].is_concrete
                &&& not_before(n, c, m as nat, d as nat)
                &&& forall|p: int, q: int|
                    0 <= p < namespaces.len() && 0 <= q < namespaces[p].contracts.len()
                        && not_before(n, c, p as nat, q as nat) && not_before(
                        p as nat,
                        q as nat,
                        m as nat,
                        d as nat,
                    ) && (#[trigger] namespaces[p].contracts[q]).is_concrete ==> p == m && q == d
            },
            BundleWait::Ended(Verdict::Accepted) => forall|p: int, q: int|
                0 <= p < namespaces.len() && 0 <= q < namespaces[p].contracts.len() && not_before(
                    n,
                    c,
                    p as nat,
                    q as nat,
                ) ==> !(#[trigger] namespaces[p].contracts[q]).is_concrete,
            _ => false,
        },
    decreases namespaces.len() - n, namespaces[n as int].contracts.len() - c,
{
    if n < namespaces.len() {
        assert(namespaces[n as int].contracts.len() <= usize::MAX);
        if c >= namespaces[n as int].contracts.len() {
            next_abi_is_of_the_first_concrete_contract(namespaces, n + 1, 0);
            assert(next_abi(namespaces, n, c) == next_abi(namespaces, n + 1, 0));
        } else if !namespaces[n as int].contracts[c as int].is_concrete {
            next_abi_is_of_the_first_concrete_contract(namespaces, n, c + 1);
            assert(next_abi(namespaces, n, c) == next_abi(namespaces, n, c + 1));
        }
    }
}

/// What the linked binary leads to. With no early stage asked for its code is asked for, and a
/// verbose run tells of the file `bundle` and of the names of its contracts. LLVM is written and the
/// linking is over; other code is asked for.
pub proof fn linked_binary_is_dealt_with<E, A>(
    s: Settings,
    namespaces: Seq<NamespaceView>,
    state: BundleState,
    report: Report<E, A>,
    binary: BinaryInfo,
)
    requires
        state.wait == BundleWait::Binary,
    ensures
        ({
            let r = bundle_step(s, namespaces, state, report, Event::<E, A>::Emitted(binary));
            &&& r.report == report
            &&& r.state.binary == binary.name@
            &&& match s.emit {
                None => {
                    &&& r.state.wait == BundleWait::Linked
                    &&& r.effects == if_verbose(
                        s,
                        Effect::InfoFile {
                            before: "info: Saving binary "@,
                            file: placed(s, "bundle"@ + "."@ + s.binary_extension@),
                            after: " for contracts: "@ + joined(
                                name_listing(concrete_names(namespaces)),
                                ", "@,
                            ),
                        },
                    )
                },
                Some(Emit::Object) => {
                    &&& r.state.wait == BundleWait::Generated(Generate::Object)
                    &&& r.effects == Seq::<EffectView>::empty()
                },
                Some(Emit::Asm) => {
                    &&& r.state.wait == BundleWait::Generated(Generate::Assembly)
                    &&& r.effects == Seq::<EffectView>::empty()
                },
                _ => {
                    &&& r.state.wait == BundleWait::Ended(Verdict::Accepted)
                    &&& intermediates(s, binary) == Intermediates::Saved(r.effects)
                },
            }
        }),
{
    let r = bundle_step(s, namespaces, state, report, Event::<E, A>::Emitted(binary));
    if s.emit is None {
        assert(r.effects =~= if_verbose(
            s,
            Effect::InfoFile {
                before: "info: Saving binary "@,
                file: placed(s, "bundle"@ + "."@ + s.binary_extension@),
                after: " for contracts: "@ + joined(
                    name_listing(concrete_names(namespaces)),
                    ", "@,
                ),
            },
        ));
    }
}

/// What the code of the linked binary leads to. Code made at an early stage is written and the
/// linking is over; where there is none the reason is printed and the run ends with 1. The finished
/// code is recorded in hexadecimal for the JSON result, and otherwise written whole to the file
/// `bundle`, after which the ABIs are asked for; each is written whole under the name of its contract.
pub proof fn linked_code_is_dealt_with<E, A>(
    s: Settings,
    namespaces: Seq<NamespaceView>,
    state: BundleState,
    report: Report<E, A>,
    event: Event<E, A>,
)
    ensures
        ({
            let r = bundle_step(s, namespaces, state, report, event);
            match (state.wait, event) {
                (BundleWait::Generated(generate), Event::Generated(Ok(code))) => {
                    let (artifact, name) = match generate {
                        Generate::Object => ("Object"@, state.binary + "."@ + "o"@),
                        Generate::Assembly => ("Assembly"@, state.binary + "."@ + "asm"@),
                    };
                    &&& r.state.wait == BundleWait::Ended(Verdict::Accepted)
                    &&& r.report == report
                    &&& r.effects == if_verbose(
                        s,
                        saving_line(s, artifact, name, state.binary),
                    ) + seq![Effect::Save(placed(s, name), Content::Bytes(code@))]
                },
                (BundleWait::Generated(_), Event::Generated(Err(reason))) => {
                    &&& r.state.wait == BundleWait::Ended(Verdict::Exit(1))
                    &&& r.report == report
                    &&& r.effects == seq![
                        Effect::<Seq<char>, Seq<u8>>::Print("error: "@ + reason@),
                    ]
                },
                (BundleWait::Linked, Event::Code(code)) => if s.std_json {
                    &&& r.state.wait == BundleWait::Ended(Verdict::Accepted)
                    &&& r.report == (Report { program: hex_upper(code@), ..report })
                    &&& r.effects == Seq::<EffectView>::empty()
                } else {
                    &&& r.state.wait == next_abi(namespaces, 0, 0)
                    &&& r.report == report
                    &&& r.effects == seq![
                        Effect::Save(
                            placed(s, "bundle"@ + "."@ + s.binary_extension@),
                            Content::Bytes(code@),
                        ),
                    ]
                },
                (BundleWait::AbiFile(n, c), Event::AbiFile { content, extension }) => {
                    let contract = namespaces[n as int].contracts[c as int].name@;
                    let name = contract + "."@ + extension@;
                    &&& r.state.wait == next_abi(namespaces, n as nat, (c + 1) as nat)
                    &&& r.report == report
                    &&& r.effects == if_verbose(s, saving_line(s, "ABI"@, name, contract)) + seq![
                        Effect::Save(placed(s, name), Content::Text(content@)),
                    ]
                },
                _ => true,
            }
        }),
        state.wait == BundleWait::Binary || bundle_step(
            s,
            namespaces,
            state,
            report,
            event,
        ).state.binary == state.binary,
{
    let r = bundle_step(s, namespaces, state, report, event);
    match (state.wait, event) {
        (BundleWait::Generated(_), Event::Generated(Ok(code))) => {
            code_is_written_under_its_extension(s, state.binary, code, arbitrary());
        },
        (BundleWait::Generated(_), Event::Generated(Err(reason))) => {
            code_is_written_under_its_extension(s, state.binary, arbitrary(), reason);
        },
        (BundleWait::AbiFile(n, c), Event::AbiFile { content, extension }) => {
            let contract = namespaces[n as int].contracts[c as int].name@;
            let name = contract + "."@ + extension@;
            assert(r.effects =~= if_verbose(s, saving_line(s, "ABI"@, name, contract)) + seq![
                Effect::Save(placed(s, name), Content::Text(content@)),
            ]);
        },
        _ => {},
    }
}

/// What the linking waits for is answered by an event of its kind, and by no other.
pub proof fn linking_answers_are_of_the_kind_waited_for<E, A>(
    state: BundleState,
    namespaces: Seq<NamespaceView>,
    event: Event<E, A>,
)
    ensures
        bundle_answers(state.wait, event) <==> match (state.wait, event) {
            (BundleWait::Binary, Event::Emitted(_)) => true,
            (BundleWait::Generated(_), Event::Generated(_)) => true,
            (BundleWait::Linked, Event::Code(_)) => true,
            (BundleWait::AbiFile(_, _), Event::AbiFile { .. }) => true,
            _ => false,
        },
        unlinked().wait == BundleWait::Binary,
        unlinked().binary == Seq::<char>::empty(),
        state.valid(namespaces) <==> {
            &&& namespaces.len() <= usize::MAX
            &&& forall|n: int|
                0 <= n < namespaces.len() ==> (#[trigger] namespaces[n]).contracts.len()
                    <= usize::MAX
            &&& match state.wait {
                BundleWait::AbiFile(n, c) => n < namespaces.len() && c
                    < namespaces[n as int].contracts.len(),
                _ => true,
            }
        },
{
}

/// Whether a step of a compilation ended it with the exit code, after the effects `lead`, with what
/// belongs to the end.
pub open spec fn ends_run<E, A>(
    before: CompilationState<E, A>,
    lead: Seq<EffectView>,
    end: Seq<EffectView>,
    code: i32,
    after: CompilationState<E, A>,
    effects: Seq<EffectView>,
) -> bool {
    &&& after == (CompilationState { stage: Stage::Over(code), ..before })
    &&& effects == lead + end
}

/// Whether a step went on behind the input of number `i`, after the effects `lead`: the next input is
/// begun with. Behind the last one the run ends with 0 where the syntax trees are asked for. Where an
/// input was rejected it ends with 0 and the JSON result, or with 1 and the error line. Otherwise the
/// inputs are linked for Solana, and for any other target the run ends with 0 and the JSON result
/// where that is asked for.
pub open spec fn follows_input<E, A>(
    before: CompilationState<E, A>,
    lead: Seq<EffectView>,
    i: nat,
    after: CompilationState<E, A>,
    effects: Seq<EffectView>,
) -> bool {
    let s = before.settings;
    let none = Seq::<EffectView>::empty();
    let json = seq![Effect::<Seq<char>, Seq<u8>>::PrintJson];
    if i + 1 < before.inputs.len() {
        &&& after == (CompilationState {
            job: after.job,
            stage: Stage::File((i + 1) as usize),
            ..before
        })
        &&& after.job.filename == before.inputs[i as int + 1]
        &&& after.job.wait == FileWait::Resolve
        &&& after.job.found == Map::<Seq<char>, ContractReport<A>>::empty()
        &&& effects == lead
    } else if s.emit == Some(Emit::AstDot) {
        ends_run(before, lead, none, 0, after, effects)
    } else if before.errors && s.std_json {
        ends_run(before, lead, json, 0, after, effects)
    } else if before.errors {
        ends_run(
            before,
            lead,
            seq![Effect::Error("error: not all contracts are valid"@)],
            1,
            after,
            effects,
        )
    } else if s.target == Target::Solana {
        &&& after == (CompilationState {
            bundle: BundleState { binary: Seq::empty(), wait: BundleWait::Binary },
            stage: Stage::Bundle,
            ..before
        })
        &&& effects == lead
    } else if s.std_json {
        ends_run(before, lead, json, 0, after, effects)
    } else {
        ends_run(before, lead, none, 0, after, effects)
    }
}

/// What an answer on the input in hand leads to: the step of its work, and, where that ends, the file
/// is kept, or noted as rejected, and the next input is gone on to, or the run ends at once.
pub proof fn answer_on_input_is_handed_to_its_work<E, A>(
    state: CompilationState<E, A>,
    event: Event<E, A>,
    i: usize,
)
    requires
        state.stage == Stage::File(i),
    ensures
        ({
            let f = file_step(state.settings, state.job, state.report, event);
            let next = CompilationState { job: f.state, report: f.report, ..state };
            let r = compilation_step(state, event);
            match f.state.wait {
                FileWait::Ended(Verdict::Accepted) => follows_input(
                    CompilationState {
                        namespaces: state.namespaces + seq![f.state.namespace],
                        job: untouched(Seq::empty()),
                        ..next
                    },
                    f.effects + seq![Effect::Keep],
                    i as nat,
                    r.state,
                    r.effects,
                ),
                FileWait::Ended(Verdict::Rejected) => follows_input(
                    CompilationState { errors: true, ..next },
                    f.effects,
                    i as nat,
                    r.state,
                    r.effects,
                ),
                FileWait::Ended(Verdict::Exit(code)) => ends_run(
                    next,
                    f.effects,
                    Seq::empty(),
                    code,
                    r.state,
                    r.effects,
                ),
                _ => r.state == next && r.effects == f.effects,
            }
        }),
{
    let f = file_step(state.settings, state.job, state.report, event);
    let r = compilation_step(state, event);
    let none = Seq::<EffectView>::empty();
    let json = seq![Effect::<Seq<char>, Seq<u8>>::PrintJson];
    let line = Effect::Error("error: not all contracts are valid"@);
    let kept = f.effects + seq![Effect::Keep];
    assert(kept =~= f.effects.push(Effect::Keep));
    assert(kept + none =~= kept);
    assert(f.effects + none =~= f.effects);
    assert(kept + json =~= kept.push(Effect::PrintJson));
    assert(f.effects + json =~= f.effects.push(Effect::PrintJson));
    assert(kept + seq![line] =~= kept.push(line));
    assert(f.effects + seq![line] =~= f.effects.push(line));
    assert(state.namespaces + seq![f.state.namespace] =~= state.namespaces.push(
        f.state.namespace,
    ));
}

/// What an answer on the linking leads to: its step, and, where that ends, the end of the run, with
/// the JSON result where that is asked for.
pub proof fn answer_on_linking_is_handed_to_it<E, A>(
    state: CompilationState<E, A>,
    event: Event<E, A>,
)
    requires
        state.stage == Stage::Bundle,
    ensures
        ({
            let b = bundle_step(
                state.settings,
                state.namespaces,
                state.bundle,
                state.report,
                event,
            );
            let next = CompilationState { bundle: b.state, report: b.report, ..state };
            let r = compilation_step(state, event);
            match b.state.wait {
                BundleWait::Ended(Verdict::Exit(code)) => ends_run(
                    next,
                    b.effects,
                    Seq::empty(),
                    code,
                    r.state,
                    r.effects,
                ),
                BundleWait::Ended(_) => ends_run(
                    next,
                    b.effects,
                    if state.settings.std_json {
                        seq![Effect::PrintJson]
                    } else {
                        Seq::empty()
                    },
                    0,
                    r.state,
                    r.effects,
                ),
                _ => r.state == next && r.effects == b.effects,
            }
        }),
{
    let b = bundle_step(state.settings, state.namespaces, state.bundle, state.report, event);
    let none = Seq::<EffectView>::empty();
    let json = seq![Effect::<Seq<char>, Seq<u8>>::PrintJson];
    assert(b.effects + none =~= b.effects);
    assert(b.effects + json =~= b.effects.push(Effect::PrintJson));
}

/// A compilation begins with its first input, an empty JSON result for its target, and nothing kept
/// or rejected; it waits for what the work in hand waits for and takes the answers that this takes.
pub proof fn compilation_begins_with_the_first_input<E, A>(
    s: Settings,
    inputs: Seq<Seq<char>>,
    target: Seq<char>,
    state: CompilationState<E, A>,
    event: Event<E, A>,
)
    ensures
        ({
            let start = initial::<E, A>(s, inputs, target);
            &&& start.settings == s
            &&& start.inputs == inputs
            &&& start.report.errors == Seq::<E>::empty()
            &&& start.report.target == target
            &&& start.report.program == Seq::<char>::empty()
            &&& start.report.contracts == Map::<
                Seq<char>,
                Map<Seq<char>, ContractReport<A>>,
            >::empty()
            &&& start.namespaces == Seq::<NamespaceView>::empty()
            &&& !start.errors
            &&& start.stage == Stage::File(0)
            &&& start.job.filename == inputs[0]
            &&& start.job.wait == FileWait::Resolve
            &&& start.job.found == Map::<Seq<char>, ContractReport<A>>::empty()
        }),
        match state.stage {
            Stage::File(i) => {
                &&& state.wait() == Wait::File(i, state.job.wait)
                &&& state.answered_by(event) == answers(
                    state.job.wait,
                    state.job.namespace,
                    event,
                )
            },
            Stage::Bundle => {
                &&& state.wait() == Wait::Bundle(state.bundle.wait)
                &&& state.answered_by(event) == bundle_answers(state.bundle.wait, event)
            },
            Stage::Over(code) => {
                &&& state.wait() == Wait::Over(code)
                &&& !state.answered_by(event)
            },
        },
        state.valid() <==> {
            &&& state.inputs.len() <= usize::MAX
            &&& state.namespaces.len() <= usize::MAX
            &&& forall|n: int|
                0 <= n < state.namespaces.len() ==> (
                #[trigger] state.namespaces[n]).contracts.len() <= usize::MAX
            &&& match state.stage {
                Stage::File(i) => i < state.inputs.len() && state.job.valid(),
                Stage::Bundle => state.bundle.valid(state.namespaces),
                Stage::Over(_) => true,
            }
        },
{
}

proof fn visit_announces(s: Settings, namespace: NamespaceView, i: nat)
    requires
        namespace.contracts.len() <= usize::MAX,
    ensures
        ({
            let r = visit(s, namespace, i);
            r.wait matches FileWait::Binary(k) ==> k < namespace.contracts.len()
                && namespace.contracts[k as int].is_concrete && (s.verbose ==> r.effects.len() > 0
                && r.effects.last() == Effect::<Seq<char>, Seq<u8>>::Info(
                "info: Generating LLVM IR for contract "@ + namespace.contracts[k as int].name@
                    + " with target "@ + namespace.target,
            ))
        }),
    decreases namespace.contracts.len() - i,
{
    if i < namespace.contracts.len() {
        visit_announces(s, namespace, i + 1);
    }
}

/// Before a contract is emitted a verbose run tells of it and of its target, last of all.
pub proof fn emission_is_announced<E, A>(
    s: Settings,
    state: FileState<A>,
    report: Report<E, A>,
    event: Event<E, A>,
)
    requires
        state.valid(),
        answers(state.wait, state.namespace, event),
    ensures
        ({
            let r = file_step(s, state, report, event);
            r.state.wait matches FileWait::Binary(k) ==> {
                let contracts = r.state.namespace.contracts;
                &&& k < contracts.len()
                &&& contracts[k as int].is_concrete
                &&& s.verbose ==> r.effects.len() > 0 && r.effects.last() == Effect::<
                    Seq<char>,
                    Seq<u8>,
                >::Info(
                    "info: Generating LLVM IR for contract "@ + contracts[k as int].name@
                        + " with target "@ + r.state.namespace.target,
                )
            }
        }),
{
    if let Event::Resolved(namespace) = event {
        assert(namespace.contracts.len() <= usize::MAX);
        visit_announces(s, namespace@, 0);
    }
    visit_announces(s, state.namespace, 0);
    match state.wait {
        FileWait::SolanaAbi(i) => visit_announces(s, state.namespace, (i + 1) as nat),
        FileWait::Binary(i) => visit_announces(s, state.namespace, (i + 1) as nat),
        FileWait::Generated(i, _) => visit_announces(s, state.namespace, (i + 1) as nat),
        FileWait::JsonCode(i) => visit_announces(s, state.namespace, (i + 1) as nat),
        FileWait::AbiFile(i) => visit_announces(s, state.namespace, (i + 1) as nat),
        _ => {},
    }
}

} // verus!
