//! What can be found again of each contract in what was done with its file, and that nothing else
//! can.
use vstd::prelude::*;

use crate::compilation::{initial, Stage};
use crate::complete_laws::{complete, BundleAnswers};
use crate::file_laws::{
    code_reports, compilable, contract_files, diagnostics_printed, good_file_is_reported,
    good_file_is_written, reportable, solana_reports, with_diagnostics, work,
    work_reaches_judgement, work_unfolds, writes, written, Answers,
};
use crate::input_laws::{file_found, file_recorded, inputs_recorded, namespaces_from};
use crate::json::{minimum_space, ContractReport, Report};
use crate::outcome_laws::{
    compilation_links_at_early_stage, compilation_links_every_contract,
    compilation_reports_every_contract, compilation_with_rejected_input,
    compilation_writes_every_contract, compilation_writes_syntax_trees, over_inputs,
};
use crate::output::{Content, Effect, EffectView, OutputFile, Part};
use crate::outside::hex_upper;
use crate::process_file::{go_on, untouched, visit, FileWait};
use crate::protocol::{ContractInfo, Generate, NamespaceView, Verdict};
use crate::run_laws::abi_files;
use crate::settings::{Emit, Settings, Target};
use crate::stage_laws::{
    file_is_dumped, file_is_generated, generated_files, generation_failure, graphs,
    graphs_of_file_are_printed, llvm_files,
};
use crate::step_laws::{passed_over, placed, visit_passes_over};
use crate::text::decimal_value;

verus! {

/// A file is written exactly where an effect that writes it is among what is done.
proof fn written_are_those_that_write(effects: Seq<EffectView>, effect: EffectView)
    ensures
        written(effects).contains(effect) <==> effects.contains(effect) && writes(effect),
{
    reveal(written);
    let p = |e: EffectView| writes(e);
    let kept = effects.filter(p);
    if kept.contains(effect) {
        let i = kept.index_of(effect);
        assert(p(kept[i]));
        effects.lemma_filter_contains_rev(p, effect);
    }
    if effects.contains(effect) && writes(effect) {
        let i = effects.index_of(effect);
        assert(p(effects[i]));
        effects.lemma_filter_contains(p, i);
    }
}

/// Whether an effect writes the binary or the ABI of contract `k`.
pub open spec fn saves_contract<E, A>(
    s: Settings,
    given: Answers<E, A>,
    k: int,
    effect: EffectView,
) -> bool {
    let dir = match s.output {
        Some(dir) => dir@,
        None => "."@,
    };
    let name = (given.binary)(k as usize).name@;
    ||| effect == Effect::<Seq<char>, Seq<u8>>::Save(
        OutputFile { dir, name: name + "."@ + s.binary_extension@ },
        Content::Bytes((given.code)(k as usize)@),
    )
    ||| effect == Effect::<Seq<char>, Seq<u8>>::Save(
        OutputFile { dir, name: name + "."@ + (given.abi_extension)(k as usize)@ },
        Content::Text((given.abi_content)(k as usize)@),
    )
}

proof fn contract_files_hold<E, A>(
    s: Settings,
    given: Answers<E, A>,
    i: nat,
    effect: EffectView,
)
    requires
        given.namespace@.contracts.len() <= usize::MAX,
    ensures
        contract_files(s, given, i).contains(effect) <==> exists|k: int|
            i <= k < given.namespace@.contracts.len() && (
            #[trigger] given.namespace@.contracts[k]).is_concrete && saves_contract(
                s,
                given,
                k,
                effect,
            ),
    decreases given.namespace@.contracts.len() - i,
{
    let contracts = given.namespace@.contracts;
    if i < contracts.len() {
        contract_files_hold(s, given, i + 1, effect);
        let whole = contract_files(s, given, i);
        let rest = contract_files(s, given, i + 1);
        let two: int = if contracts[i as int].is_concrete {
            2
        } else {
            0
        };
        assert(whole.len() == two + rest.len());
        assert forall|j: int| 0 <= j < rest.len() implies #[trigger] rest[j] == whole[two + j] by {}
        if rest.contains(effect) {
            let j = rest.index_of(effect);
            assert(whole[two + j] == effect);
            let k = choose|k: int|
                i + 1 <= k < contracts.len() && (#[trigger] contracts[k]).is_concrete
                    && saves_contract(s, given, k, effect);
            assert(contracts[k].is_concrete);
        }
        if contracts[i as int].is_concrete && saves_contract(s, given, i as int, effect) {
            assert(whole[0] == effect || whole[1] == effect);
        }
        if whole.contains(effect) {
            let j = whole.index_of(effect);
            if j < two {
                assert(contracts[i as int].is_concrete);
                assert(saves_contract(s, given, i as int, effect));
            } else {
                assert(rest[j - two] == effect);
            }
        }
    }
}

/// A file in order, compiled for a target other than Solana with no early stage and no JSON asked
/// for: the code of each concrete contract is written, whole, under the name of its binary with the
/// extension of the target, and its ABI, whole, under that name with the extension it comes with, in
/// the output directory; and whatever is written is one of these.
pub proof fn every_concrete_contract_has_its_binary_and_abi<E, A>(
    s: Settings,
    filename: Seq<char>,
    report: Report<E, A>,
    given: Answers<E, A>,
)
    requires
        s.emit is None,
        !s.std_json,
        s.target != Target::Solana,
        given.namespace@.contracts.len() > 0,
        !given.namespace@.any_errors,
    ensures
        ({
            let effects = work(s, untouched::<A>(filename), report, given).effects;
            let contracts = given.namespace@.contracts;
            let dir = match s.output {
                Some(dir) => dir@,
                None => "."@,
            };
            &&& forall|k: int|
                0 <= k < contracts.len() && (#[trigger] contracts[k]).is_concrete ==> {
                    let name = (given.binary)(k as usize).name@;
                    &&& effects.contains(
                        Effect::Save(
                            OutputFile { dir, name: name + "."@ + s.binary_extension@ },
                            Content::Bytes((given.code)(k as usize)@),
                        ),
                    )
                    &&& effects.contains(
                        Effect::Save(
                            OutputFile {
                                dir,
                                name: name + "."@ + (given.abi_extension)(k as usize)@,
                            },
                            Content::Text((given.abi_content)(k as usize)@),
                        ),
                    )
                }
            &&& forall|p: int|
                0 <= p < effects.len() && (#[trigger] effects[p] is Save || effects[p] is DumpLlvm
                    || effects[p] is SaveBitcode || effects[p] is SaveDot) ==> exists|k: int|
                    0 <= k < contracts.len() && (#[trigger] contracts[k]).is_concrete
                        && saves_contract(s, given, k, effects[p])
        }),
{
    assert(given.namespace.contracts.len() <= usize::MAX);
    good_file_is_written(s, filename, report, given);
    let effects = work(s, untouched::<A>(filename), report, given).effects;
    let contracts = given.namespace@.contracts;
    let dir = match s.output {
        Some(dir) => dir@,
        None => "."@,
    };
    assert forall|k: int| 0 <= k < contracts.len() && (#[trigger] contracts[k]).is_concrete implies {
        let name = (given.binary)(k as usize).name@;
        &&& effects.contains(
            Effect::Save(
                OutputFile { dir, name: name + "."@ + s.binary_extension@ },
                Content::Bytes((given.code)(k as usize)@),
            ),
        )
        &&& effects.contains(
            Effect::Save(
                OutputFile { dir, name: name + "."@ + (given.abi_extension)(k as usize)@ },
                Content::Text((given.abi_content)(k as usize)@),
            ),
        )
    } by {
        let name = (given.binary)(k as usize).name@;
        let binary = Effect::Save(
            OutputFile { dir, name: name + "."@ + s.binary_extension@ },
            Content::Bytes((given.code)(k as usize)@),
        );
        let abi = Effect::Save(
            OutputFile { dir, name: name + "."@ + (given.abi_extension)(k as usize)@ },
            Content::Text((given.abi_content)(k as usize)@),
        );
        assert(saves_contract(s, given, k, binary) && saves_contract(s, given, k, abi));
        contract_files_hold(s, given, 0, binary);
        contract_files_hold(s, given, 0, abi);
        written_are_those_that_write(effects, binary);
        written_are_those_that_write(effects, abi);
    }
    assert forall|p: int|
        0 <= p < effects.len() && (#[trigger] effects[p] is Save || effects[p] is DumpLlvm
            || effects[p] is SaveBitcode || effects[p] is SaveDot) implies exists|k: int|
        0 <= k < contracts.len() && (#[trigger] contracts[k]).is_concrete && saves_contract(
            s,
            given,
            k,
            effects[p],
        ) by {
        written_are_those_that_write(effects, effects[p]);
        contract_files_hold(s, given, 0, effects[p]);
    }
}

proof fn code_reports_hold<E, A>(
    given: Answers<E, A>,
    found: Map<Seq<char>, ContractReport<A>>,
    i: nat,
    k: int,
)
    requires
        i <= k < given.namespace@.contracts.len() <= usize::MAX,
        given.namespace@.contracts[k].is_concrete,
        forall|j: int|
            k < j < given.namespace@.contracts.len() && (
            #[trigger] given.namespace@.contracts[j]).is_concrete ==> (given.binary)(
                j as usize,
            ).name@ != (given.binary)(k as usize).name@,
    ensures
        ({
            let name = (given.binary)(k as usize).name@;
            let reports = code_reports(given, found, i);
            &&& reports.contains_key(name)
            &&& reports[name].abi == (given.abi)(k as usize)@
            &&& reports[name].ewasm == Some(hex_upper((given.code)(k as usize)@))
            &&& reports[name].minimum_space is None
        }),
    decreases given.namespace@.contracts.len() - i,
{
    let contracts = given.namespace@.contracts;
    let n = (given.binary)(i as usize).name@;
    let report = ContractReport {
        abi: (given.abi)(i as usize)@,
        ewasm: Some(hex_upper((given.code)(i as usize)@)),
        minimum_space: None,
    };
    let next = if contracts[i as int].is_concrete {
        found.insert(n, report)
    } else {
        found
    };
    if i < k {
        code_reports_hold(given, next, i + 1, k);
    } else {
        later_code_reports_leave(given, next, i + 1, n);
    }
}

proof fn later_code_reports_leave<E, A>(
    given: Answers<E, A>,
    found: Map<Seq<char>, ContractReport<A>>,
    i: nat,
    name: Seq<char>,
)
    requires
        given.namespace@.contracts.len() <= usize::MAX,
        found.contains_key(name),
        forall|j: int|
            i <= j < given.namespace@.contracts.len() && (
            #[trigger] given.namespace@.contracts[j]).is_concrete ==> (given.binary)(
                j as usize,
            ).name@ != name,
    ensures
        code_reports(given, found, i).contains_key(name),
        code_reports(given, found, i)[name] == found[name],
    decreases given.namespace@.contracts.len() - i,
{
    let contracts = given.namespace@.contracts;
    if i < contracts.len() {
        let k = i as usize;
        let next = if contracts[i as int].is_concrete {
            found.insert(
                (given.binary)(k).name@,
                ContractReport {
                    abi: (given.abi)(k)@,
                    ewasm: Some(hex_upper((given.code)(k)@)),
                    minimum_space: None,
                },
            )
        } else {
            found
        };
        later_code_reports_leave(given, next, i + 1, name);
    }
}

/// A file in order, compiled for a target other than Solana with JSON and no early stage asked for:
/// under the name of the file stands, under the name of the binary of each concrete contract that no
/// later one shares, its whole ABI, its whole code in hexadecimal, and no account data. The
/// diagnostics stand behind those already there.
pub proof fn every_concrete_contract_is_reported_with_its_code<E, A>(
    s: Settings,
    filename: Seq<char>,
    report: Report<E, A>,
    given: Answers<E, A>,
    k: int,
)
    requires
        s.emit is None,
        s.std_json,
        s.target != Target::Solana,
        !given.namespace@.any_errors,
        0 <= k < given.namespace@.contracts.len(),
        given.namespace@.contracts[k].is_concrete,
        forall|j: int|
            k < j < given.namespace@.contracts.len() && (
            #[trigger] given.namespace@.contracts[j]).is_concrete ==> (given.binary)(
                j as usize,
            ).name@ != (given.binary)(k as usize).name@,
    ensures
        ({
            let whole = work(s, untouched::<A>(filename), report, given);
            let name = (given.binary)(k as usize).name@;
            &&& whole.report.errors == report.errors + given.diagnostics@
            &&& whole.report.contracts.contains_key(filename)
            &&& whole.report.contracts[filename].contains_key(name)
            &&& whole.report.contracts[filename][name].abi == (given.abi)(k as usize)@
            &&& whole.report.contracts[filename][name].ewasm == Some(
                hex_upper((given.code)(k as usize)@),
            )
            &&& whole.report.contracts[filename][name].minimum_space is None
        }),
{
    assert(given.namespace.contracts.len() <= usize::MAX);
    good_file_is_reported(s, filename, report, given);
    code_reports_hold(given, Map::empty(), 0, k);
}

proof fn solana_reports_hold<E, A>(
    given: Answers<E, A>,
    found: Map<Seq<char>, ContractReport<A>>,
    i: nat,
    k: int,
)
    requires
        i <= k < given.namespace@.contracts.len() <= usize::MAX,
        given.namespace@.contracts[k].is_concrete,
        forall|j: int|
            k < j < given.namespace@.contracts.len() && (
            #[trigger] given.namespace@.contracts[j]).is_concrete
                ==> given.namespace@.contracts[j].name@ != given.namespace@.contracts[k].name@,
    ensures
        ({
            let contract = given.namespace@.contracts[k];
            let reports = solana_reports(given, found, i);
            &&& reports.contains_key(contract.name@)
            &&& reports[contract.name@].abi == (given.abi)(k as usize)@
            &&& reports[contract.name@].ewasm is None
            &&& reports[contract.name@].minimum_space == Some(
                decimal_value(contract.fixed_layout_size@) as u32,
            )
        }),
    decreases given.namespace@.contracts.len() - i,
{
    let contracts = given.namespace@.contracts;
    let contract = contracts[i as int];
    let report = ContractReport {
        abi: (given.abi)(i as usize)@,
        ewasm: None,
        minimum_space: Some(decimal_value(contract.fixed_layout_size@) as u32),
    };
    let next = if contract.is_concrete {
        found.insert(contract.name@, report)
    } else {
        found
    };
    if i < k {
        solana_reports_hold(given, next, i + 1, k);
    } else {
        later_solana_reports_leave(given, next, i + 1, contract.name@);
    }
}

proof fn later_solana_reports_leave<E, A>(
    given: Answers<E, A>,
    found: Map<Seq<char>, ContractReport<A>>,
    i: nat,
    name: Seq<char>,
)
    requires
        found.contains_key(name),
        forall|j: int|
            i <= j < given.namespace@.contracts.len() && (
            #[trigger] given.namespace@.contracts[j]).is_concrete
                ==> given.namespace@.contracts[j].name@ != name,
    ensures
        solana_reports(given, found, i).contains_key(name),
        solana_reports(given, found, i)[name] == found[name],
    decreases given.namespace@.contracts.len() - i,
{
    let contracts = given.namespace@.contracts;
    if i < contracts.len() {
        let contract = contracts[i as int];
        let next = if contract.is_concrete {
            found.insert(
                contract.name@,
                ContractReport {
                    abi: (given.abi)(i as usize)@,
                    ewasm: None,
                    minimum_space: Some(decimal_value(contract.fixed_layout_size@) as u32),
                },
            )
        } else {
            found
        };
        later_solana_reports_leave(given, next, i + 1, name);
    }
}

/// A file in order, compiled for Solana with JSON and no early stage asked for, with account data
/// that fits in 32 bits: under the name of the file stands, under the name of each concrete contract
/// that no later one shares, its whole ABI, no code, and the account data that its layout takes.
pub proof fn every_concrete_contract_is_reported_with_its_account_data<E, A>(
    s: Settings,
    filename: Seq<char>,
    report: Report<E, A>,
    given: Answers<E, A>,
    k: int,
)
    requires
        s.emit is None,
        s.std_json,
        s.target == Target::Solana,
        !given.namespace@.any_errors,
        reportable(given.namespace@),
        0 <= k < given.namespace@.contracts.len(),
        given.namespace@.contracts[k].is_concrete,
        forall|j: int|
            k < j < given.namespace@.contracts.len() && (
            #[trigger] given.namespace@.contracts[j]).is_concrete
                ==> given.namespace@.contracts[j].name@ != given.namespace@.contracts[k].name@,
    ensures
        ({
            let whole = work(s, untouched::<A>(filename), report, given);
            let contract = given.namespace@.contracts[k];
            let name = contract.name@;
            &&& whole.report.errors == report.errors + given.diagnostics@
            &&& whole.report.contracts.contains_key(filename)
            &&& whole.report.contracts[filename].contains_key(name)
            &&& whole.report.contracts[filename][name].abi == (given.abi)(k as usize)@
            &&& whole.report.contracts[filename][name].ewasm is None
            &&& whole.report.contracts[filename][name].minimum_space is Some
            &&& whole.report.contracts[filename][name].minimum_space->0 == decimal_value(
                contract.fixed_layout_size@,
            )
        }),
{
    assert(given.namespace.contracts.len() <= usize::MAX);
    good_file_is_reported(s, filename, report, given);
    solana_reports_hold(given, Map::empty(), 0, k);
    assert(minimum_space(given.namespace@.contracts[k].fixed_layout_size@) is Some);
}

proof fn graphs_hold(namespace: NamespaceView, i: nat, effect: EffectView)
    requires
        namespace.contracts.len() <= usize::MAX,
    ensures
        graphs(namespace.contracts, i).contains(effect) <==> exists|k: int|
            i <= k < namespace.contracts.len() && (#[trigger] namespace.contracts[k]).is_concrete
                && effect == Effect::<Seq<char>, Seq<u8>>::PrintCfg(k as usize),
    decreases namespace.contracts.len() - i,
{
    let contracts = namespace.contracts;
    if i < contracts.len() {
        graphs_hold(namespace, i + 1, effect);
        let whole = graphs(contracts, i);
        let rest = graphs(contracts, i + 1);
        let one: int = if contracts[i as int].is_concrete {
            1
        } else {
            0
        };
        assert(whole.len() == one + rest.len());
        assert forall|j: int| 0 <= j < rest.len() implies #[trigger] rest[j] == whole[one + j] by {}
        if rest.contains(effect) {
            let j = rest.index_of(effect);
            assert(whole[one + j] == effect);
        }
        if contracts[i as int].is_concrete && effect == Effect::<Seq<char>, Seq<u8>>::PrintCfg(
            i as usize,
        ) {
            assert(whole[0] == effect);
        }
        if whole.contains(effect) {
            let j = whole.index_of(effect);
            if j < one {
                assert(contracts[i as int].is_concrete);
            } else {
                assert(rest[j - one] == effect);
            }
        }
    }
}

proof fn graphs_ascend(namespace: NamespaceView, i: nat)
    requires
        namespace.contracts.len() <= usize::MAX,
    ensures
        forall|p: int, q: int|
            #![trigger graphs(namespace.contracts, i)[p], graphs(namespace.contracts, i)[q]]
            0 <= p < q < graphs(namespace.contracts, i).len() ==> {
                let a = graphs(namespace.contracts, i)[p];
                let b = graphs(namespace.contracts, i)[q];
                a is PrintCfg && b is PrintCfg && i <= a->PrintCfg_0 < b->PrintCfg_0
            },
    decreases namespace.contracts.len() - i,
{
    let contracts = namespace.contracts;
    if i < contracts.len() {
        graphs_ascend(namespace, i + 1);
        let whole = graphs(contracts, i);
        let rest = graphs(contracts, i + 1);
        let one: int = if contracts[i as int].is_concrete {
            1
        } else {
            0
        };
        assert forall|j: int| one <= j < whole.len() implies #[trigger] whole[j] == rest[j
            - one] by {}
        assert forall|p: int, q: int|
            #![trigger whole[p], whole[q]]
            0 <= p < q < whole.len() implies whole[p] is PrintCfg && whole[q] is PrintCfg && i
            <= whole[p]->PrintCfg_0 < whole[q]->PrintCfg_0 by {
            if p >= one {
                assert(whole[p] == rest[p - one] && whole[q] == rest[q - one]);
            } else {
                assert(whole[q] == rest[q - one]);
                graphs_hold(namespace, i + 1, whole[q]);
                assert(rest.contains(whole[q]));
            }
        }
    }
}

/// Of a file in order, with the control flow graphs asked for, the graph of a contract is printed
/// exactly where it is concrete, each once and in order; nothing is written.
pub proof fn graphs_are_of_the_concrete_contracts<E, A>(
    s: Settings,
    filename: Seq<char>,
    report: Report<E, A>,
    given: Answers<E, A>,
)
    requires
        s.emit == Some(Emit::Cfg),
        given.namespace@.contracts.len() > 0,
        !given.namespace@.any_errors,
    ensures
        ({
            let effects = work(s, untouched::<A>(filename), report, given).effects;
            let contracts = given.namespace@.contracts;
            let lead: int = if s.std_json {
                0
            } else {
                1
            };
            &&& effects.len() >= lead
            &&& !s.std_json ==> effects[0] is PrintDiagnostics
            &&& forall|p: int|
                lead <= p < effects.len() ==> (#[trigger] effects[p]) is PrintCfg && (
                effects[p]->PrintCfg_0 as int) < contracts.len()
                    && contracts[effects[p]->PrintCfg_0 as int].is_concrete
            &&& forall|p: int, q: int|
                #![trigger effects[p], effects[q]]
                lead <= p < q < effects.len() ==> effects[p]->PrintCfg_0 < effects[q]->PrintCfg_0
            &&& forall|k: int|
                0 <= k < contracts.len() && (#[trigger] contracts[k]).is_concrete
                    ==> effects.contains(Effect::PrintCfg(k as usize))
        }),
{
    assert(given.namespace.contracts.len() <= usize::MAX);
    graphs_of_file_are_printed(s, filename, report, given);
    let effects = work(s, untouched::<A>(filename), report, given).effects;
    let contracts = given.namespace@.contracts;
    let printed = graphs(contracts, 0);
    let lead: int = if s.std_json {
        0
    } else {
        1
    };
    graphs_ascend(given.namespace@, 0);
    assert forall|p: int| lead <= p < effects.len() implies (#[trigger] effects[p]) is PrintCfg && (
    effects[p]->PrintCfg_0 as int) < contracts.len()
        && contracts[effects[p]->PrintCfg_0 as int].is_concrete by {
        assert(effects[p] == printed[p - lead]);
        assert(printed.contains(effects[p]));
        graphs_hold(given.namespace@, 0, effects[p]);
    }
    assert forall|p: int, q: int|
        #![trigger effects[p], effects[q]]
        lead <= p < q < effects.len() implies effects[p]->PrintCfg_0 < effects[q]->PrintCfg_0 by {
        assert(effects[p] == printed[p - lead] && effects[q] == printed[q - lead]);
    }
    assert forall|k: int|
        0 <= k < contracts.len() && (#[trigger] contracts[k]).is_concrete implies effects.contains(
        Effect::PrintCfg(k as usize),
    ) by {
        let e = Effect::<Seq<char>, Seq<u8>>::PrintCfg(k as usize);
        graphs_hold(given.namespace@, 0, e);
        let j = printed.index_of(e);
        assert(effects[lead + j] == e);
    }
}

/// Whether an effect writes a module of contract `k`: as LLVM IR or bitcode, whichever is asked for,
/// the main module under the name of the binary, or, where it has a runtime, the deployer and the
/// runtime.
pub open spec fn saves_module<E, A>(
    s: Settings,
    given: Answers<E, A>,
    k: int,
    effect: EffectView,
) -> bool {
    let dir = match s.output {
        Some(dir) => dir@,
        None => "."@,
    };
    let binary = (given.binary)(k as usize);
    let name = binary.name@;
    let extension = if s.emit == Some(Emit::LlvmIr) {
        "ll"@
    } else {
        "bc"@
    };
    let file = |stem: Seq<char>| OutputFile { dir, name: stem + "."@ + extension };
    let saved = |part: Part, stem: Seq<char>|
        if s.emit == Some(Emit::LlvmIr) {
            Effect::<Seq<char>, Seq<u8>>::DumpLlvm(part, file(stem))
        } else {
            Effect::SaveBitcode(part, file(stem))
        };
    if binary.has_runtime {
        effect == saved(Part::Main, name + "_deploy"@) || effect == saved(
            Part::Runtime,
            name + "_runtime"@,
        )
    } else {
        effect == saved(Part::Main, name)
    }
}

proof fn llvm_files_hold<E, A>(s: Settings, given: Answers<E, A>, i: nat, effect: EffectView)
    requires
        given.namespace@.contracts.len() <= usize::MAX,
    ensures
        llvm_files(s, given, i).contains(effect) <==> exists|k: int|
            i <= k < given.namespace@.contracts.len() && (
            #[trigger] given.namespace@.contracts[k]).is_concrete && saves_module(
                s,
                given,
                k,
                effect,
            ),
    decreases given.namespace@.contracts.len() - i,
{
    let contracts = given.namespace@.contracts;
    if i < contracts.len() {
        llvm_files_hold(s, given, i + 1, effect);
        let whole = llvm_files(s, given, i);
        let rest = llvm_files(s, given, i + 1);
        let lead: int = whole.len() - rest.len();
        assert forall|j: int| 0 <= j < rest.len() implies #[trigger] rest[j] == whole[lead + j] by {}
        if rest.contains(effect) {
            let j = rest.index_of(effect);
            assert(whole[lead + j] == effect);
        }
        if contracts[i as int].is_concrete && saves_module(s, given, i as int, effect) {
            assert(whole[0] == effect || (lead == 2 && whole[1] == effect));
        }
        if whole.contains(effect) {
            let j = whole.index_of(effect);
            if j < lead {
                assert(contracts[i as int].is_concrete);
                assert(saves_module(s, given, i as int, effect));
            } else {
                assert(rest[j - lead] == effect);
            }
        }
    }
}

/// Of a file in order, compiled for a target other than Solana with LLVM IR or bitcode asked for, a
/// module is written exactly where it is one of a concrete contract.
pub proof fn every_concrete_contract_has_its_modules<E, A>(
    s: Settings,
    filename: Seq<char>,
    report: Report<E, A>,
    given: Answers<E, A>,
    effect: EffectView,
)
    requires
        s.emit == Some(Emit::LlvmIr) || s.emit == Some(Emit::LlvmBc),
        s.target != Target::Solana,
        given.namespace@.contracts.len() > 0,
        !given.namespace@.any_errors,
        effect is Save || effect is DumpLlvm || effect is SaveBitcode || effect is SaveDot,
    ensures
        work(s, untouched::<A>(filename), report, given).effects.contains(effect) <==> exists|
            k: int,
        |
            0 <= k < given.namespace@.contracts.len() && (
            #[trigger] given.namespace@.contracts[k]).is_concrete && saves_module(
                s,
                given,
                k,
                effect,
            ),
{
    assert(given.namespace.contracts.len() <= usize::MAX);
    file_is_dumped(s, filename, report, given);
    llvm_files_hold(s, given, 0, effect);
    written_are_those_that_write(
        work(s, untouched::<A>(filename), report, given).effects,
        effect,
    );
}

proof fn generated_files_hold<E, A>(
    s: Settings,
    generate: Generate,
    given: Answers<E, A>,
    i: nat,
    effect: EffectView,
)
    requires
        given.namespace@.contracts.len() <= usize::MAX,
        forall|k: int|
            i <= k < given.namespace@.contracts.len() && (
            #[trigger] given.namespace@.contracts[k]).is_concrete ==> (given.generated)(
                k as usize,
            ) is Ok,
    ensures
        generation_failure(given, i) is None,
        generated_files(s, generate, given, i).contains(effect) <==> exists|k: int|
            i <= k < given.namespace@.contracts.len() && (
            #[trigger] given.namespace@.contracts[k]).is_concrete && saves_code(
                s,
                generate,
                given,
                k,
                effect,
            ),
    decreases given.namespace@.contracts.len() - i,
{
    let contracts = given.namespace@.contracts;
    if i < contracts.len() {
        generated_files_hold(s, generate, given, i + 1, effect);
        let whole = generated_files(s, generate, given, i);
        let rest = generated_files(s, generate, given, i + 1);
        let one: int = if contracts[i as int].is_concrete {
            1
        } else {
            0
        };
        if contracts[i as int].is_concrete {
            assert((given.generated)(i as usize) is Ok);
        }
        assert(whole.len() == one + rest.len());
        assert forall|j: int| 0 <= j < rest.len() implies #[trigger] rest[j] == whole[one + j] by {}
        if rest.contains(effect) {
            let j = rest.index_of(effect);
            assert(whole[one + j] == effect);
        }
        if contracts[i as int].is_concrete && saves_code(s, generate, given, i as int, effect) {
            assert(whole[0] == effect);
        }
        if whole.contains(effect) {
            let j = whole.index_of(effect);
            if j < one {
                assert(contracts[i as int].is_concrete);
                assert(saves_code(s, generate, given, i as int, effect));
            } else {
                assert(rest[j - one] == effect);
            }
        }
    }
}

/// Whether an effect writes the object or assembly code of contract `k`.
pub open spec fn saves_code<E, A>(
    s: Settings,
    generate: Generate,
    given: Answers<E, A>,
    k: int,
    effect: EffectView,
) -> bool {
    let dir = match s.output {
        Some(dir) => dir@,
        None => "."@,
    };
    let name = (given.binary)(k as usize).name@ + "."@ + match generate {
        Generate::Object => "o"@,
        Generate::Assembly => "asm"@,
    };
    (given.generated)(k as usize) matches Ok(code) && effect == Effect::Save(
        OutputFile { dir, name },
        Content::Bytes(code@),
    )
}

/// Of a file in order, compiled for a target other than Solana with object or assembly code asked for
/// and made of every concrete contract, a file is written exactly where it is the code of one.
pub proof fn every_concrete_contract_has_its_code<E, A>(
    s: Settings,
    filename: Seq<char>,
    report: Report<E, A>,
    given: Answers<E, A>,
    generate: Generate,
    effect: EffectView,
)
    requires
        s.emit == Some(
            match generate {
                Generate::Object => Emit::Object,
                Generate::Assembly => Emit::Asm,
            },
        ),
        s.target != Target::Solana,
        given.namespace@.contracts.len() > 0,
        !given.namespace@.any_errors,
        forall|k: int|
            0 <= k < given.namespace@.contracts.len() && (
            #[trigger] given.namespace@.contracts[k]).is_concrete ==> (given.generated)(
                k as usize,
            ) is Ok,
        effect is Save || effect is DumpLlvm || effect is SaveBitcode || effect is SaveDot,
    ensures
        work(s, untouched::<A>(filename), report, given).state.wait == FileWait::Ended(
            Verdict::Accepted,
        ),
        work(s, untouched::<A>(filename), report, given).effects.contains(effect) <==> exists|
            k: int,
        |
            0 <= k < given.namespace@.contracts.len() && (
            #[trigger] given.namespace@.contracts[k]).is_concrete && saves_code(
                s,
                generate,
                given,
                k,
                effect,
            ),
{
    assert(given.namespace.contracts.len() <= usize::MAX);
    file_is_generated(s, filename, report, given, generate);
    generated_files_hold(s, generate, given, 0, effect);
    written_are_those_that_write(
        work(s, untouched::<A>(filename), report, given).effects,
        effect,
    );
}

proof fn over_inputs_holds(
    each: spec_fn(nat) -> Seq<EffectView>,
    inputs: nat,
    i: nat,
    effect: EffectView,
)
    ensures
        over_inputs(each, inputs, i).contains(effect) <==> exists|m: nat|
            i <= m < inputs && (#[trigger] each(m)).contains(effect),
    decreases inputs - i,
{
    if i < inputs {
        over_inputs_holds(each, inputs, i + 1, effect);
        let whole = over_inputs(each, inputs, i);
        let rest = over_inputs(each, inputs, i + 1);
        let lead = each(i).len() as int;
        if each(i).contains(effect) {
            let j = each(i).index_of(effect);
            assert(whole[j] == effect);
        }
        if rest.contains(effect) {
            let j = rest.index_of(effect);
            assert(whole[lead + j] == effect);
            let m = choose|m: nat| i + 1 <= m < inputs && (#[trigger] each(m)).contains(effect);
            assert(each(m).contains(effect));
        }
        if whole.contains(effect) {
            let j = whole.index_of(effect);
            if j < lead {
                assert(each(i)[j] == effect);
            } else {
                assert(rest[j - lead] == effect);
            }
        }
    }
}

/// In a whole compilation for a target other than Solana, with no early stage and no JSON asked for,
/// of files that all have contracts and no errors, a file is written exactly where it is the binary
/// or the ABI of a concrete contract of one of the inputs.
pub proof fn compilation_writes_exactly_the_contracts<E, A>(
    s: Settings,
    inputs: Seq<Seq<char>>,
    target: Seq<char>,
    files: spec_fn(nat) -> Answers<E, A>,
    bundle: BundleAnswers,
    effect: EffectView,
)
    requires
        0 < inputs.len() <= usize::MAX,
        s.emit is None,
        !s.std_json,
        s.target != Target::Solana,
        forall|m: nat|
            m < inputs.len() ==> (#[trigger] files(m)).namespace@.contracts.len() > 0 && !files(
                m,
            ).namespace@.any_errors,
        effect is Save || effect is DumpLlvm || effect is SaveBitcode || effect is SaveDot,
    ensures
        complete(initial::<E, A>(s, inputs, target), files, bundle).effects.contains(effect)
            <==> exists|m: nat, k: int|
            m < inputs.len() && 0 <= k < files(m).namespace@.contracts.len() && (
            #[trigger] files(m).namespace@.contracts[k]).is_concrete && saves_contract(
                s,
                files(m),
                k,
                effect,
            ),
{
    let effects = complete(initial::<E, A>(s, inputs, target), files, bundle).effects;
    let each = |k: nat| contract_files(s, files(k), 0);
    compilation_writes_every_contract(s, inputs, target, files, bundle);
    written_are_those_that_write(effects, effect);
    over_inputs_holds(each, inputs.len(), 0, effect);
    assert forall|m: nat| (#[trigger] each(m)).contains(effect) <==> exists|k: int|
        0 <= k < files(m).namespace@.contracts.len() && (
        #[trigger] files(m).namespace@.contracts[k]).is_concrete && saves_contract(
            s,
            files(m),
            k,
            effect,
        ) by {
        assert(files(m).namespace.contracts.len() <= usize::MAX);
        contract_files_hold(s, files(m), 0, effect);
    }
    if effects.contains(effect) {
        let m = choose|m: nat| m < inputs.len() && (#[trigger] each(m)).contains(effect);
        let k = choose|k: int|
            0 <= k < files(m).namespace@.contracts.len() && (
            #[trigger] files(m).namespace@.contracts[k]).is_concrete && saves_contract(
                s,
                files(m),
                k,
                effect,
            );
        assert(files(m).namespace@.contracts[k].is_concrete);
    }
    if exists|m: nat, k: int|
        m < inputs.len() && 0 <= k < files(m).namespace@.contracts.len() && (
        #[trigger] files(m).namespace@.contracts[k]).is_concrete && saves_contract(
            s,
            files(m),
            k,
            effect,
        ) {
        let (m, k) = choose|m: nat, k: int|
            m < inputs.len() && 0 <= k < files(m).namespace@.contracts.len() && (
            #[trigger] files(m).namespace@.contracts[k]).is_concrete && saves_contract(
                s,
                files(m),
                k,
                effect,
            );
        assert(files(m).namespace@.contracts[k].is_concrete);
        assert(each(m).contains(effect));
    }
}

/// Whether an effect writes the ABI of contract `k` of input `m` of a linked program.
pub open spec fn saves_linked_abi<E, A>(
    s: Settings,
    files: spec_fn(nat) -> Answers<E, A>,
    bundle: BundleAnswers,
    m: nat,
    k: nat,
    effect: EffectView,
) -> bool {
    let dir = match s.output {
        Some(dir) => dir@,
        None => "."@,
    };
    let name = files(m).namespace@.contracts[k as int].name@;
    effect == Effect::<Seq<char>, Seq<u8>>::Save(
        OutputFile { dir, name: name + "."@ + (bundle.abi_extension)(m, k)@ },
        Content::Text((bundle.abi_content)(m, k)@),
    )
}

proof fn abi_files_hold<E, A>(
    s: Settings,
    files: spec_fn(nat) -> Answers<E, A>,
    bundle: BundleAnswers,
    namespaces: Seq<NamespaceView>,
    n: nat,
    c: nat,
    effect: EffectView,
)
    requires
        forall|m: int|
            0 <= m < namespaces.len() ==> #[trigger] namespaces[m] == files(m as nat).namespace@,
    ensures
        abi_files(s, namespaces, bundle.abi_content, bundle.abi_extension, n, c).contains(effect)
            <==> exists|m: nat, k: nat| #[trigger]
            saves_linked_abi(s, files, bundle, m, k, effect) && m < namespaces.len() && k
                < namespaces[m as int].contracts.len()
                && namespaces[m as int].contracts[k as int].is_concrete && (n < m || (n == m && c
                <= k)),
    decreases namespaces.len() - n, namespaces[n as int].contracts.len() - c,
{
    if n < namespaces.len() {
        assert(namespaces[n as int] == files(n).namespace@);
        let whole = abi_files(s, namespaces, bundle.abi_content, bundle.abi_extension, n, c);
        if c >= namespaces[n as int].contracts.len() {
            abi_files_hold(s, files, bundle, namespaces, n + 1, 0, effect);
        } else {
            abi_files_hold(s, files, bundle, namespaces, n, c + 1, effect);
            let rest = abi_files(
                s,
                namespaces,
                bundle.abi_content,
                bundle.abi_extension,
                n,
                c + 1,
            );
            let one: int = if namespaces[n as int].contracts[c as int].is_concrete {
                1
            } else {
                0
            };
            assert forall|j: int| 0 <= j < rest.len() implies #[trigger] rest[j] == whole[one
                + j] by {}
            if rest.contains(effect) {
                let j = rest.index_of(effect);
                assert(whole[one + j] == effect);
            }
            if one == 1 && saves_linked_abi(s, files, bundle, n, c, effect) {
                assert(whole[0] == effect);
            }
            if whole.contains(effect) {
                let j = whole.index_of(effect);
                if j < one {
                    assert(saves_linked_abi(s, files, bundle, n, c, effect));
                } else {
                    assert(rest[j - one] == effect);
                }
            }
        }
    }
}

/// In a whole compilation for Solana, with no early stage and no JSON asked for, of files that all
/// have contracts and no errors, a file is written exactly where it is the linked code, under the
/// name `bundle` with the extension of the target, or the ABI of a concrete contract of one of the
/// inputs.
pub proof fn compilation_links_exactly_the_contracts<E, A>(
    s: Settings,
    inputs: Seq<Seq<char>>,
    target: Seq<char>,
    files: spec_fn(nat) -> Answers<E, A>,
    bundle: BundleAnswers,
    effect: EffectView,
)
    requires
        0 < inputs.len() <= usize::MAX,
        s.emit is None,
        !s.std_json,
        s.target == Target::Solana,
        forall|m: nat|
            m < inputs.len() ==> (#[trigger] files(m)).namespace@.contracts.len() > 0 && !files(
                m,
            ).namespace@.any_errors,
        effect is Save || effect is DumpLlvm || effect is SaveBitcode || effect is SaveDot,
    ensures
        ({
            let dir = match s.output {
                Some(dir) => dir@,
                None => "."@,
            };
            complete(initial::<E, A>(s, inputs, target), files, bundle).effects.contains(effect)
                <==> effect == Effect::Save(
                OutputFile { dir, name: "bundle"@ + "."@ + s.binary_extension@ },
                Content::Bytes(bundle.linked@),
            ) || exists|m: nat, k: nat| #[trigger]
                saves_linked_abi(s, files, bundle, m, k, effect) && m < inputs.len() && k < files(
                    m,
                ).namespace@.contracts.len() && files(
                    m,
                ).namespace@.contracts[k as int].is_concrete
        }),
{
    let effects = complete(initial::<E, A>(s, inputs, target), files, bundle).effects;
    compilation_links_every_contract(s, inputs, target, files, bundle);
    written_are_those_that_write(effects, effect);
    let namespaces = namespaces_from(files, inputs.len(), 0);
    assert forall|m: int| 0 <= m < namespaces.len() implies #[trigger] namespaces[m] == files(
        m as nat,
    ).namespace@ by {
        assert((0 + m) as nat == m as nat);
    }
    abi_files_hold(s, files, bundle, namespaces, 0, 0, effect);
    let abis = abi_files(s, namespaces, bundle.abi_content, bundle.abi_extension, 0, 0);
    let all = written(effects);
    assert forall|j: int| 0 <= j < abis.len() implies #[trigger] abis[j] == all[1 + j] by {}
    if abis.contains(effect) {
        let j = abis.index_of(effect);
        assert(all[1 + j] == effect);
    }
    if all.contains(effect) {
        let j = all.index_of(effect);
        if j > 0 {
            assert(abis[j - 1] == effect);
        }
    }
    assert(all[0] is Save);
}

proof fn account_lines_hold(
    s: Settings,
    contracts: Seq<ContractInfo>,
    i: nat,
    n: nat,
    effect: EffectView,
)
    requires
        n <= contracts.len(),
        s.emit != Some(Emit::Cfg),
    ensures
        passed_over(s, contracts, i, n).contains(effect) <==> s.verbose && exists|k: int|
            i <= k < n && (#[trigger] contracts[k]).is_concrete && effect == Effect::<
                Seq<char>,
                Seq<u8>,
            >::Info(
                "info: contract "@ + contracts[k].name@ + " uses at least "@
                    + contracts[k].fixed_layout_size@ + " bytes account data"@,
            ),
    decreases n - i,
{
    if i < n {
        account_lines_hold(s, contracts, i + 1, n, effect);
        let whole = passed_over(s, contracts, i, n);
        let rest = passed_over(s, contracts, i + 1, n);
        let one: int = if contracts[i as int].is_concrete && s.verbose {
            1
        } else {
            0
        };
        let line = Effect::<Seq<char>, Seq<u8>>::Info(
            "info: contract "@ + contracts[i as int].name@ + " uses at least "@
                + contracts[i as int].fixed_layout_size@ + " bytes account data"@,
        );
        assert(whole.len() == one + rest.len());
        assert forall|j: int| 0 <= j < rest.len() implies #[trigger] rest[j] == whole[one + j] by {}
        if rest.contains(effect) {
            let j = rest.index_of(effect);
            assert(whole[one + j] == effect);
        }
        if one == 1 && effect == line {
            assert(whole[0] == effect);
        }
        if whole.contains(effect) {
            let j = whole.index_of(effect);
            if j < one {
                assert(contracts[i as int].is_concrete);
            } else {
                assert(rest[j - one] == effect);
            }
        }
    }
}

/// Of a file in order, compiled for Solana with neither JSON, the syntax trees nor the graphs asked
/// for, the diagnostics are printed, and a verbose run tells of the account data of each concrete
/// contract; nothing else is done.
pub proof fn account_data_is_told_of_every_concrete_contract<E, A>(
    s: Settings,
    filename: Seq<char>,
    report: Report<E, A>,
    given: Answers<E, A>,
    effect: EffectView,
)
    requires
        s.target == Target::Solana,
        !s.std_json,
        s.emit != Some(Emit::AstDot),
        s.emit != Some(Emit::Cfg),
        given.namespace@.contracts.len() > 0,
        !given.namespace@.any_errors,
    ensures
        ({
            let contracts = given.namespace@.contracts;
            work(s, untouched::<A>(filename), report, given).effects.contains(effect) <==> effect
                is PrintDiagnostics || (s.verbose && exists|k: int|
                0 <= k < contracts.len() && (#[trigger] contracts[k]).is_concrete && effect
                    == Effect::<Seq<char>, Seq<u8>>::Info(
                    "info: contract "@ + contracts[k].name@ + " uses at least "@
                        + contracts[k].fixed_layout_size@ + " bytes account data"@,
                ))
        }),
{
    let contracts = given.namespace@.contracts;
    let state = work_reaches_judgement(s, filename, report, given);
    let after = with_diagnostics(s, report, given);
    let none = Seq::<EffectView>::empty();
    let k = visit_passes_over(s, given.namespace@, 0);
    assert(k == contracts.len());
    let first = go_on(s, state, after, none, 0);
    work_unfolds(s, first.state, first.report, given);
    let passed = passed_over(s, contracts, 0, k);
    assert(visit(s, given.namespace@, 0).effects == passed);
    let effects = work(s, untouched::<A>(filename), report, given).effects;
    assert(effects =~= diagnostics_printed(s) + passed);
    account_lines_hold(s, contracts, 0, k, effect);
    if passed.contains(effect) {
        let j = passed.index_of(effect);
        assert(effects[1 + j] == effect);
    }
    if effect is PrintDiagnostics {
        assert(effects[0] == effect);
    }
    if effects.contains(effect) {
        let j = effects.index_of(effect);
        if j > 0 {
            assert(passed[j - 1] == effect);
        }
    }
}

/// Of a file in order, compiled for a target other than Solana, with LLVM IR asked for, the main
/// module of each concrete contract without a runtime is dumped to its name with the extension `ll`;
/// of one with a runtime it is dumped as the deployer, and the runtime beside it. With bitcode asked
/// for the extension is `bc`.
pub proof fn modules_are_found_under_their_names<E, A>(
    s: Settings,
    filename: Seq<char>,
    report: Report<E, A>,
    given: Answers<E, A>,
    k: int,
)
    requires
        s.target != Target::Solana,
        !given.namespace@.any_errors,
        0 <= k < given.namespace@.contracts.len(),
        given.namespace@.contracts[k].is_concrete,
    ensures
        ({
            let effects = work(s, untouched::<A>(filename), report, given).effects;
            let binary = (given.binary)(k as usize);
            let dir = match s.output {
                Some(dir) => dir@,
                None => "."@,
            };
            &&& s.emit == Some(Emit::LlvmIr) && !binary.has_runtime ==> effects.contains(
                Effect::DumpLlvm(
                    Part::Main,
                    OutputFile { dir, name: binary.name@ + "."@ + "ll"@ },
                ),
            )
            &&& s.emit == Some(Emit::LlvmIr) && binary.has_runtime ==> effects.contains(
                Effect::DumpLlvm(
                    Part::Main,
                    OutputFile { dir, name: binary.name@ + "_deploy"@ + "."@ + "ll"@ },
                ),
            ) && effects.contains(
                Effect::DumpLlvm(
                    Part::Runtime,
                    OutputFile { dir, name: binary.name@ + "_runtime"@ + "."@ + "ll"@ },
                ),
            )
            &&& s.emit == Some(Emit::LlvmBc) && !binary.has_runtime ==> effects.contains(
                Effect::SaveBitcode(
                    Part::Main,
                    OutputFile { dir, name: binary.name@ + "."@ + "bc"@ },
                ),
            )
            &&& s.emit == Some(Emit::LlvmBc) && binary.has_runtime ==> effects.contains(
                Effect::SaveBitcode(
                    Part::Main,
                    OutputFile { dir, name: binary.name@ + "_deploy"@ + "."@ + "bc"@ },
                ),
            ) && effects.contains(
                Effect::SaveBitcode(
                    Part::Runtime,
                    OutputFile { dir, name: binary.name@ + "_runtime"@ + "."@ + "bc"@ },
                ),
            )
        }),
{
    let binary = (given.binary)(k as usize);
    let dir = match s.output {
        Some(dir) => dir@,
        None => "."@,
    };
    if s.emit == Some(Emit::LlvmIr) || s.emit == Some(Emit::LlvmBc) {
        let ir = s.emit == Some(Emit::LlvmIr);
        let ext = if ir {
            "ll"@
        } else {
            "bc"@
        };
        let save = |part: Part, stem: Seq<char>|
            {
                let file = OutputFile { dir, name: stem + "."@ + ext };
                if ir {
                    Effect::<Seq<char>, Seq<u8>>::DumpLlvm(part, file)
                } else {
                    Effect::SaveBitcode(part, file)
                }
            };
        let plain = save(Part::Main, binary.name@);
        let deploy = save(Part::Main, binary.name@ + "_deploy"@);
        let runtime = save(Part::Runtime, binary.name@ + "_runtime"@);
        assert(given.namespace@.contracts[k].is_concrete);
        every_concrete_contract_has_its_modules(s, filename, report, given, plain);
        every_concrete_contract_has_its_modules(s, filename, report, given, deploy);
        every_concrete_contract_has_its_modules(s, filename, report, given, runtime);
        if binary.has_runtime {
            assert(saves_module(s, given, k, deploy) && saves_module(s, given, k, runtime));
        } else {
            assert(saves_module(s, given, k, plain));
        }
    }
}

/// In a whole compilation for Solana, of files that all have contracts and no errors, with LLVM IR
/// asked for the main module of the linked binary is dumped to its name with the extension `ll`, and
/// with bitcode to its name with `bc`; nothing else is written of a binary without a runtime.
pub proof fn linked_module_is_found_under_its_name<E, A>(
    s: Settings,
    inputs: Seq<Seq<char>>,
    target: Seq<char>,
    files: spec_fn(nat) -> Answers<E, A>,
    bundle: BundleAnswers,
    effect: EffectView,
)
    requires
        0 < inputs.len() <= usize::MAX,
        s.emit == Some(Emit::LlvmIr) || s.emit == Some(Emit::LlvmBc),
        !s.std_json,
        s.target == Target::Solana,
        forall|m: nat|
            m < inputs.len() ==> (#[trigger] files(m)).namespace@.contracts.len() > 0 && !files(
                m,
            ).namespace@.any_errors,
        !bundle.binary.has_runtime,
        effect is Save || effect is DumpLlvm || effect is SaveBitcode || effect is SaveDot,
    ensures
        ({
            let effects = complete(initial::<E, A>(s, inputs, target), files, bundle).effects;
            let dir = match s.output {
                Some(dir) => dir@,
                None => "."@,
            };
            effects.contains(effect) <==> effect == if s.emit == Some(Emit::LlvmIr) {
                Effect::<Seq<char>, Seq<u8>>::DumpLlvm(
                    Part::Main,
                    OutputFile { dir, name: bundle.binary.name@ + "."@ + "ll"@ },
                )
            } else {
                Effect::SaveBitcode(
                    Part::Main,
                    OutputFile { dir, name: bundle.binary.name@ + "."@ + "bc"@ },
                )
            }
        }),
{
    let effects = complete(initial::<E, A>(s, inputs, target), files, bundle).effects;
    compilation_links_at_early_stage(s, inputs, target, files, bundle);
    written_are_those_that_write(effects, effect);
    let all = written(effects);
    assert(all.len() == 1);
    if all.contains(effect) {
        assert(all[all.index_of(effect)] == effect);
    }
    assert(all.contains(all[0]));
}

/// With JSON and no early stage asked for and all files in order, what is found of an input stands
/// under its name unless a later input shares that name, and its diagnostics are among all.
proof fn inputs_are_recorded<E, A>(
    s: Settings,
    inputs: Seq<Seq<char>>,
    files: spec_fn(nat) -> Answers<E, A>,
    report: Report<E, A>,
    i: nat,
    m: nat,
)
    requires
        i <= m < inputs.len(),
        s.emit is None,
        s.std_json,
        forall|j: nat| i <= j < inputs.len() ==> compilable(#[trigger] files(j)),
        forall|j: int| m < j < inputs.len() ==> #[trigger] inputs[j] != inputs[m as int],
    ensures
        ({
            let after = inputs_recorded(s, inputs, files, report, i);
            &&& after.contracts.contains_key(inputs[m as int])
            &&& after.contracts[inputs[m as int]] == file_found(s, files(m))
            &&& forall|d: E|
                files(m).diagnostics@.contains(d) ==> #[trigger] after.errors.contains(d)
        }),
    decreases inputs.len() - i,
{
    assert(compilable(files(i)));
    let next = file_recorded(s, inputs[i as int], report, files(i));
    if i < m {
        inputs_are_recorded(s, inputs, files, next, i + 1, m);
    } else {
        later_inputs_leave(s, inputs, files, next, i + 1, inputs[m as int]);
        let after = inputs_recorded(s, inputs, files, report, i);
        assert forall|d: E| files(m).diagnostics@.contains(d) implies #[trigger]
            after.errors.contains(d) by {
            let k = files(m).diagnostics@.index_of(d);
            assert(next.errors[report.errors.len() + k] == d);
            assert(after.errors[report.errors.len() + k] == d);
        }
    }
}

proof fn later_inputs_leave<E, A>(
    s: Settings,
    inputs: Seq<Seq<char>>,
    files: spec_fn(nat) -> Answers<E, A>,
    report: Report<E, A>,
    i: nat,
    name: Seq<char>,
)
    requires
        report.contracts.contains_key(name),
        s.emit is None,
        s.std_json,
        forall|j: int| i <= j < inputs.len() ==> #[trigger] inputs[j] != name,
    ensures
        ({
            let after = inputs_recorded(s, inputs, files, report, i);
            &&& after.contracts.contains_key(name)
            &&& after.contracts[name] == report.contracts[name]
            &&& after.errors.len() >= report.errors.len()
            &&& forall|k: int|
                0 <= k < report.errors.len() ==> #[trigger] after.errors[k] == report.errors[k]
        }),
    decreases inputs.len() - i,
{
    if i < inputs.len() {
        let next = file_recorded(s, inputs[i as int], report, files(i));
        later_inputs_leave(s, inputs, files, next, i + 1, name);
        let after = inputs_recorded(s, inputs, files, report, i);
        assert forall|k: int| 0 <= k < report.errors.len() implies #[trigger] after.errors[k]
            == report.errors[k] by {
            assert(next.errors[k] == report.errors[k]);
        }
    }
}

/// In a whole compilation for a target other than Solana, with JSON and no early stage asked for, of
/// files that all have contracts and no errors: under the name of each input that no later one
/// shares, and under the name of the binary of each of its concrete contracts that no later one
/// shares, stand the whole ABI and the whole code of that contract, and no account data; and every
/// diagnostic of that input is in the result.
pub proof fn compilation_reports_the_code_of_every_contract<E, A>(
    s: Settings,
    inputs: Seq<Seq<char>>,
    target: Seq<char>,
    files: spec_fn(nat) -> Answers<E, A>,
    bundle: BundleAnswers,
    m: nat,
    k: int,
)
    requires
        0 < inputs.len() <= usize::MAX,
        s.emit is None,
        s.std_json,
        s.target != Target::Solana,
        forall|j: nat|
            j < inputs.len() ==> (#[trigger] files(j)).namespace@.contracts.len() > 0 && !files(
                j,
            ).namespace@.any_errors,
        m < inputs.len(),
        forall|j: int| m < j < inputs.len() ==> #[trigger] inputs[j] != inputs[m as int],
        0 <= k < files(m).namespace@.contracts.len(),
        files(m).namespace@.contracts[k].is_concrete,
        forall|j: int|
            k < j < files(m).namespace@.contracts.len() && (
            #[trigger] files(m).namespace@.contracts[j]).is_concrete ==> (files(m).binary)(
                j as usize,
            ).name@ != (files(m).binary)(k as usize).name@,
    ensures
        ({
            let report = complete(
                initial::<E, A>(s, inputs, target),
                files,
                bundle,
            ).state.report;
            let name = (files(m).binary)(k as usize).name@;
            let file = inputs[m as int];
            &&& report.contracts.contains_key(file)
            &&& report.contracts[file].contains_key(name)
            &&& report.contracts[file][name].abi == (files(m).abi)(k as usize)@
            &&& report.contracts[file][name].ewasm == Some(
                hex_upper((files(m).code)(k as usize)@),
            )
            &&& report.contracts[file][name].minimum_space is None
            &&& forall|d: E|
                files(m).diagnostics@.contains(d) ==> #[trigger] report.errors.contains(d)
        }),
{
    assert(files(m).namespace.contracts.len() <= usize::MAX);
    assert forall|j: nat| j < inputs.len() implies compilable(#[trigger] files(j)) by {
        assert(files(j).namespace@.contracts.len() > 0);
    }
    compilation_reports_every_contract(s, inputs, target, files, bundle);
    inputs_are_recorded(s, inputs, files, initial::<E, A>(s, inputs, target).report, 0, m);
    code_reports_hold(files(m), Map::empty(), 0, k);
}

/// In a whole compilation for Solana, with JSON and no early stage asked for, of files that all have
/// contracts and no errors and account data that fits in 32 bits: under the name of each input that
/// no later one shares, and under the name of each of its concrete contracts that no later one
/// shares, stand the whole ABI of that contract and the account data that its layout takes, and no
/// code; every diagnostic of that input is in the result, and so is the whole linked code.
pub proof fn compilation_reports_the_account_data_of_every_contract<E, A>(
    s: Settings,
    inputs: Seq<Seq<char>>,
    target: Seq<char>,
    files: spec_fn(nat) -> Answers<E, A>,
    bundle: BundleAnswers,
    m: nat,
    k: int,
)
    requires
        0 < inputs.len() <= usize::MAX,
        s.emit is None,
        s.std_json,
        s.target == Target::Solana,
        forall|j: nat|
            j < inputs.len() ==> (#[trigger] files(j)).namespace@.contracts.len() > 0 && !files(
                j,
            ).namespace@.any_errors && reportable(files(j).namespace@),
        m < inputs.len(),
        forall|j: int| m < j < inputs.len() ==> #[trigger] inputs[j] != inputs[m as int],
        0 <= k < files(m).namespace@.contracts.len(),
        files(m).namespace@.contracts[k].is_concrete,
        forall|j: int|
            k < j < files(m).namespace@.contracts.len() && (
            #[trigger] files(m).namespace@.contracts[j]).is_concrete ==> files(
                m,
            ).namespace@.contracts[j].name@ != files(m).namespace@.contracts[k].name@,
    ensures
        ({
            let report = complete(
                initial::<E, A>(s, inputs, target),
                files,
                bundle,
            ).state.report;
            let contract = files(m).namespace@.contracts[k];
            let file = inputs[m as int];
            &&& report.contracts.contains_key(file)
            &&& report.contracts[file].contains_key(contract.name@)
            &&& report.contracts[file][contract.name@].abi == (files(m).abi)(k as usize)@
            &&& report.contracts[file][contract.name@].ewasm is None
            &&& report.contracts[file][contract.name@].minimum_space is Some
            &&& report.contracts[file][contract.name@].minimum_space->0 == decimal_value(
                contract.fixed_layout_size@,
            )
            &&& report.program == hex_upper(bundle.linked@)
            &&& forall|d: E|
                files(m).diagnostics@.contains(d) ==> #[trigger] report.errors.contains(d)
        }),
{
    assert(files(m).namespace.contracts.len() <= usize::MAX);
    assert forall|j: nat| j < inputs.len() implies compilable(#[trigger] files(j)) by {
        assert(files(j).namespace@.contracts.len() > 0);
    }
    assert forall|j: nat| j < inputs.len() implies reportable((#[trigger] files(j)).namespace@) by {
        assert(files(j).namespace@.contracts.len() > 0);
    }
    compilation_reports_every_contract(s, inputs, target, files, bundle);
    inputs_are_recorded(s, inputs, files, initial::<E, A>(s, inputs, target).report, 0, m);
    solana_reports_hold(files(m), Map::empty(), 0, k);
    assert(reportable(files(m).namespace@));
    assert(minimum_space(files(m).namespace@.contracts[k].fixed_layout_size@) is Some);
}

/// A file without contracts, or with an error, is rejected where no syntax tree is asked for: nothing
/// is done but that its diagnostics are printed, or, with JSON asked for, collected, and nothing is
/// recorded under its name.
pub proof fn bad_file_leads_to_its_diagnostics_alone<E, A>(
    s: Settings,
    filename: Seq<char>,
    report: Report<E, A>,
    given: Answers<E, A>,
)
    requires
        s.emit != Some(Emit::AstDot),
        given.namespace@.contracts.len() == 0 || given.namespace@.any_errors,
    ensures
        ({
            let whole = work(s, untouched::<A>(filename), report, given);
            &&& whole.state.wait == FileWait::Ended(Verdict::Rejected)
            &&& whole.report.contracts == report.contracts
            &&& whole.report.program == report.program
            &&& s.std_json ==> whole.effects.len() == 0 && whole.report.errors == report.errors
                + given.diagnostics@
            &&& !s.std_json ==> whole.effects == seq![
                Effect::<Seq<char>, Seq<u8>>::PrintDiagnostics,
            ] && whole.report.errors == report.errors
        }),
{
    work_reaches_judgement(s, filename, report, given);
}

/// In a compilation with no early stage asked for, for a target other than Solana, an input without
/// contracts or with an error fails the run: it ends with 1 and the error line last, or, with JSON
/// asked for, with 0 and the result printed last. The binary and the ABI of every concrete contract
/// of a good input are written nonetheless where JSON is not asked for, and nothing of a bad one.
pub proof fn bad_input_fails_the_run<E, A>(
    s: Settings,
    inputs: Seq<Seq<char>>,
    target: Seq<char>,
    files: spec_fn(nat) -> Answers<E, A>,
    bundle: BundleAnswers,
    effect: EffectView,
)
    requires
        0 < inputs.len() <= usize::MAX,
        s.emit is None,
        s.target != Target::Solana,
        exists|m: nat|
            m < inputs.len() && ((#[trigger] files(m)).namespace@.contracts.len() == 0 || files(
                m,
            ).namespace@.any_errors),
        effect is Save || effect is DumpLlvm || effect is SaveBitcode || effect is SaveDot,
    ensures
        ({
            let whole = complete(initial::<E, A>(s, inputs, target), files, bundle);
            &&& whole.effects.len() > 0
            &&& s.std_json ==> whole.state.stage == Stage::Over(0) && whole.effects.last()
                is PrintJson
            &&& !s.std_json ==> whole.state.stage == Stage::Over(1) && whole.effects.last()
                == Effect::<Seq<char>, Seq<u8>>::Error("error: not all contracts are valid"@)
            &&& !s.std_json ==> (whole.effects.contains(effect) <==> exists|m: nat, k: int|
                m < inputs.len() && !files(m).namespace@.any_errors && 0 <= k < files(
                    m,
                ).namespace@.contracts.len() && (
                #[trigger] files(m).namespace@.contracts[k]).is_concrete && saves_contract(
                    s,
                    files(m),
                    k,
                    effect,
                ))
        }),
{
    let n = inputs.len();
    let bad = choose|m: nat|
        m < n && ((#[trigger] files(m)).namespace@.contracts.len() == 0 || files(
            m,
        ).namespace@.any_errors);
    assert(!compilable(files(bad)));
    compilation_with_rejected_input(s, inputs, target, files, bundle);
    if !s.std_json {
        let effects = complete(initial::<E, A>(s, inputs, target), files, bundle).effects;
        let each = |k: nat|
            if compilable(files(k)) {
                contract_files(s, files(k), 0)
            } else {
                Seq::empty()
            };
        written_are_those_that_write(effects, effect);
        over_inputs_holds(each, n, 0, effect);
        assert forall|m: nat| (#[trigger] each(m)).contains(effect) <==> !files(
            m,
        ).namespace@.any_errors && exists|k: int|
            0 <= k < files(m).namespace@.contracts.len() && (
            #[trigger] files(m).namespace@.contracts[k]).is_concrete && saves_contract(
                s,
                files(m),
                k,
                effect,
            ) by {
            assert(files(m).namespace.contracts.len() <= usize::MAX);
            contract_files_hold(s, files(m), 0, effect);
        }
        if effects.contains(effect) {
            let m = choose|m: nat| m < n && (#[trigger] each(m)).contains(effect);
            let k = choose|k: int|
                0 <= k < files(m).namespace@.contracts.len() && (
                #[trigger] files(m).namespace@.contracts[k]).is_concrete && saves_contract(
                    s,
                    files(m),
                    k,
                    effect,
                );
            assert(files(m).namespace@.contracts[k].is_concrete);
        }
        if exists|m: nat, k: int|
            m < n && !files(m).namespace@.any_errors && 0 <= k < files(
                m,
            ).namespace@.contracts.len() && (
            #[trigger] files(m).namespace@.contracts[k]).is_concrete && saves_contract(
                s,
                files(m),
                k,
                effect,
            ) {
            let (m, k) = choose|m: nat, k: int|
                m < n && !files(m).namespace@.any_errors && 0 <= k < files(
                    m,
                ).namespace@.contracts.len() && (
                #[trigger] files(m).namespace@.contracts[k]).is_concrete && saves_contract(
                    s,
                    files(m),
                    k,
                    effect,
                );
            assert(files(m).namespace@.contracts[k].is_concrete);
            assert(each(m).contains(effect));
        }
    }
}

/// In a compilation with the syntax trees asked for, a file is written exactly where it is the syntax
/// tree of one of the inputs, under its stem with the extension `dot`, and the run ends with 0,
/// whatever the diagnostics say.
pub proof fn syntax_trees_are_found_under_their_stems<E, A>(
    s: Settings,
    inputs: Seq<Seq<char>>,
    target: Seq<char>,
    files: spec_fn(nat) -> Answers<E, A>,
    bundle: BundleAnswers,
    effect: EffectView,
)
    requires
        0 < inputs.len() <= usize::MAX,
        s.emit == Some(Emit::AstDot),
        effect is Save || effect is DumpLlvm || effect is SaveBitcode || effect is SaveDot,
    ensures
        ({
            let whole = complete(initial::<E, A>(s, inputs, target), files, bundle);
            let dir = match s.output {
                Some(dir) => dir@,
                None => "."@,
            };
            &&& whole.state.stage == Stage::Over(0)
            &&& whole.effects.contains(effect) <==> exists|m: nat|
                m < inputs.len() && effect == Effect::<Seq<char>, Seq<u8>>::SaveDot(
                    OutputFile { dir, name: (#[trigger] files(m)).stem@ + "."@ + "dot"@ },
                )
        }),
{
    let effects = complete(initial::<E, A>(s, inputs, target), files, bundle).effects;
    compilation_writes_syntax_trees(s, inputs, target, files, bundle);
    let each = |k: nat| seq![Effect::SaveDot(placed(s, files(k).stem@ + "."@ + "dot"@))];
    written_are_those_that_write(effects, effect);
    over_inputs_holds(each, inputs.len(), 0, effect);
    assert forall|m: nat| (#[trigger] each(m)).contains(effect) <==> effect == each(m)[0] by {
        if each(m).contains(effect) {
            assert(each(m)[each(m).index_of(effect)] == effect);
        }
    }
    if effects.contains(effect) {
        let m = choose|m: nat| m < inputs.len() && (#[trigger] each(m)).contains(effect);
        assert(effect == each(m)[0]);
        assert(files(m).stem@ == files(m).stem@);
    }
    if exists|m: nat|
        m < inputs.len() && effect == Effect::<Seq<char>, Seq<u8>>::SaveDot(
            placed(s, (#[trigger] files(m)).stem@ + "."@ + "dot"@),
        ) {
        let m = choose|m: nat|
            m < inputs.len() && effect == Effect::<Seq<char>, Seq<u8>>::SaveDot(
                placed(s, (#[trigger] files(m)).stem@ + "."@ + "dot"@),
            );
        assert(each(m)[0] == effect);
        assert(each(m).contains(effect));
    }
}

} // verus!
