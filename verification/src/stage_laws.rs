//! What holds of the whole work on a file where an early stage is asked for.
use vstd::prelude::*;

use crate::file_laws::{
    answer, compilable, diagnostics_printed, with_contracts, with_diagnostics, work, work_from,
    work_goes_on, work_reaches_judgement, work_unfolds, written, written_add, written_none,
    written_push, Answers,
};
use crate::intermediates::{generated, intermediates};
use crate::json::{ContractReport, Report};
use crate::output::{Content, Effect, EffectView, Part};
use crate::process_file::{
    file_step, generating, go_on, save_dot, untouched, visit, FileState, FileStep, FileWait,
};
use crate::protocol::{BinaryInfo, ContractInfo, Generate, NamespaceView, Verdict};
use crate::settings::{Emit, Settings, Target};
use crate::step_laws::{llvm_is_written_module_by_module, placed};

verus! {

/// With the syntax trees asked for, that of each file is written, whatever its diagnostics say, and
/// the file is accepted; nothing else is written and no contract is recorded.
pub proof fn syntax_tree_is_written<E, A>(
    s: Settings,
    filename: Seq<char>,
    report: Report<E, A>,
    given: Answers<E, A>,
)
    requires
        s.emit == Some(Emit::AstDot),
    ensures
        ({
            let whole = work(s, untouched::<A>(filename), report, given);
            &&& whole.state.wait == FileWait::Ended(Verdict::Accepted)
            &&& whole.report == with_diagnostics(s, report, given)
            &&& written(whole.effects) == seq![
                Effect::<Seq<char>, Seq<u8>>::SaveDot(placed(s, given.stem@ + "."@ + "dot"@)),
            ]
        }),
{
    reveal(work);
    assert(given.namespace.contracts.len() <= usize::MAX);
    let start = untouched::<A>(filename);
    let none = Seq::<EffectView>::empty();
    let whole = work(s, start, report, given);
    let step1 = file_step(s, start, report, answer(given, start.wait));
    let work1 = work(s, step1.state, step1.report, given);
    let naming = if s.std_json {
        file_step(s, step1.state, step1.report, answer(given, step1.state.wait))
    } else {
        step1
    };
    assert(naming.state.wait == FileWait::Stem);
    let work2 = work(s, naming.state, naming.report, given);
    let step3 = file_step(s, naming.state, naming.report, answer(given, naming.state.wait));
    let work3 = work(s, step3.state, step3.report, given);
    assert(work3.effects == none);
    let dot = save_dot(s, given.stem@);
    assert(work2.effects == dot + none);
    let file = placed(s, given.stem@ + "."@ + "dot"@);
    let said = dot.drop_last();
    written_none(said);
    written_none(none);
    assert(dot =~= said.push(Effect::SaveDot(file)));
    written_push(said, Effect::SaveDot(file));
    written_add(dot, none);
    if s.std_json {
        assert(work1.effects == none + work2.effects);
        written_add(none, work2.effects);
        written_add(none, work1.effects);
    } else {
        let lead = seq![Effect::<Seq<char>, Seq<u8>>::PrintDiagnostics];
        written_none(lead);
        written_add(lead, work2.effects);
    }
    assert(written(whole.effects) =~= seq![
        Effect::<Seq<char>, Seq<u8>>::SaveDot(placed(s, given.stem@ + "."@ + "dot"@)),
    ]);
}

/// The graphs of the concrete contracts from number `i` on.
pub open spec fn graphs(contracts: Seq<ContractInfo>, i: nat) -> Seq<EffectView>
    decreases contracts.len() - i,
{
    if i >= contracts.len() {
        Seq::empty()
    } else if contracts[i as int].is_concrete {
        seq![Effect::PrintCfg(i as usize)] + graphs(contracts, i + 1)
    } else {
        graphs(contracts, i + 1)
    }
}

/// With the control flow graphs asked for, the graph of each concrete contract from number `i` on
/// is printed, in order, and nothing else is done with them.
pub proof fn graphs_are_printed(s: Settings, namespace: NamespaceView, i: nat)
    requires
        s.emit == Some(Emit::Cfg),
    ensures
        visit(s, namespace, i).effects == graphs(namespace.contracts, i),
        visit(s, namespace, i).wait == FileWait::Ended(Verdict::Accepted),
    decreases namespace.contracts.len() - i,
{
    if i < namespace.contracts.len() {
        graphs_are_printed(s, namespace, i + 1);
    }
}

/// Of a file in order, with the control flow graphs asked for, the graph of each concrete contract is
/// printed, in order, behind the diagnostics, and nothing else is done. The file is accepted, with no
/// contract recorded under its name.
pub proof fn graphs_of_file_are_printed<E, A>(
    s: Settings,
    filename: Seq<char>,
    report: Report<E, A>,
    given: Answers<E, A>,
)
    requires
        s.emit == Some(Emit::Cfg),
        compilable(given),
    ensures
        ({
            let whole = work(s, untouched::<A>(filename), report, given);
            &&& whole.state.wait == FileWait::Ended(Verdict::Accepted)
            &&& whole.effects == diagnostics_printed(s) + graphs(given.namespace@.contracts, 0)
            &&& whole.report == with_contracts(
                with_diagnostics(s, report, given),
                filename,
                Map::empty(),
            )
        }),
{
    reveal(work);
    let state = work_reaches_judgement(s, filename, report, given);
    let after = with_diagnostics(s, report, given);
    let none = Seq::<EffectView>::empty();
    graphs_are_printed(s, given.namespace@, 0);
    let first = go_on(s, state, after, none, 0);
    assert(work(s, first.state, first.report, given).effects == none);
    assert((none + graphs(given.namespace@.contracts, 0)) + none =~= graphs(
        given.namespace@.contracts,
        0,
    ));
}

/// The modules of a binary as they are written: the main one under its name, or, where it has a
/// runtime, as the deployer, and then the runtime.
pub open spec fn llvm_modules(s: Settings, binary: BinaryInfo) -> Seq<EffectView> {
    let name = binary.name@;
    if s.emit == Some(Emit::LlvmIr) {
        if binary.has_runtime {
            seq![
                Effect::DumpLlvm(Part::Main, placed(s, name + "_deploy"@ + "."@ + "ll"@)),
                Effect::DumpLlvm(Part::Runtime, placed(s, name + "_runtime"@ + "."@ + "ll"@)),
            ]
        } else {
            seq![Effect::DumpLlvm(Part::Main, placed(s, name + "."@ + "ll"@))]
        }
    } else {
        if binary.has_runtime {
            seq![
                Effect::SaveBitcode(Part::Main, placed(s, name + "_deploy"@ + "."@ + "bc"@)),
                Effect::SaveBitcode(Part::Runtime, placed(s, name + "_runtime"@ + "."@ + "bc"@)),
            ]
        } else {
            seq![Effect::SaveBitcode(Part::Main, placed(s, name + "."@ + "bc"@))]
        }
    }
}

/// What is written of a binary with LLVM IR or bitcode asked for is its modules, whatever the target
/// is.
pub proof fn dumps_are_modules(s: Settings, binary: BinaryInfo)
    requires
        s.emit == Some(Emit::LlvmIr) || s.emit == Some(Emit::LlvmBc),
    ensures
        intermediates(s, binary) is Saved,
        written(intermediates(s, binary)->Saved_0) == llvm_modules(s, binary),
{
    llvm_is_written_module_by_module(s, binary);
    let name = binary.name@;
    let effects = intermediates(s, binary)->Saved_0;
    let modules = llvm_modules(s, binary);
    let none = Seq::<EffectView>::empty();
    written_none(none);
    let n = effects.len() as int;
    if binary.has_runtime {
        let first = effects.take(n / 2);
        let second = effects.skip(n / 2);
        assert(effects =~= first + second);
        written_none(first.drop_last());
        written_none(second.drop_last());
        written_push(first.drop_last(), modules[0]);
        written_push(second.drop_last(), modules[1]);
        assert(first =~= first.drop_last().push(modules[0]));
        assert(second =~= second.drop_last().push(modules[1]));
        written_add(first, second);
        assert(none.push(modules[0]) + none.push(modules[1]) =~= modules);
    } else {
        written_none(effects.drop_last());
        written_push(effects.drop_last(), modules[0]);
        assert(effects =~= effects.drop_last().push(modules[0]));
        assert(none.push(modules[0]) =~= modules);
    }
}

/// The files that the concrete contracts from number `i` on are written to as LLVM.
pub open spec fn llvm_files<E, A>(s: Settings, given: Answers<E, A>, i: nat) -> Seq<EffectView>
    decreases given.namespace@.contracts.len() - i,
{
    if i >= given.namespace@.contracts.len() {
        Seq::empty()
    } else if given.namespace@.contracts[i as int].is_concrete {
        llvm_modules(s, (given.binary)(i as usize)) + llvm_files(s, given, i + 1)
    } else {
        llvm_files(s, given, i + 1)
    }
}

/// For a target other than Solana, with LLVM IR or bitcode asked for, the work on the contracts from
/// number `i` on writes the modules of each concrete one, in order, and nothing else; the file is
/// accepted.
pub proof fn contracts_are_dumped<E, A>(
    s: Settings,
    state: FileState<A>,
    report: Report<E, A>,
    given: Answers<E, A>,
    i: nat,
)
    requires
        s.emit == Some(Emit::LlvmIr) || s.emit == Some(Emit::LlvmBc),
        s.target != Target::Solana,
        state.namespace == given.namespace@,
        i <= state.namespace.contracts.len() <= usize::MAX,
    ensures
        written(work_from(s, state, report, given, i).effects) == llvm_files(s, given, i),
        work_from(s, state, report, given, i).state.wait == FileWait::Ended(Verdict::Accepted),
        work_from(s, state, report, given, i).report == with_contracts(
            report,
            state.filename,
            state.found,
        ),
    decreases state.namespace.contracts.len() - i,
{
    reveal(work);
    let none = Seq::<EffectView>::empty();
    let first = go_on(s, state, report, none, i);
    let whole = work_from(s, state, report, given, i);
    if i >= state.namespace.contracts.len() {
        assert(whole.effects =~= none);
        written_none(none);
    } else if !state.namespace.contracts[i as int].is_concrete {
        contracts_are_dumped(s, state, report, given, i + 1);
    } else {
        let k = i as usize;
        let binary = (given.binary)(k);
        let state1 = first.state;
        assert(state1.wait == FileWait::Binary(k));
        let dumped = intermediates(s, binary)->Saved_0;
        dumps_are_modules(s, binary);
        let state2 = FileState { binary: binary.name@, ..state1 };
        work_goes_on(s, state2, report, given, dumped, i + 1);
        contracts_are_dumped(s, state2, report, given, i + 1);
        let rest = work_from(s, state2, report, given, i + 1);
        let lead = generating(s, state.namespace.contracts[i as int], state.namespace.target);
        let work1 = work(s, state1, report, given);
        assert(work1.effects == dumped + rest.effects);
        assert(none + lead =~= lead);
        assert(whole.effects == lead + work1.effects);
        written_none(lead);
        written_add(lead, work1.effects);
        written_add(dumped, rest.effects);
        assert(written(whole.effects) =~= llvm_files(s, given, i));
    }
}

/// A file in order, compiled for a target other than Solana with LLVM IR or bitcode asked for, is
/// accepted, and the files written are the modules of each concrete contract, in order. No contract
/// is recorded under its name.
pub proof fn file_is_dumped<E, A>(
    s: Settings,
    filename: Seq<char>,
    report: Report<E, A>,
    given: Answers<E, A>,
)
    requires
        s.emit == Some(Emit::LlvmIr) || s.emit == Some(Emit::LlvmBc),
        s.target != Target::Solana,
        compilable(given),
    ensures
        ({
            let whole = work(s, untouched::<A>(filename), report, given);
            &&& whole.state.wait == FileWait::Ended(Verdict::Accepted)
            &&& written(whole.effects) == llvm_files(s, given, 0)
            &&& whole.report == with_contracts(
                with_diagnostics(s, report, given),
                filename,
                Map::empty(),
            )
        }),
{
    let state = work_reaches_judgement(s, filename, report, given);
    let after = with_diagnostics(s, report, given);
    let whole = work(s, untouched::<A>(filename), report, given);
    contracts_are_dumped(s, state, after, given, 0);
    written_none(diagnostics_printed(s));
    written_add(diagnostics_printed(s), work_from(s, state, after, given, 0).effects);
    assert(written(whole.effects) =~= llvm_files(s, given, 0));
}

/// The files that the concrete contracts from number `i` on are written to as object or assembly
/// code, up to the first of which no code can be made.
pub open spec fn generated_files<E, A>(
    s: Settings,
    generate: Generate,
    given: Answers<E, A>,
    i: nat,
) -> Seq<EffectView>
    decreases given.namespace@.contracts.len() - i,
{
    if i >= given.namespace@.contracts.len() {
        Seq::empty()
    } else if given.namespace@.contracts[i as int].is_concrete {
        let k = i as usize;
        match (given.generated)(k) {
            Ok(code) => seq![
                Effect::Save(
                    placed(
                        s,
                        (given.binary)(k).name@ + "."@ + match generate {
                            Generate::Object => "o"@,
                            Generate::Assembly => "asm"@,
                        },
                    ),
                    Content::Bytes(code@),
                ),
            ] + generated_files(s, generate, given, i + 1),
            Err(_) => Seq::empty(),
        }
    } else {
        generated_files(s, generate, given, i + 1)
    }
}

/// Why no object or assembly code can be made of the first concrete contract from number `i` on of
/// which none can, if there is one.
pub open spec fn generation_failure<E, A>(given: Answers<E, A>, i: nat) -> Option<Seq<char>>
    decreases given.namespace@.contracts.len() - i,
{
    if i >= given.namespace@.contracts.len() {
        None
    } else if given.namespace@.contracts[i as int].is_concrete {
        match (given.generated)(i as usize) {
            Ok(_) => generation_failure(given, i + 1),
            Err(reason) => Some(reason@),
        }
    } else {
        generation_failure(given, i + 1)
    }
}

/// Whether a file that was worked on with object or assembly code asked for ended as it should: with
/// the contracts found recorded where all code could be made, and otherwise with the reason printed
/// last, the end of the run with 1 and nothing recorded.
pub open spec fn generation_ended<E, A>(
    outcome: FileStep<E, A>,
    failure: Option<Seq<char>>,
    report: Report<E, A>,
    filename: Seq<char>,
    found: Map<Seq<char>, ContractReport<A>>,
) -> bool {
    match failure {
        None => {
            &&& outcome.state.wait == FileWait::Ended(Verdict::Accepted)
            &&& outcome.report == with_contracts(report, filename, found)
        },
        Some(reason) => {
            &&& outcome.state.wait == FileWait::Ended(Verdict::Exit(1))
            &&& outcome.report == report
            &&& outcome.effects.len() > 0
            &&& outcome.effects.last() == Effect::<Seq<char>, Seq<u8>>::Print(
                "error: "@ + reason,
            )
        },
    }
}

/// The work on the contracts from number `i` on, where that one is concrete and object or assembly
/// code is asked for: it is emitted, what was made of it is dealt with, and the work goes on where
/// code could be made.
proof fn contract_is_generated<E, A>(
    s: Settings,
    state: FileState<A>,
    report: Report<E, A>,
    given: Answers<E, A>,
    generate: Generate,
    i: nat,
) -> (next: FileState<A>)
    requires
        s.emit == Some(
            match generate {
                Generate::Object => Emit::Object,
                Generate::Assembly => Emit::Asm,
            },
        ),
        s.target != Target::Solana,
        state.namespace == given.namespace@,
        i < state.namespace.contracts.len() <= usize::MAX,
        state.namespace.contracts[i as int].is_concrete,
    ensures
        next.namespace == state.namespace,
        next.filename == state.filename,
        next.found == state.found,
        ({
            let whole = work_from(s, state, report, given, i);
            let rest = work_from(s, next, report, given, i + 1);
            let lead = generating(s, state.namespace.contracts[i as int], state.namespace.target);
            let code = (given.generated)(i as usize);
            let made = generated(s, generate, (given.binary)(i as usize).name@, code);
            if code is Ok {
                &&& whole.state == rest.state
                &&& whole.report == rest.report
                &&& whole.effects == lead + (made + rest.effects)
            } else {
                &&& whole.state.wait == FileWait::Ended(Verdict::Exit(1))
                &&& whole.report == report
                &&& whole.effects == lead + made
            }
        }),
{
    let none = Seq::<EffectView>::empty();
    let first = go_on(s, state, report, none, i);
    let k = i as usize;
    let code = (given.generated)(k);
    let state1 = first.state;
    assert(state1.wait == FileWait::Binary(k));
    let state2 = file_step(s, state1, report, answer(given, state1.wait)).state;
    assert(state2.wait == FileWait::Generated(k, generate));
    work_unfolds(s, state1, report, given);
    work_unfolds(s, state2, report, given);
    let made = generated(s, generate, (given.binary)(k).name@, code);
    let lead = generating(s, state.namespace.contracts[i as int], state.namespace.target);
    let work2 = work(s, state2, report, given);
    assert(none + work2.effects =~= work2.effects);
    assert(none + lead =~= lead);
    if code is Ok {
        work_goes_on(s, state2, report, given, made, i + 1);
    } else {
        let step2 = file_step(s, state2, report, answer(given, state2.wait));
        work_unfolds(s, step2.state, step2.report, given);
        assert(made + none =~= made);
    }
    state2
}

/// For a target other than Solana, with object or assembly code asked for, the work on the contracts
/// from number `i` on writes the code of each concrete one, in order, and nothing else, and the file
/// is accepted. The first of which no code can be made ends the run with 1 and the reason printed.
pub proof fn contracts_are_generated<E, A>(
    s: Settings,
    state: FileState<A>,
    report: Report<E, A>,
    given: Answers<E, A>,
    generate: Generate,
    i: nat,
)
    requires
        s.emit == Some(
            match generate {
                Generate::Object => Emit::Object,
                Generate::Assembly => Emit::Asm,
            },
        ),
        s.target != Target::Solana,
        state.namespace == given.namespace@,
        i <= state.namespace.contracts.len() <= usize::MAX,
    ensures
        written(work_from(s, state, report, given, i).effects) == generated_files(
            s,
            generate,
            given,
            i,
        ),
        generation_ended(
            work_from(s, state, report, given, i),
            generation_failure(given, i),
            report,
            state.filename,
            state.found,
        ),
    decreases state.namespace.contracts.len() - i,
{
    let none = Seq::<EffectView>::empty();
    let whole = work_from(s, state, report, given, i);
    written_none(none);
    if i >= state.namespace.contracts.len() {
        let first = go_on(s, state, report, none, i);
        work_unfolds(s, first.state, first.report, given);
        assert(whole.effects =~= none);
    } else if !state.namespace.contracts[i as int].is_concrete {
        contracts_are_generated(s, state, report, given, generate, i + 1);
    } else {
        let next = contract_is_generated(s, state, report, given, generate, i);
        let code = (given.generated)(i as usize);
        let made = generated(s, generate, (given.binary)(i as usize).name@, code);
        let lead = generating(s, state.namespace.contracts[i as int], state.namespace.target);
        written_none(lead);
        if code is Ok {
            contracts_are_generated(s, next, report, given, generate, i + 1);
            let rest = work_from(s, next, report, given, i + 1);
            let said = made.drop_last();
            written_none(said);
            assert(made =~= said.push(made.last()));
            written_push(said, made.last());
            written_add(made, rest.effects);
            written_add(lead, made + rest.effects);
            if generation_failure(given, i + 1) is Some {
                assert(whole.effects.last() == rest.effects.last());
            }
        } else {
            written_none(made);
            written_add(lead, made);
            assert(whole.effects.last() == made.last());
        }
        assert(written(whole.effects) =~= generated_files(s, generate, given, i));
    }
}

/// Of a file in order, compiled for a target other than Solana with object or assembly code asked
/// for, the files written are the code of each concrete contract, in order, up to the first of which
/// none can be made. Where there is none such the file is accepted, with no contract recorded under
/// its name; otherwise the reason is printed and the run ends with 1.
pub proof fn file_is_generated<E, A>(
    s: Settings,
    filename: Seq<char>,
    report: Report<E, A>,
    given: Answers<E, A>,
    generate: Generate,
)
    requires
        s.emit == Some(
            match generate {
                Generate::Object => Emit::Object,
                Generate::Assembly => Emit::Asm,
            },
        ),
        s.target != Target::Solana,
        compilable(given),
    ensures
        ({
            let whole = work(s, untouched::<A>(filename), report, given);
            &&& written(whole.effects) == generated_files(s, generate, given, 0)
            &&& generation_ended(
                whole,
                generation_failure(given, 0),
                with_diagnostics(s, report, given),
                filename,
                Map::empty(),
            )
        }),
{
    let state = work_reaches_judgement(s, filename, report, given);
    let after = with_diagnostics(s, report, given);
    let whole = work(s, untouched::<A>(filename), report, given);
    contracts_are_generated(s, state, after, given, generate, 0);
    let rest = work_from(s, state, after, given, 0);
    written_none(diagnostics_printed(s));
    written_add(diagnostics_printed(s), rest.effects);
    assert(written(whole.effects) =~= generated_files(s, generate, given, 0));
    if generation_failure(given, 0) is Some {
        assert(whole.effects.last() == rest.effects.last());
    }
}

} // verus!
