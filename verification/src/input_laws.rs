//! What becomes of the inputs of a compilation, one after the other, whatever is asked for.
use vstd::prelude::*;

use crate::file_laws::{
    all_in_order, answer, answers_left, bad_file_is_rejected, code_reports, compilable,
    contract_files, contracts_left, diagnostics_printed, file_step_advances, file_step_in_order,
    good_file_is_reported, good_file_is_written, in_order, reportable, solana_file_writes_nothing,
    solana_reports, wait_in_order, with_contracts, with_diagnostics, work, work_reaches_judgement,
    writes, written, written_add, written_none, Answers,
};
use crate::json::{ContractReport, Report};
use crate::output::{Effect, EffectView};
use crate::process_file::{answers, file_step, untouched, FileState, FileStep, FileWait};
use crate::protocol::{Generate, NamespaceView, Verdict};
use crate::settings::{Emit, Settings, Target};
use crate::stage_laws::{
    file_is_dumped, file_is_generated, generated_files, generation_failure, graphs,
    graphs_of_file_are_printed, llvm_files, syntax_tree_is_written,
};
use crate::step_laws::placed;

verus! {

/// The form of code that the settings ask for, if they ask for one.
pub open spec fn code_asked_for(s: Settings) -> Option<Generate> {
    if s.emit == Some(Emit::Object) {
        Some(Generate::Object)
    } else if s.emit == Some(Emit::Asm) {
        Some(Generate::Assembly)
    } else {
        None
    }
}

/// Whether the work on a file comes to its end: account data that is to be reported fits in 32 bits.
pub open spec fn answerable<E, A>(s: Settings, given: Answers<E, A>) -> bool {
    s.target == Target::Solana && s.std_json && s.emit != Some(Emit::AstDot) && s.emit != Some(
        Emit::Cfg,
    ) && compilable(given) ==> reportable(given.namespace@)
}

/// Why code that is asked for of each file cannot be made of one of the contracts of this file, if
/// that is so.
pub open spec fn code_failure<E, A>(s: Settings, given: Answers<E, A>) -> Option<Seq<char>> {
    if code_asked_for(s) is Some && s.target != Target::Solana && compilable(given) {
        generation_failure(given, 0)
    } else {
        None
    }
}

/// How the work on a file ends. With the syntax trees asked for every file is accepted; otherwise
/// one that cannot be compiled is rejected, and one of which code asked for cannot be made ends the
/// run.
pub open spec fn file_verdict<E, A>(s: Settings, given: Answers<E, A>) -> Verdict {
    if s.emit == Some(Emit::AstDot) {
        Verdict::Accepted
    } else if !compilable(given) {
        Verdict::Rejected
    } else if code_failure(s, given) is Some {
        Verdict::Exit(1)
    } else {
        Verdict::Accepted
    }
}

/// What is written of a file: its syntax tree where that is asked for; nothing where it cannot be
/// compiled, and nothing by itself for Solana; otherwise what the stage asked for makes of each
/// concrete contract, or, with no stage asked for and unless they are reported as JSON, their
/// binaries and ABIs.
pub open spec fn file_written<E, A>(s: Settings, given: Answers<E, A>) -> Seq<EffectView> {
    if s.emit == Some(Emit::AstDot) {
        seq![Effect::SaveDot(placed(s, given.stem@ + "."@ + "dot"@))]
    } else if !compilable(given) || s.target == Target::Solana {
        Seq::empty()
    } else {
        match s.emit {
            Some(Emit::LlvmIr) => llvm_files(s, given, 0),
            Some(Emit::LlvmBc) => llvm_files(s, given, 0),
            Some(Emit::Object) => generated_files(s, Generate::Object, given, 0),
            Some(Emit::Asm) => generated_files(s, Generate::Assembly, given, 0),
            None => if s.std_json {
                Seq::empty()
            } else {
                contract_files(s, given, 0)
            },
            _ => Seq::empty(),
        }
    }
}

/// The control flow graphs.
#[verifier::opaque]
pub open spec fn graphs_printed(effects: Seq<EffectView>) -> Seq<EffectView> {
    effects.filter(|e: EffectView| e is PrintCfg)
}

/// The control flow graphs that are printed of a file.
pub open spec fn file_graphs<E, A>(s: Settings, given: Answers<E, A>) -> Seq<EffectView> {
    if s.emit == Some(Emit::Cfg) && compilable(given) {
        graphs(given.namespace@.contracts, 0)
    } else {
        Seq::empty()
    }
}

/// What is found of the contracts of a file that is accepted. Contracts are reported with JSON asked
/// for: for Solana unless their graphs are printed, and otherwise where no stage is asked for.
pub open spec fn file_found<E, A>(s: Settings, given: Answers<E, A>) -> Map<
    Seq<char>,
    ContractReport<A>,
> {
    if !s.std_json || s.emit == Some(Emit::Cfg) {
        Map::empty()
    } else if s.target == Target::Solana {
        solana_reports(given, Map::empty(), 0)
    } else if s.emit is None {
        code_reports(given, Map::empty(), 0)
    } else {
        Map::empty()
    }
}

/// The JSON result after a file.
pub open spec fn file_recorded<E, A>(
    s: Settings,
    filename: Seq<char>,
    report: Report<E, A>,
    given: Answers<E, A>,
) -> Report<E, A> {
    let after = with_diagnostics(s, report, given);
    if s.emit == Some(Emit::AstDot) || file_verdict(s, given) != Verdict::Accepted {
        after
    } else {
        with_contracts(after, filename, file_found(s, given))
    }
}

/// Whether the effects end with this one.
pub open spec fn ends_with(effects: Seq<EffectView>, effect: EffectView) -> bool {
    effects.len() > 0 && effects.last() == effect
}

pub(crate) proof fn graphs_printed_none(a: Seq<EffectView>)
    requires
        forall|i: int| 0 <= i < a.len() ==> !(#[trigger] a[i] is PrintCfg),
    ensures
        graphs_printed(a) == Seq::<EffectView>::empty(),
    decreases a.len(),
{
    reveal(graphs_printed);
    reveal(Seq::filter);
    if a.len() > 0 {
        assert(a.last() == a[a.len() - 1]);
        assert forall|i: int| 0 <= i < a.drop_last().len() implies !(
        #[trigger] a.drop_last()[i] is PrintCfg) by {
            assert(a.drop_last()[i] == a[i]);
        }
        graphs_printed_none(a.drop_last());
    }
}

pub(crate) proof fn graphs_printed_add(a: Seq<EffectView>, b: Seq<EffectView>)
    ensures
        graphs_printed(a + b) == graphs_printed(a) + graphs_printed(b),
{
    reveal(graphs_printed);
    Seq::filter_distributes_over_add(a, b, |e: EffectView| e is PrintCfg);
}

proof fn graphs_are_graphs(effects: Seq<EffectView>)
    requires
        forall|i: int| 0 <= i < effects.len() ==> #[trigger] effects[i] is PrintCfg,
    ensures
        graphs_printed(effects) == effects,
    decreases effects.len(),
{
    reveal(graphs_printed);
    reveal(Seq::filter);
    if effects.len() > 0 {
        let front = effects.drop_last();
        assert(effects.last() == effects[effects.len() - 1]);
        assert forall|i: int| 0 <= i < front.len() implies #[trigger] front[i] is PrintCfg by {
            assert(front[i] == effects[i]);
        }
        graphs_are_graphs(front);
        assert(effects =~= front.push(effects.last()));
    }
}

/// All effects of the work on a file are ones that the settings ask for.
pub proof fn work_in_order<E, A>(
    s: Settings,
    state: FileState<A>,
    report: Report<E, A>,
    given: Answers<E, A>,
)
    requires
        state.valid(),
        wait_in_order(s, state.wait),
    ensures
        all_in_order(s, work(s, state, report, given).effects),
    decreases
            if state.wait is Resolve {
                1nat
            } else {
                0nat
            },
            contracts_left(state.namespace, state.wait),
            answers_left(state.wait),
{
    reveal(work);
    let event = answer(given, state.wait);
    if answers(state.wait, state.namespace, event) {
        file_step_in_order(s, state, report, event);
        file_step_advances(s, state, report, event);
        let first = file_step(s, state, report, event);
        work_in_order(s, first.state, first.report, given);
        let rest = work(s, first.state, first.report, given);
        let whole = first.effects + rest.effects;
        assert forall|i: int| 0 <= i < whole.len() implies in_order(s, #[trigger] whole[i]) by {
            if i < first.effects.len() {
                assert(in_order(s, first.effects[i]));
            } else {
                assert(in_order(s, rest.effects[i - first.effects.len()]));
            }
        }
    }
}

proof fn graphs_are_the_graphs_of_file<E, A>(
    s: Settings,
    filename: Seq<char>,
    report: Report<E, A>,
    given: Answers<E, A>,
)
    ensures
        graphs_printed(work(s, untouched::<A>(filename), report, given).effects) == file_graphs(
            s,
            given,
        ),
{
    let effects = work(s, untouched::<A>(filename), report, given).effects;
    work_in_order(s, untouched::<A>(filename), report, given);
    if s.emit == Some(Emit::Cfg) {
        let lead = diagnostics_printed(s);
        graphs_printed_none(lead);
        if compilable(given) {
            graphs_of_file_are_printed(s, filename, report, given);
            let printed = graphs(given.namespace@.contracts, 0);
            only_graphs(given.namespace@, 0);
            graphs_are_graphs(printed);
            graphs_printed_add(lead, printed);
            assert(graphs_printed(effects) =~= printed);
        } else {
            work_reaches_judgement(s, filename, report, given);
        }
    } else {
        assert forall|i: int| 0 <= i < effects.len() implies !(#[trigger] effects[i] is PrintCfg) by {
            assert(in_order(s, effects[i]));
        }
        graphs_printed_none(effects);
    }
}

proof fn only_graphs(namespace: NamespaceView, i: nat)
    ensures
        forall|k: int|
            0 <= k < graphs(namespace.contracts, i).len() ==> #[trigger] graphs(
                namespace.contracts,
                i,
            )[k] is PrintCfg,
    decreases namespace.contracts.len() - i,
{
    if i < namespace.contracts.len() {
        only_graphs(namespace, i + 1);
    }
}

/// The work on a file leaves what the compiler told of it as it is.
pub proof fn work_keeps_namespace<E, A>(
    s: Settings,
    state: FileState<A>,
    report: Report<E, A>,
    given: Answers<E, A>,
)
    requires
        state.valid(),
    ensures
        state.wait is Resolve ==> work(s, state, report, given).state.namespace
            == given.namespace@,
        !(state.wait is Resolve) ==> work(s, state, report, given).state.namespace
            == state.namespace,
    decreases
            if state.wait is Resolve {
                1nat
            } else {
                0nat
            },
            contracts_left(state.namespace, state.wait),
            answers_left(state.wait),
{
    reveal(work);
    let event = answer(given, state.wait);
    if answers(state.wait, state.namespace, event) {
        file_step_advances(s, state, report, event);
        let first = file_step(s, state, report, event);
        if first.state.valid() {
            work_keeps_namespace(s, first.state, first.report, given);
        }
    }
}

/// Whether the work on a file came to what it has to come to: how it ends, what is written and
/// printed, what is recorded, and that the reason comes last where code asked for cannot be made.
pub open spec fn is_outcome<E, A>(
    s: Settings,
    filename: Seq<char>,
    report: Report<E, A>,
    given: Answers<E, A>,
    whole: FileStep<E, A>,
) -> bool {
    &&& whole.state.wait == FileWait::Ended(file_verdict(s, given))
    &&& whole.state.namespace == given.namespace@
    &&& written(whole.effects) == file_written(s, given)
    &&& graphs_printed(whole.effects) == file_graphs(s, given)
    &&& whole.report == file_recorded(s, filename, report, given)
    &&& code_failure(s, given) matches Some(reason) ==> ends_with(
        whole.effects,
        Effect::Print("error: "@ + reason),
    )
}

/// The work on a file of which nothing is made by itself.
proof fn unmade_file_is_worked_on<E, A>(
    s: Settings,
    filename: Seq<char>,
    report: Report<E, A>,
    given: Answers<E, A>,
    whole: FileStep<E, A>,
)
    requires
        answerable(s, given),
        s.emit == Some(Emit::AstDot) || !compilable(given) || s.target == Target::Solana,
        whole == work(s, untouched::<A>(filename), report, given),
        whole.state.namespace == given.namespace@,
        graphs_printed(whole.effects) == file_graphs(s, given),
    ensures
        is_outcome(s, filename, report, given, whole),
{
    if s.emit == Some(Emit::AstDot) {
        syntax_tree_is_written(s, filename, report, given);
    } else if !compilable(given) {
        bad_file_is_rejected(s, filename, report, given);
    } else {
        solana_file_writes_nothing(s, filename, report, given);
    }
}

/// With JSON and no early stage asked for, nothing that the settings ask for writes a file.
proof fn json_writes_nothing(s: Settings, effects: Seq<EffectView>)
    requires
        s.std_json,
        s.emit is None,
        all_in_order(s, effects),
    ensures
        written(effects) == Seq::<EffectView>::empty(),
{
    assert forall|i: int| 0 <= i < effects.len() implies !writes(#[trigger] effects[i]) by {
        assert(in_order(s, effects[i]));
    }
    written_none(effects);
}

/// Diagnostics and control flow graphs are no files.
proof fn graphs_write_nothing(s: Settings, namespace: NamespaceView)
    ensures
        written(diagnostics_printed(s) + graphs(namespace.contracts, 0)) == Seq::<
            EffectView,
        >::empty(),
{
    only_graphs(namespace, 0);
    written_none(diagnostics_printed(s) + graphs(namespace.contracts, 0));
}

/// The work on a file in order, for a target other than Solana, with the control flow graphs asked
/// for.
proof fn printed_file_is_worked_on<E, A>(
    s: Settings,
    filename: Seq<char>,
    report: Report<E, A>,
    given: Answers<E, A>,
    whole: FileStep<E, A>,
)
    requires
        s.emit == Some(Emit::Cfg),
        compilable(given),
        s.target != Target::Solana,
        whole == work(s, untouched::<A>(filename), report, given),
        whole.state.namespace == given.namespace@,
        graphs_printed(whole.effects) == file_graphs(s, given),
    ensures
        is_outcome(s, filename, report, given, whole),
{
    assert(written(whole.effects) == Seq::<EffectView>::empty()) by {
        graphs_of_file_are_printed(s, filename, report, given);
        graphs_write_nothing(s, given.namespace@);
    }
    assert(whole.state.wait == FileWait::Ended(Verdict::Accepted) && whole.report
        == with_contracts(with_diagnostics(s, report, given), filename, Map::empty())) by {
        graphs_of_file_are_printed(s, filename, report, given);
    }
    assert(file_written(s, given) == Seq::<EffectView>::empty());
}

/// The work on a file in order, for a target other than Solana, with JSON asked for.
proof fn reported_file_is_worked_on<E, A>(
    s: Settings,
    filename: Seq<char>,
    report: Report<E, A>,
    given: Answers<E, A>,
    whole: FileStep<E, A>,
)
    requires
        s.emit is None,
        s.std_json,
        written(whole.effects) == Seq::<EffectView>::empty(),
        compilable(given),
        s.target != Target::Solana,
        whole == work(s, untouched::<A>(filename), report, given),
        whole.state.namespace == given.namespace@,
        graphs_printed(whole.effects) == file_graphs(s, given),
    ensures
        is_outcome(s, filename, report, given, whole),
{
    good_file_is_reported(s, filename, report, given);
}

/// The work on a file in order, for a target other than Solana, with nothing but code asked for.
proof fn written_file_is_worked_on<E, A>(
    s: Settings,
    filename: Seq<char>,
    report: Report<E, A>,
    given: Answers<E, A>,
    whole: FileStep<E, A>,
)
    requires
        s.emit is None,
        !s.std_json,
        compilable(given),
        s.target != Target::Solana,
        whole == work(s, untouched::<A>(filename), report, given),
        whole.state.namespace == given.namespace@,
        graphs_printed(whole.effects) == file_graphs(s, given),
    ensures
        is_outcome(s, filename, report, given, whole),
{
    good_file_is_written(s, filename, report, given);
}

/// The work on a file in order, for a target other than Solana, with LLVM, object or assembly code
/// asked for.
proof fn staged_file_is_worked_on<E, A>(
    s: Settings,
    filename: Seq<char>,
    report: Report<E, A>,
    given: Answers<E, A>,
    whole: FileStep<E, A>,
)
    requires
        s.emit is Some,
        s.emit != Some(Emit::AstDot),
        s.emit != Some(Emit::Cfg),
        compilable(given),
        s.target != Target::Solana,
        whole == work(s, untouched::<A>(filename), report, given),
        whole.state.namespace == given.namespace@,
        graphs_printed(whole.effects) == file_graphs(s, given),
    ensures
        is_outcome(s, filename, report, given, whole),
{
    match s.emit->0 {
        Emit::Object => file_is_generated(s, filename, report, given, Generate::Object),
        Emit::Asm => file_is_generated(s, filename, report, given, Generate::Assembly),
        Emit::LlvmIr => file_is_dumped(s, filename, report, given),
        Emit::LlvmBc => file_is_dumped(s, filename, report, given),
        _ => {},
    }
}

/// The work on a file, whatever is asked for, comes to what it has to come to.
pub proof fn file_is_worked_on<E, A>(
    s: Settings,
    filename: Seq<char>,
    report: Report<E, A>,
    given: Answers<E, A>,
)
    requires
        answerable(s, given),
    ensures
        is_outcome(
            s,
            filename,
            report,
            given,
            work(s, untouched::<A>(filename), report, given),
        ),
{
    let whole = work(s, untouched::<A>(filename), report, given);
    graphs_are_the_graphs_of_file(s, filename, report, given);
    work_in_order(s, untouched::<A>(filename), report, given);
    work_keeps_namespace(s, untouched::<A>(filename), report, given);
    if s.emit == Some(Emit::AstDot) || !compilable(given) || s.target == Target::Solana {
        unmade_file_is_worked_on(s, filename, report, given, whole);
    } else if s.emit == Some(Emit::Cfg) {
        printed_file_is_worked_on(s, filename, report, given, whole);
    } else if s.emit is None && s.std_json {
        json_writes_nothing(s, whole.effects);
        reported_file_is_worked_on(s, filename, report, given, whole);
    } else if s.emit is None {
        written_file_is_worked_on(s, filename, report, given, whole);
    } else {
        staged_file_is_worked_on(s, filename, report, given, whole);
    }
}

/// Why code asked for cannot be made of the first input from number `i` on of which it cannot, if
/// there is one. The run ends there.
pub open spec fn inputs_failure<E, A>(
    s: Settings,
    files: spec_fn(nat) -> Answers<E, A>,
    inputs: nat,
    i: nat,
) -> Option<Seq<char>>
    decreases inputs - i,
{
    if i >= inputs {
        None
    } else if code_failure(s, files(i)) is Some {
        code_failure(s, files(i))
    } else {
        inputs_failure(s, files, inputs, i + 1)
    }
}

/// What is written of the inputs from number `i` on, up to where the run ends.
pub open spec fn inputs_written<E, A>(
    s: Settings,
    files: spec_fn(nat) -> Answers<E, A>,
    inputs: nat,
    i: nat,
) -> Seq<EffectView>
    decreases inputs - i,
{
    if i >= inputs {
        Seq::empty()
    } else if code_failure(s, files(i)) is Some {
        file_written(s, files(i))
    } else {
        file_written(s, files(i)) + inputs_written(s, files, inputs, i + 1)
    }
}

/// The control flow graphs that are printed of the inputs from number `i` on.
pub open spec fn inputs_graphs<E, A>(
    s: Settings,
    files: spec_fn(nat) -> Answers<E, A>,
    inputs: nat,
    i: nat,
) -> Seq<EffectView>
    decreases inputs - i,
{
    if i >= inputs {
        Seq::empty()
    } else {
        file_graphs(s, files(i)) + inputs_graphs(s, files, inputs, i + 1)
    }
}

/// The JSON result after the inputs from number `i` on, up to where the run ends.
pub open spec fn inputs_recorded<E, A>(
    s: Settings,
    inputs: Seq<Seq<char>>,
    files: spec_fn(nat) -> Answers<E, A>,
    report: Report<E, A>,
    i: nat,
) -> Report<E, A>
    decreases inputs.len() - i,
{
    if i >= inputs.len() {
        report
    } else {
        let after = file_recorded(s, inputs[i as int], report, files(i));
        if code_failure(s, files(i)) is Some {
            after
        } else {
            inputs_recorded(s, inputs, files, after, i + 1)
        }
    }
}

/// What the compiler told of the inputs from number `i` on.
pub open spec fn namespaces_from<E, A>(
    files: spec_fn(nat) -> Answers<E, A>,
    inputs: nat,
    i: nat,
) -> Seq<NamespaceView> {
    Seq::new((inputs - i) as nat, |k: int| files((i + k) as nat).namespace@)
}

/// What the work on some inputs came to: the JSON result, what was done, the files kept, whether any
/// file was rejected, and the exit code where the run has ended.
#[verifier::ext_equal]
pub struct InputsOutcome<E, A> {
    pub report: Report<E, A>,
    pub effects: Seq<EffectView>,
    pub kept: Seq<NamespaceView>,
    pub rejected: bool,
    pub exit: Option<i32>,
}

/// The work on the inputs from number `i` on, one after the other. What is done with an accepted
/// file ends with its being kept.
pub open spec fn work_on_inputs<E, A>(
    s: Settings,
    inputs: Seq<Seq<char>>,
    files: spec_fn(nat) -> Answers<E, A>,
    report: Report<E, A>,
    i: nat,
) -> InputsOutcome<E, A>
    decreases inputs.len() - i,
{
    if i >= inputs.len() {
        InputsOutcome {
            report,
            effects: Seq::empty(),
            kept: Seq::empty(),
            rejected: false,
            exit: None,
        }
    } else {
        let w = work(s, untouched::<A>(inputs[i as int]), report, files(i));
        let rest = work_on_inputs(s, inputs, files, w.report, i + 1);
        match w.state.wait {
            FileWait::Ended(Verdict::Accepted) => InputsOutcome {
                effects: w.effects.push(Effect::Keep) + rest.effects,
                kept: seq![w.state.namespace] + rest.kept,
                ..rest
            },
            FileWait::Ended(Verdict::Rejected) => InputsOutcome {
                effects: w.effects + rest.effects,
                rejected: true,
                ..rest
            },
            FileWait::Ended(Verdict::Exit(code)) => InputsOutcome {
                report: w.report,
                effects: w.effects,
                kept: Seq::empty(),
                rejected: false,
                exit: Some(code),
            },
            _ => InputsOutcome {
                report: w.report,
                effects: w.effects,
                kept: Seq::empty(),
                rejected: false,
                exit: None,
            },
        }
    }
}

/// Whether one of the inputs from number `i` on is rejected.
pub open spec fn any_rejected<E, A>(
    s: Settings,
    files: spec_fn(nat) -> Answers<E, A>,
    inputs: nat,
    i: nat,
) -> bool {
    exists|k: nat|
        i <= k < inputs && file_verdict(s, #[trigger] files(k)) == Verdict::Rejected
}

/// The work on the inputs from number `i` on, whatever is asked for: what is written and printed,
/// what is recorded, how it ends, and which files are kept where none is rejected.
pub proof fn inputs_are_worked_on<E, A>(
    s: Settings,
    inputs: Seq<Seq<char>>,
    files: spec_fn(nat) -> Answers<E, A>,
    report: Report<E, A>,
    i: nat,
)
    requires
        i <= inputs.len(),
        forall|k: nat| i <= k < inputs.len() ==> answerable(s, #[trigger] files(k)),
    ensures
        ({
            let n = inputs.len();
            let whole = work_on_inputs(s, inputs, files, report, i);
            &&& written(whole.effects) == inputs_written(s, files, n, i)
            &&& graphs_printed(whole.effects) == inputs_graphs(s, files, n, i)
            &&& whole.report == inputs_recorded(s, inputs, files, report, i)
            &&& match inputs_failure(s, files, n, i) {
                Some(reason) => {
                    &&& whole.exit == Some(1i32)
                    &&& ends_with(whole.effects, Effect::Print("error: "@ + reason))
                },
                None => {
                    &&& whole.exit is None
                    &&& whole.rejected == any_rejected(s, files, n, i)
                    &&& !whole.rejected ==> whole.kept == namespaces_from(files, n, i)
                },
            }
        }),
    decreases inputs.len() - i,
{
    let n = inputs.len();
    let whole = work_on_inputs(s, inputs, files, report, i);
    let none = Seq::<EffectView>::empty();
    written_none(none);
    graphs_printed_none(none);
    if i < n {
        let given = files(i);
        assert(answerable(s, given));
        file_is_worked_on(s, inputs[i as int], report, given);
        let w = work(s, untouched::<A>(inputs[i as int]), report, given);
        inputs_are_worked_on(s, inputs, files, w.report, i + 1);
        let rest = work_on_inputs(s, inputs, files, w.report, i + 1);
        let keep = seq![Effect::<Seq<char>, Seq<u8>>::Keep];
        let tail = if file_verdict(s, given) == Verdict::Accepted {
            keep + rest.effects
        } else {
            rest.effects
        };
        written_none(keep);
        written_add(keep, rest.effects);
        written_add(w.effects, tail);
        graphs_printed_none(keep);
        graphs_printed_add(keep, rest.effects);
        graphs_printed_add(w.effects, tail);
        assert(w.effects.push(Effect::Keep) + rest.effects =~= w.effects + (keep + rest.effects));
        assert(none + written(rest.effects) =~= written(rest.effects));
        assert(none + graphs_printed(rest.effects) =~= graphs_printed(rest.effects));
        assert(file_graphs(s, given) + none =~= file_graphs(s, given));
        if code_failure(s, given) is Some {
            no_graphs_of_code(s, files, n, i);
        } else {
            if file_verdict(s, given) == Verdict::Rejected {
                assert(file_verdict(s, files(i)) == Verdict::Rejected);
            }
            assert(namespaces_from(files, n, i) =~= seq![given.namespace@] + namespaces_from(
                files,
                n,
                i + 1,
            ));
            assert(any_rejected(s, files, n, i) == (file_verdict(s, given) == Verdict::Rejected
                || any_rejected(s, files, n, i + 1)));
        }
    } else {
        assert(namespaces_from(files, n, i) =~= Seq::empty());
    }
}

/// No control flow graphs are printed where code is asked for.
proof fn no_graphs_of_code<E, A>(
    s: Settings,
    files: spec_fn(nat) -> Answers<E, A>,
    inputs: nat,
    i: nat,
)
    requires
        s.emit != Some(Emit::Cfg),
    ensures
        inputs_graphs(s, files, inputs, i) == Seq::<EffectView>::empty(),
    decreases inputs - i,
{
    if i < inputs {
        no_graphs_of_code(s, files, inputs, i + 1);
        assert(inputs_graphs(s, files, inputs, i) =~= Seq::<EffectView>::empty());
    }
}

} // verus!
