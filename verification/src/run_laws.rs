//! What holds of a whole run, whatever the compiler answers.
use vstd::prelude::*;

use crate::bundle::{
    bundle_answers, bundle_step, next_abi, next_concrete, BundleState, BundleStep, BundleWait,
};
use crate::compilation::{
    compilation_step, initial, next_file, CompilationState, CompilationStep, Stage,
};
use crate::file_laws::{
    all_in_order, answers_left, contracts_left, file_step_advances, file_step_in_order, in_order,
    intermediates_in_order, visit_in_order, wait_in_order, written, written_add, written_none,
    written_push,
};
use crate::json::Report;
use crate::output::{Content, Effect, EffectView};
use crate::outside::hex_upper;
use crate::process_file::{file_step, untouched, visit, wait_contract, FileState, FileWait};
use crate::protocol::{numbered, Event, Generate, NamespaceView, Verdict};
use crate::settings::{Emit, Settings, Target};
use crate::step_laws::placed;

verus! {

/// Whether the settings let the linking wait for this.
pub open spec fn bundle_in_order(s: Settings, wait: BundleWait) -> bool {
    match wait {
        BundleWait::Binary => true,
        BundleWait::Generated(generate) => s.emit == Some(
            match generate {
                Generate::Object => Emit::Object,
                Generate::Assembly => Emit::Asm,
            },
        ),
        BundleWait::Linked => s.emit is None,
        BundleWait::AbiFile(_, _) => s.emit is None && !s.std_json,
        BundleWait::Ended(_) => true,
    }
}

/// The next concrete contract is one of the files', is concrete, and does not lie before where the
/// search began.
pub proof fn next_concrete_is_there(namespaces: Seq<NamespaceView>, n: nat, c: nat)
    ensures
        next_concrete(namespaces, n, c) matches Some((m, d)) ==> {
            &&& m < namespaces.len()
            &&& d < namespaces[m as int].contracts.len()
            &&& namespaces[m as int].contracts[d as int].is_concrete
            &&& n < m || (n == m && c <= d)
        },
    decreases namespaces.len() - n, namespaces[n as int].contracts.len() - c,
{
    if n < namespaces.len() {
        if c >= namespaces[n as int].contracts.len() {
            next_concrete_is_there(namespaces, n + 1, 0);
        } else if !namespaces[n as int].contracts[c as int].is_concrete {
            next_concrete_is_there(namespaces, n, c + 1);
        }
    }
}

/// Every answer on the linking leads only to effects and to a wait that the settings ask for.
pub proof fn bundle_step_in_order<E, A>(
    s: Settings,
    namespaces: Seq<NamespaceView>,
    state: BundleState,
    report: Report<E, A>,
    event: Event<E, A>,
)
    requires
        state.valid(namespaces),
        bundle_in_order(s, state.wait),
        bundle_answers(state.wait, event),
    ensures
        all_in_order(s, bundle_step(s, namespaces, state, report, event).effects),
        bundle_in_order(s, bundle_step(s, namespaces, state, report, event).state.wait),
        bundle_step(s, namespaces, state, report, event).state.valid(namespaces),
        bundle_step(s, namespaces, state, report, event).state.wait matches BundleWait::Ended(
            verdict,
        ) ==> verdict == Verdict::Accepted || (verdict == Verdict::Exit(1) && (s.emit == Some(
            Emit::Object,
        ) || s.emit == Some(Emit::Asm))),
{
    next_concrete_is_there(namespaces, 0, 0);
    if let BundleWait::AbiFile(n, c) = state.wait {
        next_concrete_is_there(namespaces, n as nat, (c + 1) as nat);
    }
    if let Event::Emitted(binary) = event {
        intermediates_in_order(s, binary);
    }
}

/// What holds of every state that a compilation comes to. While a file is in hand, a file has been
/// rejected exactly when fewer have been kept than were worked on. Files are linked only for Solana
/// and only once all have been kept. A run that is over ends with 0, unless a rejected file was not
/// reported as JSON or code asked for could not be made: then with 1. One that ends with 0 has kept
/// every file, or has noted that one was rejected.
pub open spec fn sound<E, A>(state: CompilationState<E, A>) -> bool {
    let s = state.settings;
    &&& state.valid()
    &&& match state.stage {
        Stage::File(i) => {
            &&& state.job.filename == state.inputs[i as int]
            &&& wait_in_order(s, state.job.wait)
            &&& !(state.job.wait is Ended)
            &&& state.namespaces.len() <= i
            &&& state.errors == (state.namespaces.len() < i)
        },
        Stage::Bundle => {
            &&& s.target == Target::Solana
            &&& s.emit != Some(Emit::AstDot)
            &&& !state.errors
            &&& state.namespaces.len() == state.inputs.len()
            &&& bundle_in_order(s, state.bundle.wait)
            &&& !(state.bundle.wait is Ended)
        },
        Stage::Over(code) => {
            &&& code == 0 || code == 1
            &&& code == 1 ==> (state.errors && !s.std_json && s.emit != Some(Emit::AstDot))
                || s.emit == Some(Emit::Object) || s.emit == Some(Emit::Asm)
            &&& code == 0 ==> s.emit == Some(Emit::AstDot) || s.std_json || !state.errors
            &&& code == 0 ==> state.namespaces.len() <= state.inputs.len() && state.errors == (
            state.namespaces.len() < state.inputs.len())
        },
    }
}

/// Where a file ends the run at once, code asked for could not be made.
proof fn file_exit_code<E, A>(state: CompilationState<E, A>, event: Event<E, A>)
    requires
        sound(state),
        state.stage is File,
        state.answered_by(event),
    ensures
        ({
            let r = file_step(state.settings, state.job, state.report, event);
            &&& r.state.filename == state.job.filename
            &&& r.state.wait matches FileWait::Ended(Verdict::Exit(code)) ==> code == 1 && (
            state.settings.emit == Some(Emit::Object) || state.settings.emit == Some(Emit::Asm))
            &&& r.state.wait == FileWait::Ended(Verdict::Rejected) ==> state.settings.emit != Some(
                Emit::AstDot,
            )
        }),
{
    let s = state.settings;
    file_step_in_order(s, state.job, state.report, event);
    if let Event::Resolved(namespace) = event {
        assert(namespace.contracts.len() <= usize::MAX);
        visit_in_order(s, namespace@, 0);
    }
    visit_in_order(s, state.job.namespace, 0);
    if let Some(i) = wait_contract(state.job.wait) {
        visit_in_order(s, state.job.namespace, (i + 1) as nat);
    }
}

/// Going on with the next file leads from what holds of every state to what holds of every state.
proof fn next_file_is_sound<E, A>(
    state: CompilationState<E, A>,
    effects: Seq<EffectView>,
    i: nat,
)
    requires
        state.inputs.len() <= usize::MAX,
        numbered(state.namespaces),
        i <= state.inputs.len(),
        state.namespaces.len() <= i,
        state.errors == (state.namespaces.len() < i),
        all_in_order(state.settings, effects),
    ensures
        sound(next_file(state, effects, i).state),
        all_in_order(state.settings, next_file(state, effects, i).effects),
{
}

/// Every answer leads from what holds of every state to what holds of every state, and only to
/// effects that the settings ask for.
pub proof fn compilation_step_is_sound<E, A>(state: CompilationState<E, A>, event: Event<E, A>)
    requires
        sound(state),
        state.answered_by(event),
    ensures
        sound(compilation_step(state, event).state),
        all_in_order(state.settings, compilation_step(state, event).effects),
        compilation_step(state, event).state.settings == state.settings,
        compilation_step(state, event).state.inputs == state.inputs,
{
    let s = state.settings;
    match state.stage {
        Stage::File(i) => {
            file_step_in_order(s, state.job, state.report, event);
            file_exit_code(state, event);
            let r = file_step(s, state.job, state.report, event);
            let next = CompilationState { job: r.state, report: r.report, ..state };
            match r.state.wait {
                FileWait::Ended(Verdict::Accepted) => {
                    let kept = CompilationState {
                        namespaces: next.namespaces.push(next.job.namespace),
                        job: untouched(Seq::empty()),
                        ..next
                    };
                    next_file_is_sound(kept, r.effects.push(Effect::Keep), (i + 1) as nat);
                },
                FileWait::Ended(Verdict::Rejected) => {
                    let rejected = CompilationState { errors: true, ..next };
                    next_file_is_sound(rejected, r.effects, (i + 1) as nat);
                },
                _ => {},
            }
        },
        Stage::Bundle => {
            bundle_step_in_order(s, state.namespaces, state.bundle, state.report, event);
        },
        Stage::Over(_) => {},
    }
}

/// A run through a list of answers: the state it comes to and everything done on the way.
pub open spec fn run<E, A>(
    state: CompilationState<E, A>,
    events: Seq<Event<E, A>>,
) -> CompilationStep<E, A>
    decreases events.len(),
{
    if events.len() == 0 {
        CompilationStep { state, effects: Seq::empty() }
    } else {
        let first = run(state, events.drop_last());
        let last = compilation_step(first.state, events.last());
        CompilationStep { effects: first.effects + last.effects, ..last }
    }
}

/// Whether each event of the list answers what is waited for when it comes.
pub open spec fn all_answered<E, A>(
    state: CompilationState<E, A>,
    events: Seq<Event<E, A>>,
) -> bool
    decreases events.len(),
{
    events.len() == 0 || (all_answered(state, events.drop_last()) && run(
        state,
        events.drop_last(),
    ).state.answered_by(events.last()))
}

/// Whatever the compiler answers, every state that a run comes to is sound, and everything that is
/// done is what the settings ask for: all files lie in the output directory, information is printed
/// only where the run is verbose, and with JSON and no early stage asked for no file is written and
/// nothing but the JSON result is printed on standard output.
pub proof fn run_is_sound<E, A>(
    settings: Settings,
    inputs: Seq<Seq<char>>,
    target: Seq<char>,
    events: Seq<Event<E, A>>,
)
    requires
        0 < inputs.len() <= usize::MAX,
        all_answered(initial::<E, A>(settings, inputs, target), events),
    ensures
        sound(run(initial::<E, A>(settings, inputs, target), events).state),
        all_in_order(settings, run(initial::<E, A>(settings, inputs, target), events).effects),
        run(initial::<E, A>(settings, inputs, target), events).state.settings == settings,
        run(initial::<E, A>(settings, inputs, target), events).state.inputs == inputs,
    decreases events.len(),
{
    let start = initial::<E, A>(settings, inputs, target);
    if events.len() > 0 {
        run_is_sound::<E, A>(settings, inputs, target, events.drop_last());
        let first = run(start, events.drop_last());
        compilation_step_is_sound(first.state, events.last());
        let last = compilation_step(first.state, events.last());
        assert forall|i: int|
            0 <= i < (first.effects + last.effects).len() implies in_order(
            settings,
            #[trigger] (first.effects + last.effects)[i],
        ) by {
            if i < first.effects.len() {
                assert(in_order(settings, first.effects[i]));
            } else {
                assert(in_order(settings, last.effects[i - first.effects.len()]));
            }
        }
    }
}

/// A run that is over ends with 0 or 1. Where a file was rejected it ends with 1, unless JSON or the
/// syntax trees were asked for; where it ends with 0 and neither was asked for, every file was kept.
pub proof fn exit_code_tells_of_rejection<E, A>(
    settings: Settings,
    inputs: Seq<Seq<char>>,
    target: Seq<char>,
    events: Seq<Event<E, A>>,
    code: i32,
)
    requires
        0 < inputs.len() <= usize::MAX,
        all_answered(initial::<E, A>(settings, inputs, target), events),
        run(initial::<E, A>(settings, inputs, target), events).state.stage == Stage::Over(code),
    ensures
        code == 0 || code == 1,
        ({
            let state = run(initial::<E, A>(settings, inputs, target), events).state;
            let lenient = settings.std_json || settings.emit == Some(Emit::AstDot);
            &&& state.errors && !lenient ==> code == 1
            &&& code == 0 && !lenient ==> state.namespaces.len() == inputs.len()
        }),
{
    run_is_sound::<E, A>(settings, inputs, target, events);
}

/// The number of times that the JSON result is printed.
pub open spec fn json_prints(effects: Seq<EffectView>) -> nat {
    effects.filter(|e: EffectView| e is PrintJson).len()
}

/// Whether an effect is left to the run as a whole.
pub open spec fn of_the_run(effect: EffectView) -> bool {
    effect is PrintJson || effect is Keep || effect is GenerateDocs || effect is Error
}

/// Whether none of the effects is left to the run as a whole.
pub open spec fn none_of_the_run(effects: Seq<EffectView>) -> bool {
    forall|i: int| 0 <= i < effects.len() ==> !of_the_run(#[trigger] effects[i])
}

proof fn visit_leaves_the_run(s: Settings, namespace: NamespaceView, i: nat)
    ensures
        none_of_the_run(visit(s, namespace, i).effects),
    decreases namespace.contracts.len() - i,
{
    if i < namespace.contracts.len() {
        visit_leaves_the_run(s, namespace, i + 1);
    }
}

proof fn file_step_leaves_the_run<E, A>(
    s: Settings,
    state: FileState<A>,
    report: Report<E, A>,
    event: Event<E, A>,
)
    ensures
        none_of_the_run(file_step(s, state, report, event).effects),
{
    if let Event::Resolved(namespace) = event {
        visit_leaves_the_run(s, namespace@, 0);
    }
    visit_leaves_the_run(s, state.namespace, 0);
    if let Some(i) = wait_contract(state.wait) {
        visit_leaves_the_run(s, state.namespace, (i + 1) as nat);
    }
}

proof fn bundle_step_leaves_the_run<E, A>(
    s: Settings,
    namespaces: Seq<NamespaceView>,
    state: BundleState,
    report: Report<E, A>,
    event: Event<E, A>,
)
    ensures
        none_of_the_run(bundle_step(s, namespaces, state, report, event).effects),
{
}

proof fn no_json_prints(effects: Seq<EffectView>)
    requires
        forall|i: int| 0 <= i < effects.len() ==> !(#[trigger] effects[i] is PrintJson),
    ensures
        json_prints(effects) == 0,
    decreases effects.len(),
{
    reveal(Seq::filter);
    if effects.len() > 0 {
        assert(effects.last() == effects[effects.len() - 1]);
        assert forall|i: int| 0 <= i < effects.drop_last().len() implies !(
        #[trigger] effects.drop_last()[i] is PrintJson) by {
            assert(effects.drop_last()[i] == effects[i]);
        }
        no_json_prints(effects.drop_last());
    }
}

proof fn json_prints_push(effects: Seq<EffectView>, effect: EffectView)
    ensures
        json_prints(effects.push(effect)) == json_prints(effects) + (if effect is PrintJson {
            1nat
        } else {
            0nat
        }),
{
    reveal(Seq::filter);
    assert(effects.push(effect).drop_last() =~= effects);
}

proof fn json_prints_add(a: Seq<EffectView>, b: Seq<EffectView>)
    ensures
        json_prints(a + b) == json_prints(a) + json_prints(b),
{
    Seq::filter_distributes_over_add(a, b, |e: EffectView| e is PrintJson);
}

/// Whether the state is one in which the JSON result has been printed.
pub open spec fn json_is_out<E, A>(state: CompilationState<E, A>) -> bool {
    state.stage == Stage::Over(0) && state.settings.std_json && state.settings.emit != Some(
        Emit::AstDot,
    )
}

/// An answer leads to the JSON result being printed, once, exactly when it ends the run with 0, and
/// JSON and no syntax trees were asked for.
proof fn step_prints_json_at_the_end<E, A>(state: CompilationState<E, A>, event: Event<E, A>)
    requires
        sound(state),
        state.answered_by(event),
    ensures
        json_prints(compilation_step(state, event).effects) == (if json_is_out(
            compilation_step(state, event).state,
        ) {
            1nat
        } else {
            0nat
        }),
{
    let s = state.settings;
    match state.stage {
        Stage::File(i) => {
            file_step_leaves_the_run(s, state.job, state.report, event);
            file_exit_code(state, event);
            let r = file_step(s, state.job, state.report, event);
            no_json_prints(r.effects);
            let kept = r.effects.push(Effect::Keep);
            json_prints_push(r.effects, Effect::Keep);
            json_prints_push(r.effects, Effect::PrintJson);
            json_prints_push(kept, Effect::PrintJson);
            let line = Effect::Error("error: not all contracts are valid"@);
            json_prints_push(r.effects, line);
            json_prints_push(kept, line);
        },
        Stage::Bundle => {
            bundle_step_leaves_the_run(s, state.namespaces, state.bundle, state.report, event);
            bundle_step_in_order(s, state.namespaces, state.bundle, state.report, event);
            let r = bundle_step(s, state.namespaces, state.bundle, state.report, event);
            no_json_prints(r.effects);
            json_prints_push(r.effects, Effect::PrintJson);
        },
        Stage::Over(_) => {},
    }
}

/// The JSON result is printed once in a run that ends with 0 where JSON and no syntax trees were
/// asked for, and in no other run and not before its end.
pub proof fn json_is_printed_once<E, A>(
    settings: Settings,
    inputs: Seq<Seq<char>>,
    target: Seq<char>,
    events: Seq<Event<E, A>>,
)
    requires
        0 < inputs.len() <= usize::MAX,
        all_answered(initial::<E, A>(settings, inputs, target), events),
    ensures
        json_prints(run(initial::<E, A>(settings, inputs, target), events).effects) == (
        if json_is_out(run(initial::<E, A>(settings, inputs, target), events).state) {
            1nat
        } else {
            0nat
        }),
    decreases events.len(),
{
    let start = initial::<E, A>(settings, inputs, target);
    if events.len() == 0 {
        no_json_prints(Seq::empty());
    } else {
        json_is_printed_once::<E, A>(settings, inputs, target, events.drop_last());
        run_is_sound::<E, A>(settings, inputs, target, events.drop_last());
        let first = run(start, events.drop_last());
        step_prints_json_at_the_end(first.state, events.last());
        let last = compilation_step(first.state, events.last());
        json_prints_add(first.effects, last.effects);
    }
}

/// How far a compilation has yet to go, the coarsest measure first: files, whether the file in hand
/// is yet to be resolved, contracts, and answers.
pub open spec fn distance<E, A>(state: CompilationState<E, A>) -> (nat, nat, nat, nat) {
    match state.stage {
        Stage::File(i) => (
            (state.inputs.len() - i + 1) as nat,
            if state.job.wait is Resolve {
                1
            } else {
                0
            },
            contracts_left(state.job.namespace, state.job.wait),
            answers_left(state.job.wait),
        ),
        Stage::Bundle => match state.bundle.wait {
            BundleWait::Binary => (1, 0, state.namespaces.len() + 1, 2),
            BundleWait::Generated(_) => (1, 0, state.namespaces.len() + 1, 1),
            BundleWait::Linked => (1, 0, state.namespaces.len() + 1, 1),
            BundleWait::AbiFile(n, c) => (
                1,
                0,
                (state.namespaces.len() - n) as nat,
                (state.namespaces[n as int].contracts.len() - c) as nat,
            ),
            BundleWait::Ended(_) => (1, 0, 0, 0),
        },
        Stage::Over(_) => (0, 0, 0, 0),
    }
}

/// Whether the first distance is less than the second.
pub open spec fn nearer(a: (nat, nat, nat, nat), b: (nat, nat, nat, nat)) -> bool {
    a.0 < b.0 || (a.0 == b.0 && (a.1 < b.1 || (a.1 == b.1 && (a.2 < b.2 || (a.2 == b.2 && a.3
        < b.3)))))
}

/// Every answer brings a compilation nearer to its end, whatever the answer is. So every run comes
/// to an end.
pub proof fn compilation_step_advances<E, A>(state: CompilationState<E, A>, event: Event<E, A>)
    requires
        sound(state),
        state.answered_by(event),
    ensures
        nearer(distance(compilation_step(state, event).state), distance(state)),
{
    let s = state.settings;
    match state.stage {
        Stage::File(i) => {
            file_step_advances(s, state.job, state.report, event);
        },
        Stage::Bundle => {
            next_concrete_is_there(state.namespaces, 0, 0);
            if let BundleWait::AbiFile(n, c) = state.bundle.wait {
                next_concrete_is_there(state.namespaces, n as nat, (c + 1) as nat);
            }
        },
        Stage::Over(_) => {},
    }
}

/// The ABI files of the concrete contracts from contract `c` of file `n` on, for given contents and
/// extensions.
pub open spec fn abi_files(
    s: Settings,
    namespaces: Seq<NamespaceView>,
    content: spec_fn(nat, nat) -> String,
    extension: spec_fn(nat, nat) -> String,
    n: nat,
    c: nat,
) -> Seq<EffectView>
    decreases namespaces.len() - n, namespaces[n as int].contracts.len() - c,
{
    if n >= namespaces.len() {
        Seq::empty()
    } else if c >= namespaces[n as int].contracts.len() {
        abi_files(s, namespaces, content, extension, n + 1, 0)
    } else if namespaces[n as int].contracts[c as int].is_concrete {
        seq![
            Effect::Save(
                placed(
                    s,
                    namespaces[n as int].contracts[c as int].name@ + "."@ + extension(n, c)@,
                ),
                Content::Text(content(n, c)@),
            ),
        ] + abi_files(s, namespaces, content, extension, n, c + 1)
    } else {
        abi_files(s, namespaces, content, extension, n, c + 1)
    }
}

/// The part of the linking in which the ABI files are written, up to its end, for given contents and
/// extensions.
pub open spec fn write_abis<E, A>(
    s: Settings,
    namespaces: Seq<NamespaceView>,
    state: BundleState,
    report: Report<E, A>,
    content: spec_fn(nat, nat) -> String,
    extension: spec_fn(nat, nat) -> String,
) -> BundleStep<E, A>
    decreases
            match state.wait {
                BundleWait::AbiFile(n, c) => namespaces.len() - n,
                _ => 0,
            },
            match state.wait {
                BundleWait::AbiFile(n, c) => namespaces[n as int].contracts.len() - c,
                _ => 0,
            },
{
    match state.wait {
        BundleWait::AbiFile(n, c) => if state.valid(namespaces) {
            let event = Event::<E, A>::AbiFile {
                content: content(n as nat, c as nat),
                extension: extension(n as nat, c as nat),
            };
            let first = bundle_step(s, namespaces, state, report, event);
            proof {
                next_concrete_is_there(namespaces, n as nat, (c + 1) as nat);
            }
            let rest = write_abis(
                s,
                namespaces,
                first.state,
                first.report,
                content,
                extension,
            );
            BundleStep { effects: first.effects + rest.effects, ..rest }
        } else {
            BundleStep { state, report, effects: Seq::empty() }
        },
        _ => BundleStep { state, report, effects: Seq::empty() },
    }
}

/// From contract `c` of file `n` on the linking writes the ABI of each concrete contract, in order,
/// and nothing else, and is then over.
pub proof fn abis_are_written<E, A>(
    s: Settings,
    namespaces: Seq<NamespaceView>,
    state: BundleState,
    report: Report<E, A>,
    content: spec_fn(nat, nat) -> String,
    extension: spec_fn(nat, nat) -> String,
    n: nat,
    c: nat,
)
    requires
        numbered(namespaces),
        state.wait == next_abi(namespaces, n, c),
    ensures
        ({
            let whole = write_abis::<E, A>(s, namespaces, state, report, content, extension);
            &&& written(whole.effects) == abi_files(s, namespaces, content, extension, n, c)
            &&& whole.state.wait == BundleWait::Ended(Verdict::Accepted)
            &&& whole.report == report
        }),
    decreases namespaces.len() - n, namespaces[n as int].contracts.len() - c,
{
    let none = Seq::<EffectView>::empty();
    let whole = write_abis::<E, A>(s, namespaces, state, report, content, extension);
    if n >= namespaces.len() {
        written_none(none);
    } else if c >= namespaces[n as int].contracts.len() {
        abis_are_written(s, namespaces, state, report, content, extension, n + 1, 0);
    } else if !namespaces[n as int].contracts[c as int].is_concrete {
        abis_are_written(s, namespaces, state, report, content, extension, n, c + 1);
    } else {
        assert(namespaces[n as int].contracts.len() <= usize::MAX);
        assert(state.wait == BundleWait::AbiFile(n as usize, c as usize));
        let event = Event::<E, A>::AbiFile {
            content: content(n, c),
            extension: extension(n, c),
        };
        let first = bundle_step(s, namespaces, state, report, event);
        abis_are_written(
            s,
            namespaces,
            first.state,
            first.report,
            content,
            extension,
            n,
            c + 1,
        );
        let rest = write_abis(s, namespaces, first.state, first.report, content, extension);
        let abi = first.effects;
        let said = abi.drop_last();
        written_none(said);
        assert(abi =~= said.push(abi.last()));
        written_push(said, abi.last());
        assert(whole.effects == abi + rest.effects);
        written_add(abi, rest.effects);
        assert(written(whole.effects) =~= abi_files(
            s,
            namespaces,
            content,
            extension,
            n,
            c,
        ));
    }
}

/// With no early stage and no JSON asked for, the linked code is written to the file of the bundle,
/// and then the ABI of each concrete contract of every file, in order; nothing else is written. With
/// JSON asked for nothing is written, and the program reported is the linked code.
pub proof fn bundle_is_written_or_reported<E, A>(
    s: Settings,
    namespaces: Seq<NamespaceView>,
    state: BundleState,
    report: Report<E, A>,
    code: Vec<u8>,
    content: spec_fn(nat, nat) -> String,
    extension: spec_fn(nat, nat) -> String,
)
    requires
        numbered(namespaces),
        state.wait == BundleWait::Linked,
    ensures
        ({
            let first = bundle_step(s, namespaces, state, report, Event::<E, A>::Code(code));
            let rest = write_abis(s, namespaces, first.state, first.report, content, extension);
            &&& rest.state.wait == BundleWait::Ended(Verdict::Accepted)
            &&& if s.std_json {
                &&& written(first.effects + rest.effects) == Seq::<EffectView>::empty()
                &&& rest.report == (Report { program: hex_upper(code@), ..report })
            } else {
                &&& written(first.effects + rest.effects) == seq![
                    Effect::Save(placed(s, "bundle"@ + "."@ + s.binary_extension@), Content::Bytes(code@)),
                ] + abi_files(s, namespaces, content, extension, 0, 0)
                &&& rest.report == report
            }
        }),
{
    let first = bundle_step(s, namespaces, state, report, Event::<E, A>::Code(code));
    let rest = write_abis(s, namespaces, first.state, first.report, content, extension);
    let none = Seq::<EffectView>::empty();
    written_none(none);
    if s.std_json {
        assert(first.effects + rest.effects =~= none);
    } else {
        abis_are_written(s, namespaces, first.state, first.report, content, extension, 0, 0);
        let save = Effect::Save(placed(s, "bundle"@ + "."@ + s.binary_extension@), Content::Bytes(code@));
        written_push(none, save);
        assert(none.push(save) =~= seq![save]);
        written_add(first.effects, rest.effects);
    }
}

} // verus!
