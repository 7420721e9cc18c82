//! What a whole compilation brings about, from its first file to its end.
use vstd::prelude::*;

use crate::bundle::{bundle_step, saving_bundle, unlinked, BundleWait};
use crate::compilation::{
    compilation_step, conclude, end_file, initial, next_file, CompilationState, CompilationStep,
    Stage,
};
use crate::file_laws::{
    answer, answers_left, contracts_left, file_step_advances, in_order, work, work_unfolds, written,
    written_add, written_none, written_push, Answers,
};
use crate::input_laws::{
    answerable, any_rejected, code_asked_for, ends_with, file_is_worked_on, file_verdict,
    graphs_printed, graphs_printed_add, graphs_printed_none, inputs_are_worked_on, inputs_failure,
    inputs_graphs, inputs_recorded, inputs_written, namespaces_from, work_on_inputs,
};
use crate::intermediates::{generated, intermediates, Intermediates};
use crate::json::Report;
use crate::output::{Content, Effect, EffectView};
use crate::outside::hex_upper;
use crate::process_file::{answers, file_step, untouched, FileStep, FileWait};
use crate::protocol::{BinaryInfo, Event, NamespaceView, Verdict};
use crate::run_laws::{
    abi_files, bundle_is_written_or_reported, compilation_step_advances, compilation_step_is_sound,
    distance, sound, write_abis,
};
use crate::settings::{Emit, Settings, Target};
use crate::stage_laws::{dumps_are_modules, graphs, llvm_modules};
use crate::step_laws::placed;

verus! {

/// Everything that the compiler would answer on the linking of all files.
pub struct BundleAnswers {
    pub binary: BinaryInfo,
    pub generated: Result<Vec<u8>, String>,
    pub linked: Vec<u8>,
    pub abi_content: spec_fn(nat, nat) -> String,
    pub abi_extension: spec_fn(nat, nat) -> String,
}

/// The answer to what the compilation waits for. `files` gives the answers on each input.
pub open spec fn reply<E, A>(
    state: CompilationState<E, A>,
    files: spec_fn(nat) -> Answers<E, A>,
    bundle: BundleAnswers,
) -> Event<E, A> {
    match state.stage {
        Stage::File(i) => answer(files(i as nat), state.job.wait),
        Stage::Bundle => match state.bundle.wait {
            BundleWait::Binary => Event::Emitted(bundle.binary),
            BundleWait::Generated(_) => Event::Generated(bundle.generated),
            BundleWait::Linked => Event::Code(bundle.linked),
            BundleWait::AbiFile(n, c) => Event::AbiFile {
                content: (bundle.abi_content)(n as nat, c as nat),
                extension: (bundle.abi_extension)(n as nat, c as nat),
            },
            BundleWait::Ended(_) => Event::Code(bundle.linked),
        },
        Stage::Over(_) => Event::Code(bundle.linked),
    }
}

/// A compilation up to its end, with everything that is done on the way, for given answers.
#[verifier::opaque]
pub open spec fn complete<E, A>(
    state: CompilationState<E, A>,
    files: spec_fn(nat) -> Answers<E, A>,
    bundle: BundleAnswers,
) -> CompilationStep<E, A>
    decreases distance(state).0, distance(state).1, distance(state).2, distance(state).3,
{
    let event = reply(state, files, bundle);
    if sound(state) && state.answered_by(event) {
        let first = compilation_step(state, event);
        proof {
            compilation_step_advances(state, event);
        }
        let rest = complete(first.state, files, bundle);
        CompilationStep { effects: first.effects + rest.effects, ..rest }
    } else {
        CompilationStep { state, effects: Seq::empty() }
    }
}

/// A compilation is its first step and then the rest, and nothing where no answer is taken.
proof fn complete_unfolds<E, A>(
    state: CompilationState<E, A>,
    files: spec_fn(nat) -> Answers<E, A>,
    bundle: BundleAnswers,
)
    ensures
        ({
            let event = reply(state, files, bundle);
            let first = compilation_step(state, event);
            let rest = complete(first.state, files, bundle);
            complete(state, files, bundle) == if sound(state) && state.answered_by(event) {
                CompilationStep { effects: first.effects + rest.effects, ..rest }
            } else {
                CompilationStep { state, effects: Seq::empty() }
            }
        }),
{
    reveal(complete);
}

/// What follows a file comes behind what was done before.
proof fn end_file_after<E, A>(
    state: CompilationState<E, A>,
    effects: Seq<EffectView>,
    i: nat,
    verdict: Verdict,
)
    ensures
        end_file(state, effects, i, verdict).state == end_file(
            state,
            Seq::empty(),
            i,
            verdict,
        ).state,
        end_file(state, effects, i, verdict).effects == effects + end_file(
            state,
            Seq::empty(),
            i,
            verdict,
        ).effects,
{
    let none = Seq::<EffectView>::empty();
    let bare = end_file(state, none, i, verdict).effects;
    assert(end_file(state, effects, i, verdict).effects =~= effects + bare);
}

/// A compilation with a file in hand does the whole work on that file and then goes on with what
/// follows it.
#[verifier::rlimit(40)]
proof fn complete_does_the_work<E, A>(
    state: CompilationState<E, A>,
    files: spec_fn(nat) -> Answers<E, A>,
    bundle: BundleAnswers,
    i: usize,
)
    requires
        sound(state),
        state.stage == Stage::File(i),
    ensures
        ({
            let w = work(state.settings, state.job, state.report, files(i as nat));
            w.state.wait matches FileWait::Ended(verdict) ==> {
                let done = CompilationState { job: w.state, report: w.report, ..state };
                let ended = end_file(done, Seq::empty(), i as nat, verdict);
                let rest = complete(ended.state, files, bundle);
                &&& complete(state, files, bundle).state == rest.state
                &&& complete(state, files, bundle).effects == w.effects + (ended.effects
                    + rest.effects)
                &&& sound(ended.state)
            }
        }),
    decreases
            if state.job.wait is Resolve {
                1nat
            } else {
                0nat
            },
            contracts_left(state.job.namespace, state.job.wait),
            answers_left(state.job.wait),
{
    let s = state.settings;
    let given = files(i as nat);
    work_unfolds(s, state.job, state.report, given);
    complete_unfolds(state, files, bundle);
    let event = answer(given, state.job.wait);
    let w = work(s, state.job, state.report, given);
    if answers(state.job.wait, state.job.namespace, event) {
        let r = file_step(s, state.job, state.report, event);
        let next = CompilationState { job: r.state, report: r.report, ..state };
        let first = compilation_step(state, event);
        let none = Seq::<EffectView>::empty();
        compilation_step_is_sound(state, event);
        file_step_advances(s, state.job, state.report, event);
        let tail = work(s, r.state, r.report, given);
        assert(w.effects == r.effects + tail.effects);
        match r.state.wait {
            FileWait::Ended(verdict) => {
                work_unfolds(s, r.state, r.report, given);
                assert(tail == (FileStep { state: r.state, report: r.report, effects: none }));
                assert(w.effects =~= r.effects);
                end_file_after(next, r.effects, i as nat, verdict);
                let ended = end_file(next, none, i as nat, verdict);
                let rest = complete(ended.state, files, bundle);
                assert(complete(state, files, bundle).effects == first.effects + rest.effects);
                assert((r.effects + ended.effects) + rest.effects =~= r.effects + (ended.effects
                    + rest.effects));
            },
            _ => {
                assert(first.state == next);
                complete_does_the_work(next, files, bundle, i);
                if let FileWait::Ended(verdict) = w.state.wait {
                    let done = CompilationState { job: w.state, report: w.report, ..state };
                    let ended = end_file(done, none, i as nat, verdict);
                    let rest = complete(ended.state, files, bundle);
                    let after = ended.effects + rest.effects;
                    assert(complete(next, files, bundle).effects == tail.effects + after);
                    assert(r.effects + (tail.effects + after) =~= (r.effects + tail.effects)
                        + after);
                }
            },
        }
    }
}

/// What follows the last file comes behind what was done before.
proof fn conclude_after<E, A>(state: CompilationState<E, A>, effects: Seq<EffectView>)
    ensures
        conclude(state, effects).state == conclude(state, Seq::empty()).state,
        conclude(state, effects).effects == effects + conclude(state, Seq::empty()).effects,
{
    assert(conclude(state, effects).effects =~= effects + conclude(state, Seq::empty()).effects);
}

/// A run that is over stays as it is.
proof fn complete_is_over<E, A>(
    state: CompilationState<E, A>,
    files: spec_fn(nat) -> Answers<E, A>,
    bundle: BundleAnswers,
)
    requires
        state.stage is Over,
    ensures
        complete(state, files, bundle) == (CompilationStep { state, effects: Seq::empty() }),
{
    complete_unfolds(state, files, bundle);
}

/// A compilation with a file just come in hand works on that file and on those behind it, one after
/// the other. Unless the run ends there, it then does what follows the last, from the state returned.
proof fn complete_works_on_inputs<E, A>(
    state: CompilationState<E, A>,
    files: spec_fn(nat) -> Answers<E, A>,
    bundle: BundleAnswers,
    i: usize,
) -> (done: CompilationState<E, A>)
    requires
        sound(state),
        state.stage == Stage::File(i),
        state.job == untouched::<A>(state.inputs[i as int]),
        forall|k: nat|
            i <= k < state.inputs.len() ==> answerable(state.settings, #[trigger] files(k)),
    ensures
        ({
            let worked = work_on_inputs(
                state.settings,
                state.inputs,
                files,
                state.report,
                i as nat,
            );
            let whole = complete(state, files, bundle);
            match worked.exit {
                Some(code) => {
                    &&& whole.state.stage == Stage::Over(code)
                    &&& whole.state.report == worked.report
                    &&& whole.state.bundle == state.bundle
                    &&& whole.effects == worked.effects
                },
                None => {
                    let end = conclude(done, Seq::empty());
                    let rest = complete(end.state, files, bundle);
                    &&& done.settings == state.settings
                    &&& done.inputs == state.inputs
                    &&& done.report == worked.report
                    &&& done.errors == (state.errors || worked.rejected)
                    &&& done.namespaces == state.namespaces + worked.kept
                    &&& done.bundle == state.bundle
                    &&& sound(end.state)
                    &&& whole.state == rest.state
                    &&& whole.effects == worked.effects + (end.effects + rest.effects)
                },
            }
        }),
    decreases state.inputs.len() - i,
{
    let s = state.settings;
    let none = Seq::<EffectView>::empty();
    let given = files(i as nat);
    assert(answerable(s, given));
    file_is_worked_on(s, state.inputs[i as int], state.report, given);
    let w = work(s, state.job, state.report, given);
    let verdict = file_verdict(s, given);
    complete_does_the_work(state, files, bundle, i);
    let worked_state = CompilationState { job: w.state, report: w.report, ..state };
    let ended = end_file(worked_state, none, i as nat, verdict);
    let rest = complete(ended.state, files, bundle);
    let later = work_on_inputs(s, state.inputs, files, w.report, (i + 1) as nat);
    match verdict {
        Verdict::Exit(_) => {
            complete_is_over(ended.state, files, bundle);
            assert(w.effects + (none + none) =~= w.effects);
            state
        },
        _ => {
            let next = if verdict == Verdict::Accepted {
                CompilationState {
                    namespaces: state.namespaces.push(w.state.namespace),
                    job: untouched(Seq::empty()),
                    ..worked_state
                }
            } else {
                CompilationState { errors: true, ..worked_state }
            };
            let mark = if verdict == Verdict::Accepted {
                none.push(Effect::Keep)
            } else {
                none
            };
            assert(ended == next_file(next, mark, (i + 1) as nat));
            assert(state.namespaces.push(w.state.namespace) + later.kept =~= state.namespaces + (
            seq![w.state.namespace] + later.kept));
            assert(w.effects.push(Effect::Keep) + later.effects =~= w.effects + (none.push(
                Effect::Keep,
            ) + later.effects));
            assert(none + later.effects =~= later.effects);
            if i + 1 < state.inputs.len() {
                let done = complete_works_on_inputs(
                    ended.state,
                    files,
                    bundle,
                    (i + 1) as usize,
                );
                let end = conclude(done, none);
                let last = end.effects + complete(end.state, files, bundle).effects;
                assert(w.effects + (mark + (later.effects + last)) =~= (w.effects + (mark
                    + later.effects)) + last);
                done
            } else {
                conclude_after(next, mark);
                assert(ended == conclude(next, mark));
                let end = conclude(next, none);
                assert(w.effects + ((mark + end.effects) + rest.effects) =~= (w.effects + (mark
                    + none)) + (end.effects + rest.effects));
                assert(state.namespaces + Seq::<NamespaceView>::empty() =~= state.namespaces);
                next
            }
        },
    }
}

/// The linking, once the ABI files are being written, writes them all and ends the run.
proof fn complete_writes_abis<E, A>(
    state: CompilationState<E, A>,
    files: spec_fn(nat) -> Answers<E, A>,
    bundle: BundleAnswers,
)
    requires
        sound(state),
        state.stage == Stage::Bundle,
        state.bundle.wait is AbiFile,
    ensures
        complete(state, files, bundle).state.stage == Stage::Over(0),
        ({
            let abis = write_abis(
                state.settings,
                state.namespaces,
                state.bundle,
                state.report,
                bundle.abi_content,
                bundle.abi_extension,
            );
            &&& complete(state, files, bundle).effects == abis.effects
            &&& complete(state, files, bundle).state.report == abis.report
        }),
    decreases distance(state).0, distance(state).1, distance(state).2, distance(state).3,
{
    let s = state.settings;
    let none = Seq::<EffectView>::empty();
    let event = reply(state, files, bundle);
    complete_unfolds(state, files, bundle);
    let r = bundle_step(s, state.namespaces, state.bundle, state.report, event);
    let first = compilation_step(state, event);
    compilation_step_is_sound(state, event);
    compilation_step_advances(state, event);
    let rest = write_abis(
        s,
        state.namespaces,
        r.state,
        r.report,
        bundle.abi_content,
        bundle.abi_extension,
    );
    if r.state.wait is AbiFile {
        complete_writes_abis(first.state, files, bundle);
    } else {
        assert(r.state.wait == BundleWait::Ended(Verdict::Accepted));
        assert(first.state.stage == Stage::Over(0));
        assert(first.effects == r.effects);
        assert(rest.effects == none);
        complete_is_over(first.state, files, bundle);
    }
}

/// What is written of the linked binary: what the stage asked for makes of it, or, with no stage
/// asked for and unless it is reported as JSON, the linked code and the ABI of each concrete
/// contract, in order.
pub open spec fn linked_written(
    s: Settings,
    namespaces: Seq<NamespaceView>,
    bundle: BundleAnswers,
) -> Seq<EffectView> {
    let code = |extension: Seq<char>|
        match bundle.generated {
            Ok(code) => seq![
                Effect::<Seq<char>, Seq<u8>>::Save(
                    placed(s, bundle.binary.name@ + "."@ + extension),
                    Content::Bytes(code@),
                ),
            ],
            Err(_) => Seq::empty(),
        };
    match s.emit {
        Some(Emit::LlvmIr) => llvm_modules(s, bundle.binary),
        Some(Emit::LlvmBc) => llvm_modules(s, bundle.binary),
        Some(Emit::Object) => code("o"@),
        Some(Emit::Asm) => code("asm"@),
        None => if s.std_json {
            Seq::empty()
        } else {
            seq![
                Effect::Save(
                    placed(s, "bundle"@ + "."@ + s.binary_extension@),
                    Content::Bytes(bundle.linked@),
                ),
            ] + abi_files(s, namespaces, bundle.abi_content, bundle.abi_extension, 0, 0)
        },
        _ => Seq::empty(),
    }
}

/// Why code that is asked for cannot be made of the linked binary, if that is so.
pub open spec fn linking_failure(s: Settings, bundle: BundleAnswers) -> Option<Seq<char>> {
    if code_asked_for(s) is Some {
        match bundle.generated {
            Ok(_) => None,
            Err(reason) => Some(reason@),
        }
    } else {
        None
    }
}

/// The JSON result after the linking: with no stage asked for it holds the linked code.
pub open spec fn linked_recorded<E, A>(
    s: Settings,
    report: Report<E, A>,
    bundle: BundleAnswers,
) -> Report<E, A> {
    if s.std_json && s.emit is None {
        Report { program: hex_upper(bundle.linked@), ..report }
    } else {
        report
    }
}

/// Whether the linking, from its beginning to the end of the run, came to what it has to come to.
pub open spec fn is_linked<E, A>(
    s: Settings,
    namespaces: Seq<NamespaceView>,
    report: Report<E, A>,
    bundle: BundleAnswers,
    whole: CompilationStep<E, A>,
) -> bool {
    &&& written(whole.effects) == linked_written(s, namespaces, bundle)
    &&& graphs_printed(whole.effects) == Seq::<EffectView>::empty()
    &&& whole.state.report == linked_recorded(s, report, bundle)
    &&& match linking_failure(s, bundle) {
        Some(reason) => {
            &&& whole.state.stage == Stage::Over(1)
            &&& ends_with(whole.effects, Effect::Print("error: "@ + reason))
        },
        None => {
            &&& whole.state.stage == Stage::Over(0)
            &&& s.std_json ==> ends_with(whole.effects, Effect::PrintJson)
        },
    }
}

/// The linking of all files where an early stage is asked for.
proof fn complete_links_at_stage<E, A>(
    state: CompilationState<E, A>,
    files: spec_fn(nat) -> Answers<E, A>,
    bundle: BundleAnswers,
)
    requires
        sound(state),
        state.stage == Stage::Bundle,
        state.bundle == unlinked(),
        state.settings.emit is Some,
    ensures
        is_linked(
            state.settings,
            state.namespaces,
            state.report,
            bundle,
            complete(state, files, bundle),
        ),
{
    let s = state.settings;
    let none = Seq::<EffectView>::empty();
    let print = seq![Effect::<Seq<char>, Seq<u8>>::PrintJson];
    let event1 = reply(state, files, bundle);
    let step1 = compilation_step(state, event1);
    complete_unfolds(state, files, bundle);
    compilation_step_is_sound(state, event1);
    complete_unfolds(step1.state, files, bundle);
    written_none(none);
    written_none(print);
    let whole = complete(state, files, bundle);
    match intermediates(s, bundle.binary) {
        Intermediates::Saved(effects) => {
            let tail = if s.std_json {
                print
            } else {
                none
            };
            if s.emit == Some(Emit::LlvmIr) || s.emit == Some(Emit::LlvmBc) {
                dumps_are_modules(s, bundle.binary);
            }
            assert(whole.effects =~= effects + tail);
            written_add(effects, tail);
            assert(written(effects) + none =~= written(effects));
            saved_prints_no_graphs(s, bundle.binary, effects);
            graphs_printed_none(tail);
            graphs_printed_add(effects, tail);
            assert(none + none =~= none);
        },
        Intermediates::Code(generate) => {
            let waiting = step1.state;
            let event2 = reply(waiting, files, bundle);
            let step2 = compilation_step(waiting, event2);
            complete_is_over(step2.state, files, bundle);
            let made = generated(s, generate, bundle.binary.name@, bundle.generated);
            let tail = if s.std_json && bundle.generated is Ok {
                print
            } else {
                none
            };
            assert(whole.effects =~= made + tail);
            written_add(made, tail);
            graphs_printed_none(made + tail);
            match bundle.generated {
                Ok(_) => {
                    let said = made.drop_last();
                    written_none(said);
                    assert(made =~= said.push(made.last()));
                    written_push(said, made.last());
                    assert(written(whole.effects) =~= linked_written(
                        s,
                        state.namespaces,
                        bundle,
                    ));
                },
                Err(_) => {
                    written_none(made);
                    assert(none + none =~= none);
                },
            }
        },
        Intermediates::Unhandled => {},
    }
}

/// What is written of a binary at an early stage prints no control flow graphs.
proof fn saved_prints_no_graphs(s: Settings, binary: BinaryInfo, effects: Seq<EffectView>)
    requires
        intermediates(s, binary) == Intermediates::Saved(effects),
    ensures
        graphs_printed(effects) == Seq::<EffectView>::empty(),
{
    graphs_printed_none(effects);
}

/// The linking of all files where no early stage is asked for.
proof fn complete_links_finally<E, A>(
    state: CompilationState<E, A>,
    files: spec_fn(nat) -> Answers<E, A>,
    bundle: BundleAnswers,
)
    requires
        sound(state),
        state.stage == Stage::Bundle,
        state.bundle == unlinked(),
        state.settings.emit is None,
    ensures
        is_linked(
            state.settings,
            state.namespaces,
            state.report,
            bundle,
            complete(state, files, bundle),
        ),
{
    let s = state.settings;
    let none = Seq::<EffectView>::empty();
    written_none(none);
    let event1 = reply(state, files, bundle);
    let step1 = compilation_step(state, event1);
    complete_unfolds(state, files, bundle);
    compilation_step_is_sound(state, event1);
    let said = saving_bundle(s, state.namespaces);
    assert(step1.effects == said);
    assert(step1.state.bundle.wait == BundleWait::Linked);
    written_none(said);
    graphs_printed_none(said);
    let linking = step1.state;
    let event2 = reply(linking, files, bundle);
    let step2 = compilation_step(linking, event2);
    complete_unfolds(linking, files, bundle);
    compilation_step_is_sound(linking, event2);
    let r = bundle_step(s, linking.namespaces, linking.bundle, linking.report, event2);
    bundle_is_written_or_reported(
        s,
        linking.namespaces,
        linking.bundle,
        linking.report,
        bundle.linked,
        bundle.abi_content,
        bundle.abi_extension,
    );
    let abis = write_abis(
        s,
        linking.namespaces,
        r.state,
        r.report,
        bundle.abi_content,
        bundle.abi_extension,
    );
    let rest = complete(step2.state, files, bundle);
    let whole = complete(state, files, bundle);
    let tail = complete(linking, files, bundle);
    assert(tail.effects == step2.effects + rest.effects);
    assert(whole.effects == said + tail.effects);
    if r.state.wait is AbiFile {
        complete_writes_abis(step2.state, files, bundle);
        assert(tail.effects == r.effects + abis.effects);
    } else {
        assert(step2.state.stage == Stage::Over(0));
        complete_is_over(step2.state, files, bundle);
        if s.std_json {
            let print = Effect::<Seq<char>, Seq<u8>>::PrintJson;
            assert(step2.effects =~= seq![print]);
            assert(tail.effects =~= seq![print]);
            assert(whole.effects.last() == print);
            written_none(seq![print]);
        } else {
            assert(abis.effects == none);
            assert(tail.effects =~= r.effects + abis.effects);
        }
    }
    written_add(said, tail.effects);
    assert(none + written(tail.effects) =~= written(tail.effects));
    complete_prints_no_graphs(state, files, bundle);
}

/// Nothing that follows in a compilation prints a control flow graph unless they are asked for.
proof fn complete_prints_no_graphs<E, A>(
    state: CompilationState<E, A>,
    files: spec_fn(nat) -> Answers<E, A>,
    bundle: BundleAnswers,
)
    requires
        sound(state),
        state.settings.emit != Some(Emit::Cfg),
    ensures
        graphs_printed(complete(state, files, bundle).effects) == Seq::<EffectView>::empty(),
    decreases distance(state).0, distance(state).1, distance(state).2, distance(state).3,
{
    let none = Seq::<EffectView>::empty();
    let event = reply(state, files, bundle);
    complete_unfolds(state, files, bundle);
    graphs_printed_none(none);
    if state.answered_by(event) {
        let first = compilation_step(state, event);
        compilation_step_is_sound(state, event);
        compilation_step_advances(state, event);
        complete_prints_no_graphs(first.state, files, bundle);
        assert forall|i: int| 0 <= i < first.effects.len() implies !(
        #[trigger] first.effects[i] is PrintCfg) by {
            assert(in_order(state.settings, first.effects[i]));
        }
        graphs_printed_none(first.effects);
        graphs_printed_add(first.effects, complete(first.state, files, bundle).effects);
        assert(none + none =~= none);
    }
}

/// Whether a whole compilation came to what it has to come to. Of each input is written what is to
/// be written of it, up to where code asked for cannot be made, which ends the run with 1 and the
/// reason printed last. With the syntax trees asked for the run ends with 0. Otherwise, where an
/// input was rejected, nothing is linked: the run ends with 1 and the error line last, or, with JSON
/// asked for, with 0 and the result printed last. Where none was, all are linked for Solana, and for
/// any other target the run ends with 0; with JSON asked for the result is printed last.
pub open spec fn is_completed<E, A>(
    s: Settings,
    inputs: Seq<Seq<char>>,
    target: Seq<char>,
    files: spec_fn(nat) -> Answers<E, A>,
    bundle: BundleAnswers,
    whole: CompilationStep<E, A>,
) -> bool {
    let n = inputs.len();
    let start = initial::<E, A>(s, inputs, target).report;
    let recorded = inputs_recorded(s, inputs, files, start, 0);
    let rejected = any_rejected(s, files, n, 0);
    let links = inputs_failure(s, files, n, 0) is None && !rejected && s.target == Target::Solana
        && s.emit != Some(Emit::AstDot);
    &&& graphs_printed(whole.effects) == inputs_graphs(s, files, n, 0)
    &&& if links {
        &&& written(whole.effects) == inputs_written(s, files, n, 0) + linked_written(
            s,
            namespaces_from(files, n, 0),
            bundle,
        )
        &&& whole.state.report == linked_recorded(s, recorded, bundle)
    } else {
        &&& written(whole.effects) == inputs_written(s, files, n, 0)
        &&& whole.state.report == recorded
        &&& whole.state.bundle == unlinked()
    }
    &&& match inputs_failure(s, files, n, 0) {
        Some(reason) => {
            &&& whole.state.stage == Stage::Over(1)
            &&& ends_with(whole.effects, Effect::Print("error: "@ + reason))
        },
        None => if s.emit == Some(Emit::AstDot) {
            whole.state.stage == Stage::Over(0)
        } else if rejected && !s.std_json {
            &&& whole.state.stage == Stage::Over(1)
            &&& ends_with(whole.effects, Effect::Error("error: not all contracts are valid"@))
        } else if links && linking_failure(s, bundle) is Some {
            &&& whole.state.stage == Stage::Over(1)
            &&& ends_with(
                whole.effects,
                Effect::Print("error: "@ + linking_failure(s, bundle)->0),
            )
        } else {
            &&& whole.state.stage == Stage::Over(0)
            &&& s.std_json ==> ends_with(whole.effects, Effect::PrintJson)
        },
    }
}

/// Every compilation, whatever is asked for and whatever the files are like, comes to what it has to
/// come to. Account data that is to be reported has to fit in 32 bits.
pub proof fn compilation_is_completed<E, A>(
    settings: Settings,
    inputs: Seq<Seq<char>>,
    target: Seq<char>,
    files: spec_fn(nat) -> Answers<E, A>,
    bundle: BundleAnswers,
)
    requires
        0 < inputs.len() <= usize::MAX,
        forall|k: nat| k < inputs.len() ==> answerable(settings, #[trigger] files(k)),
    ensures
        is_completed(
            settings,
            inputs,
            target,
            files,
            bundle,
            complete(initial::<E, A>(settings, inputs, target), files, bundle),
        ),
{
    let s = settings;
    let n = inputs.len();
    let start = initial::<E, A>(s, inputs, target);
    let none = Seq::<EffectView>::empty();
    let whole = complete(start, files, bundle);
    inputs_are_worked_on(s, inputs, files, start.report, 0);
    let worked = work_on_inputs(s, inputs, files, start.report, 0);
    let done = complete_works_on_inputs(start, files, bundle, 0);
    if inputs_failure(s, files, n, 0) is None {
        let end = conclude(done, none);
        let rest = complete(end.state, files, bundle);
        let last = end.effects + rest.effects;
        written_add(worked.effects, last);
        graphs_printed_add(worked.effects, last);
        assert(start.namespaces + worked.kept =~= worked.kept);
        if end.state.stage is Over {
            complete_is_over(end.state, files, bundle);
            written_none(last);
            graphs_printed_none(last);
            assert(inputs_written(s, files, n, 0) + none =~= inputs_written(s, files, n, 0));
            assert(inputs_graphs(s, files, n, 0) + none =~= inputs_graphs(s, files, n, 0));
            if last.len() > 0 {
                assert(whole.effects.last() == last.last());
            }
        } else {
            assert(last =~= rest.effects);
            if s.emit is None {
                complete_links_finally(end.state, files, bundle);
            } else {
                complete_links_at_stage(end.state, files, bundle);
            }
            assert(inputs_graphs(s, files, n, 0) + none =~= inputs_graphs(s, files, n, 0));
            if last.len() > 0 {
                assert(whole.effects.last() == last.last());
            }
        }
    }
}

} // verus!
