//! The whole compilation: one file after the other, and then all together.
use vstd::prelude::*;
use vstd::string::*;

use crate::bundle::{bundle_answers, bundle_step, unlinked, BundleJob, BundleState, BundleWait};
use crate::json::{JsonResult, Report};
use crate::output::{views, views_push, DriverEffect, Effect, EffectView};
use crate::process_file::{answers, file_step, untouched, FileJob, FileState, FileWait};
use crate::protocol::{
    namespace_views, numbered, vector_is_numbered, Event, NamespaceInfo, NamespaceView, Verdict,
};
use crate::settings::{Emit, Settings, Target};
use crate::text::texts;

verus! {

/// Which work is in hand.
#[derive(Debug, Clone, Copy, PartialEq, Eq, Structural)]
pub enum Stage {
    /// The input file of this number.
    File(usize),
    /// The linking of all files.
    Bundle,
    /// None: the run ends with this exit code.
    Over(i32),
}

/// What the compilation waits for.
#[derive(Debug, Clone, Copy, PartialEq, Eq, Structural)]
pub enum Wait {
    /// An answer on the input file of this number.
    File(usize, FileWait),
    /// An answer on the linking of all files.
    Bundle(BundleWait),
    /// Nothing: the run ends with this exit code.
    Over(i32),
}

/// A compilation.
pub struct Compilation<E, A> {
    settings: Settings,
    inputs: Vec<String>,
    json: JsonResult<E, A>,
    namespaces: Vec<NamespaceInfo>,
    errors: bool,
    job: FileJob<A>,
    bundle: BundleJob,
    stage: Stage,
}

/// How far a compilation has come: what it was asked for, the names of its inputs, the JSON
/// result, the files kept, whether any file was rejected, and the work in hand.
#[verifier::ext_equal]
pub struct CompilationState<E, A> {
    pub settings: Settings,
    pub inputs: Seq<Seq<char>>,
    pub report: Report<E, A>,
    pub namespaces: Seq<NamespaceView>,
    pub errors: bool,
    pub job: FileState<A>,
    pub bundle: BundleState,
    pub stage: Stage,
}

impl<E, A> View for Compilation<E, A> {
    type V = CompilationState<E, A>;

    closed spec fn view(&self) -> CompilationState<E, A> {
        CompilationState {
            settings: self.settings,
            inputs: texts(self.inputs@),
            report: self.json@,
            namespaces: namespace_views(self.namespaces@),
            errors: self.errors,
            job: self.job@,
            bundle: self.bundle@,
            stage: self.stage,
        }
    }
}

impl<E, A> CompilationState<E, A> {
    /// Whether inputs and files can be numbered and the work in hand is on something that is there.
    pub open spec fn valid(self) -> bool {
        &&& self.inputs.len() <= usize::MAX
        &&& numbered(self.namespaces)
        &&& match self.stage {
            Stage::File(i) => i < self.inputs.len() && self.job.valid(),
            Stage::Bundle => self.bundle.valid(self.namespaces),
            Stage::Over(_) => true,
        }
    }

    /// What is waited for.
    pub open spec fn wait(self) -> Wait {
        match self.stage {
            Stage::File(i) => Wait::File(i, self.job.wait),
            Stage::Bundle => Wait::Bundle(self.bundle.wait),
            Stage::Over(code) => Wait::Over(code),
        }
    }

    /// Whether the event answers what is waited for.
    pub open spec fn answered_by(self, event: Event<E, A>) -> bool {
        match self.stage {
            Stage::File(_) => answers(self.job.wait, self.job.namespace, event),
            Stage::Bundle => bundle_answers(self.bundle.wait, event),
            Stage::Over(_) => false,
        }
    }
}

/// The outcome of a step: the new state and what is to be done.
#[verifier::ext_equal]
pub struct CompilationStep<E, A> {
    pub state: CompilationState<E, A>,
    pub effects: Seq<EffectView>,
}

/// The end of a run in which nothing failed.
pub open spec fn finish<E, A>(
    state: CompilationState<E, A>,
    effects: Seq<EffectView>,
) -> CompilationStep<E, A> {
    CompilationStep {
        state: CompilationState { stage: Stage::Over(0), ..state },
        effects: if state.settings.std_json {
            effects.push(Effect::PrintJson)
        } else {
            effects
        },
    }
}

/// What follows once every file has been worked on. With the syntax trees written the run is over.
/// A rejected file ends it: in the JSON result, or in a line and a failure. For Solana all files
/// are linked; for any other target there is nothing left to do.
pub open spec fn conclude<E, A>(
    state: CompilationState<E, A>,
    effects: Seq<EffectView>,
) -> CompilationStep<E, A> {
    if state.settings.emit == Some(Emit::AstDot) {
        CompilationStep {
            state: CompilationState { stage: Stage::Over(0), ..state },
            effects,
        }
    } else if state.errors {
        if state.settings.std_json {
            CompilationStep {
                state: CompilationState { stage: Stage::Over(0), ..state },
                effects: effects.push(Effect::PrintJson),
            }
        } else {
            CompilationStep {
                state: CompilationState { stage: Stage::Over(1), ..state },
                effects: effects.push(Effect::Error("error: not all contracts are valid"@)),
            }
        }
    } else if state.settings.target == Target::Solana {
        CompilationStep {
            state: CompilationState { bundle: unlinked(), stage: Stage::Bundle, ..state },
            effects,
        }
    } else {
        finish(state, effects)
    }
}

/// Going on with the input file of number `i`, or with what follows the last.
pub open spec fn next_file<E, A>(
    state: CompilationState<E, A>,
    effects: Seq<EffectView>,
    i: nat,
) -> CompilationStep<E, A> {
    if i < state.inputs.len() {
        CompilationStep {
            state: CompilationState {
                job: untouched(state.inputs[i as int]),
                stage: Stage::File(i as usize),
                ..state
            },
            effects,
        }
    } else {
        conclude(state, effects)
    }
}

/// What follows the work on the input file of number `i`. An accepted file is kept.
pub open spec fn end_file<E, A>(
    state: CompilationState<E, A>,
    effects: Seq<EffectView>,
    i: nat,
    verdict: Verdict,
) -> CompilationStep<E, A> {
    match verdict {
        Verdict::Accepted => next_file(
            CompilationState {
                namespaces: state.namespaces.push(state.job.namespace),
                job: untouched(Seq::empty()),
                ..state
            },
            effects.push(Effect::Keep),
            i + 1,
        ),
        Verdict::Rejected => next_file(
            CompilationState { errors: true, ..state },
            effects,
            i + 1,
        ),
        Verdict::Exit(code) => CompilationStep {
            state: CompilationState { stage: Stage::Over(code), ..state },
            effects,
        },
    }
}

/// What the answer `event` leads to.
pub open spec fn compilation_step<E, A>(
    state: CompilationState<E, A>,
    event: Event<E, A>,
) -> CompilationStep<E, A> {
    match state.stage {
        Stage::File(i) => {
            let r = file_step(state.settings, state.job, state.report, event);
            let next = CompilationState { job: r.state, report: r.report, ..state };
            match r.state.wait {
                FileWait::Ended(verdict) => end_file(next, r.effects, i as nat, verdict),
                _ => CompilationStep { state: next, effects: r.effects },
            }
        },
        Stage::Bundle => {
            let r = bundle_step(
                state.settings,
                state.namespaces,
                state.bundle,
                state.report,
                event,
            );
            let next = CompilationState { bundle: r.state, report: r.report, ..state };
            match r.state.wait {
                BundleWait::Ended(Verdict::Exit(code)) => CompilationStep {
                    state: CompilationState { stage: Stage::Over(code), ..next },
                    effects: r.effects,
                },
                BundleWait::Ended(_) => finish(next, r.effects),
                _ => CompilationStep { state: next, effects: r.effects },
            }
        },
        Stage::Over(_) => CompilationStep { state, effects: Seq::empty() },
    }
}

/// A compilation before its first file has been looked at.
pub open spec fn initial<E, A>(
    settings: Settings,
    inputs: Seq<Seq<char>>,
    target: Seq<char>,
) -> CompilationState<E, A> {
    CompilationState {
        settings,
        inputs,
        report: Report {
            errors: Seq::empty(),
            target,
            program: Seq::empty(),
            contracts: Map::empty(),
        },
        namespaces: Seq::empty(),
        errors: false,
        job: untouched(inputs[0]),
        bundle: unlinked(),
        stage: Stage::File(0),
    }
}

impl<E, A> Compilation<E, A> {
    /// A compilation of the given inputs. `target` is how the target is displayed.
    pub fn new(settings: Settings, inputs: Vec<String>, target: String) -> (r: Self)
        requires
            inputs@.len() > 0,
        ensures
            r@ == initial::<E, A>(settings, texts(inputs@), target@),
            r@.valid(),
    {
        let job = FileJob::new(inputs[0].clone());
        let r = Compilation {
            settings,
            inputs,
            json: JsonResult::new(target),
            namespaces: Vec::new(),
            errors: false,
            job,
            bundle: BundleJob::new(),
            stage: Stage::File(0),
        };
        assert(r@.namespaces =~= Seq::<NamespaceView>::empty());
        assert(inputs.len() <= usize::MAX);
        r
    }

    /// What the run is to produce.
    pub fn settings(&self) -> (r: &Settings)
        ensures
            *r == self@.settings,
    {
        &self.settings
    }

    /// The JSON result so far.
    pub fn json(&self) -> (r: &JsonResult<E, A>)
        ensures
            r@ == self@.report,
    {
        &self.json
    }

    /// What is waited for.
    pub fn wait(&self) -> (r: Wait)
        ensures
            r == self@.wait(),
    {
        match self.stage {
            Stage::File(i) => Wait::File(i, self.job.wait()),
            Stage::Bundle => Wait::Bundle(self.bundle.wait()),
            Stage::Over(code) => Wait::Over(code),
        }
    }

    /// Whether the event answers what is waited for.
    pub fn accepts(&self, event: &Event<E, A>) -> (r: bool)
        requires
            self@.valid(),
        ensures
            r == self@.answered_by(*event),
    {
        match self.stage {
            Stage::File(_) => self.job.accepts(event),
            Stage::Bundle => self.bundle.accepts(event),
            Stage::Over(_) => false,
        }
    }

    /// Ends a run in which nothing failed.
    fn finish(&mut self, effects: &mut Vec<DriverEffect>)
        ensures
            ({
                let r = finish(old(self)@, views(old(effects)@));
                &&& final(self)@ == r.state
                &&& views(final(effects)@) == r.effects
            }),
    {
        broadcast use views_push;

        self.stage = Stage::Over(0);
        if self.settings.std_json {
            effects.push(Effect::PrintJson);
        }
    }

    /// Decides what follows once every file has been worked on.
    fn conclude(&mut self, effects: &mut Vec<DriverEffect>)
        ensures
            ({
                let r = conclude(old(self)@, views(old(effects)@));
                &&& final(self)@ == r.state
                &&& views(final(effects)@) == r.effects
            }),
            final(self)@.valid(),
    {
        broadcast use views_push;

        proof {
            assert(self.inputs.len() <= usize::MAX);
            vector_is_numbered(self.namespaces);
        }
        if self.settings.emit == Some(Emit::AstDot) {
            self.stage = Stage::Over(0);
        } else if self.errors {
            if self.settings.std_json {
                effects.push(Effect::PrintJson);
                self.stage = Stage::Over(0);
            } else {
                effects.push(Effect::Error("error: not all contracts are valid".to_owned()));
                self.stage = Stage::Over(1);
            }
        } else if self.settings.target == Target::Solana {
            self.bundle = BundleJob::new();
            self.stage = Stage::Bundle;
        } else {
            self.finish(effects);
        }
    }

    /// Goes on with the input file of number `i`, or with what follows the last.
    fn next_file(&mut self, effects: &mut Vec<DriverEffect>, i: usize)
        ensures
            ({
                let r = next_file(old(self)@, views(old(effects)@), i as nat);
                &&& final(self)@ == r.state
                &&& views(final(effects)@) == r.effects
            }),
            final(self)@.valid(),
    {
        proof {
            vector_is_numbered(self.namespaces);
        }
        if i < self.inputs.len() {
            self.job = FileJob::new(self.inputs[i].clone());
            self.stage = Stage::File(i);
        } else {
            self.conclude(effects);
        }
    }

    /// Decides what follows the work on the input file of number `i`.
    fn end_file(&mut self, effects: &mut Vec<DriverEffect>, i: usize, verdict: Verdict)
        requires
            i < old(self)@.inputs.len(),
        ensures
            ({
                let r = end_file(old(self)@, views(old(effects)@), i as nat, verdict);
                &&& final(self)@ == r.state
                &&& views(final(effects)@) == r.effects
            }),
            final(self)@.valid(),
    {
        broadcast use views_push;

        proof {
            assert(self.inputs.len() <= usize::MAX);
            vector_is_numbered(self.namespaces);
        }
        match verdict {
            Verdict::Accepted => {
                let mut job: FileJob<A> = FileJob::new(String::new());
                std::mem::swap(&mut job, &mut self.job);
                let ghost kept = job@.namespace;
                self.namespaces.push(job.into_namespace());
                assert(namespace_views(self.namespaces@) =~= old(self)@.namespaces.push(kept));
                effects.push(Effect::Keep);
                self.next_file(effects, i + 1);
            },
            Verdict::Rejected => {
                self.errors = true;
                self.next_file(effects, i + 1);
            },
            Verdict::Exit(code) => {
                self.stage = Stage::Over(code);
            },
        }
    }

    /// Takes the compiler's answer and returns what is to be done next.
    pub fn step(&mut self, event: Event<E, A>) -> (effects: Vec<DriverEffect>)
        requires
            old(self)@.valid(),
            old(self)@.answered_by(event),
        ensures
            final(self)@ == compilation_step(old(self)@, event).state,
            views(effects@) == compilation_step(old(self)@, event).effects,
            final(self)@.valid(),
    {
        match self.stage {
            Stage::File(i) => {
                let mut effects = self.job.step(&self.settings, &mut self.json, event);
                match self.job.wait() {
                    FileWait::Ended(verdict) => self.end_file(&mut effects, i, verdict),
                    _ => {},
                }
                effects
            },
            Stage::Bundle => {
                let mut effects = self.bundle.step(
                    &self.settings,
                    &self.namespaces,
                    &mut self.json,
                    event,
                );
                match self.bundle.wait() {
                    BundleWait::Ended(Verdict::Exit(code)) => {
                        self.stage = Stage::Over(code);
                    },
                    BundleWait::Ended(_) => self.finish(&mut effects),
                    _ => {},
                }
                effects
            },
            Stage::Over(_) => Vec::new(),
        }
    }
}

} // verus!
