//! The generation of documentation.
use vstd::prelude::*;
use vstd::string::*;

use crate::output::{
    output_dir, output_directory, views, views_empty, views_push, DriverEffect, Effect, EffectView,
};
use crate::protocol::{NamespaceInfo, NamespaceView};
use crate::settings::Settings;
use crate::text::texts;

verus! {

/// The generation of documentation for a list of inputs. The file in hand is to be parsed and
/// resolved.
pub struct DocJob {
    inputs: Vec<String>,
    file: usize,
    success: bool,
}

/// How far the generation has come: the names of the inputs, the number of the file in hand, and
/// whether every file so far was in order.
#[verifier::ext_equal]
pub struct DocState {
    pub inputs: Seq<Seq<char>>,
    pub file: nat,
    pub success: bool,
}

impl View for DocJob {
    type V = DocState;

    closed spec fn view(&self) -> DocState {
        DocState { inputs: texts(self.inputs@), file: self.file as nat, success: self.success }
    }
}

impl DocState {
    /// Whether the file in hand is one of the inputs, or all are done.
    pub open spec fn valid(self) -> bool {
        self.file <= self.inputs.len()
    }
}

/// Whether documentation can be generated for a file.
pub open spec fn documentable(namespace: NamespaceView) -> bool {
    namespace.contracts.len() > 0 && !namespace.any_errors
}

/// What is done with a file: its diagnostics are printed, that it has no contracts is said, and a
/// file in order is kept.
pub open spec fn doc_file_effects(filename: Seq<char>, namespace: NamespaceView) -> Seq<
    EffectView,
> {
    if namespace.contracts.len() == 0 {
        seq![Effect::PrintDiagnostics, Effect::Error(filename + ": error: no contracts found"@)]
    } else if namespace.any_errors {
        seq![Effect::PrintDiagnostics]
    } else {
        seq![Effect::PrintDiagnostics, Effect::Keep]
    }
}

/// What a resolved file leads to. Behind the last file, where all were in order, the documentation
/// is generated in the output directory.
pub open spec fn doc_step(s: Settings, state: DocState, namespace: NamespaceView) -> (
    DocState,
    Seq<EffectView>,
) {
    let success = state.success && documentable(namespace);
    let effects = doc_file_effects(state.inputs[state.file as int], namespace);
    (
        DocState { file: state.file + 1, success, ..state },
        if success && state.file + 1 == state.inputs.len() {
            effects.push(Effect::GenerateDocs(output_dir(s)))
        } else {
            effects
        },
    )
}

impl DocJob {
    /// The generation of documentation for the given inputs.
    pub fn new(inputs: Vec<String>) -> (r: Self)
        requires
            inputs@.len() > 0,
        ensures
            r@ == (DocState { inputs: texts(inputs@), file: 0, success: true }),
            r@.valid(),
    {
        DocJob { inputs, file: 0, success: true }
    }

    /// The number of the file in hand, unless all are done.
    pub fn wait(&self) -> (r: Option<usize>)
        ensures
            r == (if self@.file < self@.inputs.len() {
                Some(self@.file as usize)
            } else {
                None
            }),
    {
        if self.file < self.inputs.len() {
            Some(self.file)
        } else {
            None
        }
    }

    /// Takes what the compiler told of the file in hand and returns what is to be done next.
    pub fn step(&mut self, s: &Settings, namespace: &NamespaceInfo) -> (effects: Vec<DriverEffect>)
        requires
            old(self)@.file < old(self)@.inputs.len(),
        ensures
            (final(self)@, views(effects@)) == doc_step(*s, old(self)@, namespace@),
            final(self)@.valid(),
            final(self)@.inputs == old(self)@.inputs,
            final(self)@.file == old(self)@.file + 1,
            final(self)@.success == (old(self)@.success && namespace.contracts@.len() > 0
                && !namespace.any_errors),
            effects@.len() > 0,
            effects@[0] is PrintDiagnostics,
            ({
                let name = old(self)@.inputs[old(self)@.file as int];
                let empty = namespace.contracts@.len() == 0;
                let kept = !empty && !namespace.any_errors;
                let last = final(self)@.success && final(self)@.file == final(self)@.inputs.len();
                &&& effects@.len() == 1 + (if empty || kept {
                    1int
                } else {
                    0
                }) + (if last {
                    1int
                } else {
                    0
                })
                &&& empty ==> (effects@[1] matches Effect::Error(line) && line@ == name
                    + ": error: no contracts found"@)
                &&& kept ==> effects@[1] is Keep
                &&& last ==> (effects@.last() matches Effect::GenerateDocs(chosen) && chosen@
                    == match s.output {
                    Some(dir) => dir@,
                    None => "."@,
                })
            }),
    {
        broadcast use {views_push, views_empty};

        assert(self.inputs.len() <= usize::MAX);
        let mut effects: Vec<DriverEffect> = Vec::new();
        effects.push(Effect::PrintDiagnostics);
        if namespace.contracts.len() == 0 {
            effects.push(
                Effect::Error(self.inputs[self.file].clone().concat(": error: no contracts found")),
            );
            self.success = false;
        } else if namespace.any_errors {
            self.success = false;
        } else {
            effects.push(Effect::Keep);
        }
        assert(views(effects@) =~= doc_file_effects(old(self)@.inputs[self.file as int], namespace@));
        self.file = self.file + 1;
        if self.success && self.file == self.inputs.len() {
            effects.push(Effect::GenerateDocs(output_directory(s)));
        }
        effects
    }
}

/// The generation of documentation for what the compiler tells of the files in turn: the state it
/// comes to and everything done on the way.
pub open spec fn doc_run(s: Settings, inputs: Seq<Seq<char>>, files: Seq<NamespaceView>) -> (
    DocState,
    Seq<EffectView>,
)
    decreases files.len(),
{
    if files.len() == 0 {
        (DocState { inputs, file: 0, success: true }, Seq::empty())
    } else {
        let first = doc_run(s, inputs, files.drop_last());
        let last = doc_step(s, first.0, files.last());
        (last.0, first.1 + last.1)
    }
}

/// Documentation is generated behind the last file, in the output directory, exactly where every
/// file has contracts and no error, and never before.
pub proof fn docs_are_generated_when_all_files_are_in_order(
    s: Settings,
    inputs: Seq<Seq<char>>,
    files: Seq<NamespaceView>,
)
    requires
        files.len() <= inputs.len(),
    ensures
        doc_run(s, inputs, files).0.file == files.len(),
        doc_run(s, inputs, files).0.inputs == inputs,
        doc_run(s, inputs, files).0.success <==> forall|i: int|
            0 <= i < files.len() ==> documentable(#[trigger] files[i]),
        forall|i: int|
            0 <= i < doc_run(s, inputs, files).1.len() && #[trigger] doc_run(
                s,
                inputs,
                files,
            ).1[i] is GenerateDocs ==> {
                &&& i == doc_run(s, inputs, files).1.len() - 1
                &&& files.len() == inputs.len()
                &&& doc_run(s, inputs, files).0.success
                &&& doc_run(s, inputs, files).1[i] == Effect::<Seq<char>, Seq<u8>>::GenerateDocs(
                    output_dir(s),
                )
            },
        files.len() == inputs.len() && files.len() > 0 && doc_run(s, inputs, files).0.success
            ==> doc_run(s, inputs, files).1.len() > 0 && doc_run(s, inputs, files).1.last()
            == Effect::<Seq<char>, Seq<u8>>::GenerateDocs(output_dir(s)),
    decreases files.len(),
{
    if files.len() > 0 {
        let front = files.drop_last();
        docs_are_generated_when_all_files_are_in_order(s, inputs, front);
        let first = doc_run(s, inputs, front);
        let last = doc_step(s, first.0, files.last());
        let whole = doc_run(s, inputs, files);
        assert(forall|i: int| 0 <= i < front.len() ==> #[trigger] front[i] == files[i]);
        if forall|i: int| 0 <= i < files.len() ==> documentable(#[trigger] files[i]) {
            assert forall|i: int| 0 <= i < front.len() implies documentable(#[trigger] front[i]) by {
                assert(documentable(files[i]));
            }
            assert(documentable(files[files.len() - 1]));
        }
        if first.0.success && documentable(files.last()) {
            assert forall|i: int| 0 <= i < files.len() implies documentable(#[trigger] files[i]) by {
                if i < front.len() {
                    assert(documentable(front[i]));
                }
            }
        }
        assert forall|i: int| 0 <= i < whole.1.len() && #[trigger] whole.1[i] is GenerateDocs implies {
            &&& i == whole.1.len() - 1
            &&& files.len() == inputs.len()
            &&& whole.0.success
            &&& whole.1[i] == Effect::<Seq<char>, Seq<u8>>::GenerateDocs(output_dir(s))
        } by {
            if i < first.1.len() {
                assert(first.1[i] is GenerateDocs);
            } else {
                assert(last.1[i - first.1.len()] is GenerateDocs);
            }
        }
    }
}

/// What a file leads to. Its diagnostics are printed first. A file without contracts is complained
/// of, one with contracts and no error is kept, and that is all, but for the documentation behind
/// the last file where all were in order.
pub proof fn files_are_kept_for_documentation(
    s: Settings,
    state: DocState,
    namespace: NamespaceView,
)
    ensures
        ({
            let (after, effects) = doc_step(s, state, namespace);
            let name = state.inputs[state.file as int];
            let docs = if after.success && state.file + 1 == state.inputs.len() {
                seq![
                    Effect::<Seq<char>, Seq<u8>>::GenerateDocs(
                        match s.output {
                            Some(dir) => dir@,
                            None => "."@,
                        },
                    ),
                ]
            } else {
                Seq::empty()
            };
            &&& after.inputs == state.inputs
            &&& after.file == state.file + 1
            &&& after.success == (state.success && namespace.contracts.len() > 0
                && !namespace.any_errors)
            &&& namespace.contracts.len() == 0 ==> effects == seq![
                Effect::PrintDiagnostics,
                Effect::Error(name + ": error: no contracts found"@),
            ] + docs
            &&& namespace.contracts.len() > 0 && namespace.any_errors ==> effects == seq![
                Effect::PrintDiagnostics,
            ] + docs
            &&& namespace.contracts.len() > 0 && !namespace.any_errors ==> effects == seq![
                Effect::PrintDiagnostics,
                Effect::Keep,
            ] + docs
        }),
{
    let effects = doc_step(s, state, namespace).1;
    let name = state.inputs[state.file as int];
    let none = Seq::<EffectView>::empty();
    let docs = Effect::GenerateDocs(
        match s.output {
            Some(dir) => dir@,
            None => "."@,
        },
    );
    let empty = seq![
        Effect::PrintDiagnostics,
        Effect::Error(name + ": error: no contracts found"@),
    ];
    let kept = seq![Effect::PrintDiagnostics, Effect::Keep];
    let bad = seq![Effect::<Seq<char>, Seq<u8>>::PrintDiagnostics];
    assert(empty + none =~= empty);
    assert(kept + none =~= kept);
    assert(bad + none =~= bad);
    assert(kept + seq![docs] =~= kept.push(docs));
}

/// How many files are kept.
pub open spec fn files_kept(effects: Seq<EffectView>) -> nat {
    effects.filter(|e: EffectView| e is Keep).len()
}

proof fn files_kept_by_one(state: DocState, s: Settings, namespace: NamespaceView)
    ensures
        files_kept(doc_step(s, state, namespace).1) == (if namespace.contracts.len() > 0
            && !namespace.any_errors {
            1nat
        } else {
            0nat
        }),
{
    reveal(Seq::filter);
    let effects = doc_step(s, state, namespace).1;
    reveal_with_fuel(Seq::filter, 4);
    files_are_kept_for_documentation(s, state, namespace);
    let p = |e: EffectView| e is Keep;
    assert(effects.len() <= 3);
    if effects.len() > 0 {
        let a = effects.drop_last();
        if a.len() > 0 {
            let b = a.drop_last();
            if b.len() > 0 {
                assert(b.drop_last() =~= Seq::<EffectView>::empty());
            } else {
                assert(b =~= Seq::<EffectView>::empty());
            }
        } else {
            assert(a =~= Seq::<EffectView>::empty());
        }
    }
}

/// Every file that has contracts and no error is kept, each once, and no other; so when documentation
/// is generated, as many files have been kept as there are inputs.
pub proof fn documentation_covers_every_file(
    s: Settings,
    inputs: Seq<Seq<char>>,
    files: Seq<NamespaceView>,
)
    requires
        files.len() <= inputs.len(),
    ensures
        files_kept(doc_run(s, inputs, files).1) == files.filter(
            |n: NamespaceView| n.contracts.len() > 0 && !n.any_errors,
        ).len(),
        forall|i: int|
            0 <= i < doc_run(s, inputs, files).1.len() && #[trigger] doc_run(
                s,
                inputs,
                files,
            ).1[i] is GenerateDocs ==> files_kept(doc_run(s, inputs, files).1) == inputs.len(),
    decreases files.len(),
{
    reveal(Seq::filter);
    let good = |n: NamespaceView| n.contracts.len() > 0 && !n.any_errors;
    let whole = doc_run(s, inputs, files);
    if files.len() > 0 {
        let front = files.drop_last();
        documentation_covers_every_file(s, inputs, front);
        let first = doc_run(s, inputs, front);
        let last = doc_step(s, first.0, files.last());
        files_kept_by_one(first.0, s, files.last());
        Seq::filter_distributes_over_add(first.1, last.1, |e: EffectView| e is Keep);
    }
    docs_are_generated_when_all_files_are_in_order(s, inputs, files);
    if whole.0.success {
        assert forall|i: int| 0 <= i < files.len() implies good(#[trigger] files[i]) by {
            assert(documentable(files[i]));
        }
        all_pass(files);
    }
}

proof fn all_pass(files: Seq<NamespaceView>)
    requires
        forall|i: int|
            0 <= i < files.len() ==> (#[trigger] files[i]).contracts.len() > 0
                && !files[i].any_errors,
    ensures
        files.filter(|n: NamespaceView| n.contracts.len() > 0 && !n.any_errors).len()
            == files.len(),
    decreases files.len(),
{
    reveal(Seq::filter);
    if files.len() > 0 {
        let front = files.drop_last();
        assert forall|i: int| 0 <= i < front.len() implies (#[trigger] front[i]).contracts.len() > 0
            && !front[i].any_errors by {
            assert(front[i] == files[i]);
        }
        all_pass(front);
        assert(files.last() == files[files.len() - 1]);
    }
}

} // verus!
