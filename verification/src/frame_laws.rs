//! What an answer leaves alone: the rest of the JSON result, and everything but information where
//! only the verbosity differs.
use vstd::prelude::*;

use crate::bundle::{bundle_step, saving_bundle, BundleState, BundleWait};
use crate::compilation::{compilation_step, initial, CompilationState, Stage};
use crate::file_laws::{answer, answers_left, contracts_left, file_step_advances, work, Answers};
use crate::intermediates::{
    dump_llvm, generate_name, generated, intermediates, save_bitcode, Intermediates,
};
use crate::json::{code_report, solana_report, Report};
use crate::output::{file_named, saving, Effect, EffectView, OutputFile};
use crate::process_file::{
    account_data, answers, file_step, generating, go_on, save_abi, save_dot, visit, FileState,
    FileWait,
};
use crate::protocol::{BinaryInfo, Event, Generate, NamespaceView};
use crate::run_laws::{all_answered, run};
use crate::settings::Settings;

verus! {

/// Whether the JSON result has changed only as the work on the file of this name may change it: new
/// diagnostics stand behind the old ones, and contracts are recorded under that name alone.
pub open spec fn extended<E, A>(
    before: Report<E, A>,
    after: Report<E, A>,
    filename: Seq<char>,
) -> bool {
    &&& before.errors.is_prefix_of(after.errors)
    &&& after.contracts.remove(filename) == before.contracts.remove(filename)
    &&& after.target == before.target
    &&& after.program == before.program
}

/// An answer on a file adds diagnostics behind the old ones and records contracts under the name of
/// that file alone; nothing else of the JSON result changes.
pub proof fn file_step_extends_report<E, A>(
    s: Settings,
    state: FileState<A>,
    report: Report<E, A>,
    event: Event<E, A>,
)
    ensures
        extended(report, file_step(s, state, report, event).report, state.filename),
        file_step(s, state, report, event).state.filename == state.filename,
{
    let after = file_step(s, state, report, event).report;
    assert(after.contracts.remove(state.filename) =~= report.contracts.remove(state.filename));
}

/// The whole work on a file adds diagnostics behind the old ones and records contracts under the
/// name of that file alone; nothing else of the JSON result changes.
pub proof fn work_extends_report<E, A>(
    s: Settings,
    state: FileState<A>,
    report: Report<E, A>,
    given: Answers<E, A>,
)
    ensures
        extended(report, work(s, state, report, given).report, state.filename),
    decreases
            if state.wait is Resolve {
                1nat
            } else {
                0nat
            },
            contracts_left(state.namespace, state.wait),
            answers_left(state.wait),
{
    reveal(work);
    let event = answer(given, state.wait);
    if state.valid() && answers(state.wait, state.namespace, event) {
        file_step_extends_report(s, state, report, event);
        file_step_advances(s, state, report, event);
        let first = file_step(s, state, report, event);
        work_extends_report(s, first.state, first.report, given);
    }
}

/// Every answer leaves the diagnostics collected so far in front and the target as it is. While a
/// file is in hand only the contracts under its name and no program are recorded; the linking
/// records the program alone.
pub proof fn compilation_step_extends_report<E, A>(
    state: CompilationState<E, A>,
    event: Event<E, A>,
)
    ensures
        ({
            let after = compilation_step(state, event).state.report;
            match state.stage {
                Stage::File(_) => extended(state.report, after, state.job.filename),
                Stage::Bundle => after == (Report { program: after.program, ..state.report }),
                Stage::Over(_) => after == state.report,
            }
        }),
{
    if state.stage is File {
        file_step_extends_report(state.settings, state.job, state.report, event);
    }
}

/// Everything but the information lines.
pub open spec fn quiet(effects: Seq<EffectView>) -> Seq<EffectView> {
    effects.filter(|e: EffectView| !(e is Info || e is InfoFile))
}

/// Whether two settings differ in nothing but the verbosity.
pub open spec fn same_but_verbose(s: Settings, t: Settings) -> bool {
    t == (Settings { verbose: t.verbose, ..s })
}

proof fn quiet_add(a: Seq<EffectView>, b: Seq<EffectView>)
    ensures
        quiet(a + b) == quiet(a) + quiet(b),
{
    Seq::filter_distributes_over_add(a, b, |e: EffectView| !(e is Info || e is InfoFile));
}

proof fn quiet_push(a: Seq<EffectView>, e: EffectView)
    ensures
        quiet(a.push(e)) == (if e is Info || e is InfoFile {
            quiet(a)
        } else {
            quiet(a).push(e)
        }),
{
    reveal(Seq::filter);
    assert(a.push(e).drop_last() =~= a);
}

proof fn quiet_none()
    ensures
        quiet(Seq::empty()) == Seq::<EffectView>::empty(),
{
    reveal(Seq::filter);
}

/// At most one effect, and that an information line.
proof fn quiet_line(a: Seq<EffectView>)
    requires
        a.len() == 0 || (a.len() == 1 && (a[0] is Info || a[0] is InfoFile)),
    ensures
        quiet(a) == Seq::<EffectView>::empty(),
{
    quiet_none();
    if a.len() == 1 {
        quiet_push(Seq::empty(), a[0]);
        assert(a =~= Seq::empty().push(a[0]));
    } else {
        assert(a =~= Seq::empty());
    }
}

proof fn quiet_saving(
    s: Settings,
    artifact: Seq<char>,
    file: OutputFile<Seq<char>>,
    contract: Seq<char>,
    e: EffectView,
)
    requires
        !(e is Info || e is InfoFile),
    ensures
        quiet(saving(s, artifact, file, contract)) == Seq::<EffectView>::empty(),
        quiet(saving(s, artifact, file, contract).push(e)) == seq![e],
{
    quiet_line(saving(s, artifact, file, contract));
    quiet_push(saving(s, artifact, file, contract), e);
    assert(Seq::<EffectView>::empty().push(e) =~= seq![e]);
}

proof fn visit_ignores_verbose(s: Settings, t: Settings, namespace: NamespaceView, i: nat)
    requires
        same_but_verbose(s, t),
    ensures
        visit(s, namespace, i).wait == visit(t, namespace, i).wait,
        quiet(visit(s, namespace, i).effects) == quiet(visit(t, namespace, i).effects),
    decreases namespace.contracts.len() - i,
{
    if i < namespace.contracts.len() {
        visit_ignores_verbose(s, t, namespace, i + 1);
        let contract = namespace.contracts[i as int];
        let rest_s = visit(s, namespace, i + 1).effects;
        let rest_t = visit(t, namespace, i + 1).effects;
        quiet_line(account_data(s, contract));
        quiet_line(account_data(t, contract));
        quiet_line(generating(s, contract, namespace.target));
        quiet_line(generating(t, contract, namespace.target));
        quiet_add(account_data(s, contract), rest_s);
        quiet_add(account_data(t, contract), rest_t);
        quiet_add(seq![Effect::PrintCfg(i as usize)], rest_s);
        quiet_add(seq![Effect::PrintCfg(i as usize)], rest_t);
    }
}

proof fn dump_ignores_verbose(s: Settings, t: Settings, binary: BinaryInfo)
    requires
        same_but_verbose(s, t),
    ensures
        match (intermediates(s, binary), intermediates(t, binary)) {
            (Intermediates::Saved(a), Intermediates::Saved(b)) => quiet(a) == quiet(b),
            (a, b) => a == b,
        },
{
    let name = binary.name@;
    assert forall|part, artifact, stem|
        quiet(#[trigger] dump_llvm(s, part, artifact, stem, name)) == quiet(
            dump_llvm(t, part, artifact, stem, name),
        ) by {
        let a = dump_llvm(s, part, artifact, stem, name).last();
        quiet_saving(s, artifact, a->DumpLlvm_1, name, a);
        quiet_saving(t, artifact, a->DumpLlvm_1, name, a);
    }
    assert forall|part, artifact, stem|
        quiet(#[trigger] save_bitcode(s, part, artifact, stem, name)) == quiet(
            save_bitcode(t, part, artifact, stem, name),
        ) by {
        let a = save_bitcode(s, part, artifact, stem, name).last();
        quiet_saving(s, artifact, a->SaveBitcode_1, name, a);
        quiet_saving(t, artifact, a->SaveBitcode_1, name, a);
    }
    assert forall|a: Seq<EffectView>, b: Seq<EffectView>| quiet(#[trigger] (a + b)) == quiet(a)
        + quiet(b) by {
        quiet_add(a, b);
    }
}

proof fn go_on_ignores_verbose<E, A>(
    s: Settings,
    t: Settings,
    state: FileState<A>,
    report: Report<E, A>,
    a: Seq<EffectView>,
    b: Seq<EffectView>,
    i: nat,
)
    requires
        same_but_verbose(s, t),
        quiet(a) == quiet(b),
    ensures
        go_on(s, state, report, a, i).state == go_on(t, state, report, b, i).state,
        go_on(s, state, report, a, i).report == go_on(t, state, report, b, i).report,
        quiet(go_on(s, state, report, a, i).effects) == quiet(
            go_on(t, state, report, b, i).effects,
        ),
{
    visit_ignores_verbose(s, t, state.namespace, i);
    quiet_add(a, visit(s, state.namespace, i).effects);
    quiet_add(b, visit(t, state.namespace, i).effects);
}

proof fn abi_ignores_verbose(
    s: Settings,
    t: Settings,
    contract: Seq<char>,
    content: Seq<char>,
    extension: Seq<char>,
)
    requires
        same_but_verbose(s, t),
    ensures
        quiet(save_abi(s, contract, content, extension)) == quiet(
            save_abi(t, contract, content, extension),
        ),
{
    let e = save_abi(s, contract, content, extension).last();
    quiet_saving(s, "ABI"@, e->Save_0, contract, e);
    quiet_saving(t, "ABI"@, e->Save_0, contract, e);
}

proof fn generated_ignores_verbose(
    s: Settings,
    t: Settings,
    generate: Generate,
    contract: Seq<char>,
    code: Result<Vec<u8>, String>,
)
    requires
        same_but_verbose(s, t),
    ensures
        quiet(generated(s, generate, contract, code)) == quiet(
            generated(t, generate, contract, code),
        ),
{
    if code is Ok {
        let e = generated(s, generate, contract, code).last();
        quiet_saving(s, generate_name(generate), e->Save_0, contract, e);
        quiet_saving(t, generate_name(generate), e->Save_0, contract, e);
    }
}

/// An answer on a file leads to the same whether the run is verbose or not, but for information.
pub proof fn file_step_ignores_verbose<E, A>(
    s: Settings,
    t: Settings,
    state: FileState<A>,
    report: Report<E, A>,
    event: Event<E, A>,
)
    requires
        same_but_verbose(s, t),
    ensures
        file_step(s, state, report, event).state == file_step(t, state, report, event).state,
        file_step(s, state, report, event).report == file_step(t, state, report, event).report,
        quiet(file_step(s, state, report, event).effects) == quiet(
            file_step(t, state, report, event).effects,
        ),
{
    let none = Seq::<EffectView>::empty();
    match (state.wait, event) {
        (FileWait::Resolve, Event::Resolved(namespace)) => {
            let state = FileState { namespace: namespace@, ..state };
            let lead = seq![Effect::<Seq<char>, Seq<u8>>::PrintDiagnostics];
            go_on_ignores_verbose(s, t, state, report, lead, lead, 0);
        },
        (FileWait::Diagnostics, Event::Diagnostics(errors)) => {
            let report = Report { errors: report.errors + errors@, ..report };
            go_on_ignores_verbose(s, t, state, report, none, none, 0);
        },
        (FileWait::Stem, Event::Stem(stem)) => {
            let e = save_dot(s, stem@).last();
            let said_s = save_dot(s, stem@).drop_last();
            let said_t = save_dot(t, stem@).drop_last();
            quiet_line(said_s);
            quiet_line(said_t);
            quiet_push(said_s, e);
            quiet_push(said_t, e);
            assert(save_dot(s, stem@) =~= said_s.push(e));
            assert(save_dot(t, stem@) =~= said_t.push(e));
        },
        (FileWait::SolanaAbi(i), Event::Abi(abi)) => {
            let contract = state.namespace.contracts[i as int];
            let found = state.found.insert(
                contract.name@,
                solana_report(abi@, contract.fixed_layout_size@),
            );
            quiet_line(account_data(s, contract));
            quiet_line(account_data(t, contract));
            go_on_ignores_verbose(
                s,
                t,
                FileState { found, ..state },
                report,
                account_data(s, contract),
                account_data(t, contract),
                (i + 1) as nat,
            );
        },
        (FileWait::Binary(i), Event::Emitted(binary)) => {
            dump_ignores_verbose(s, t, binary);
            let named = FileState { binary: binary.name@, ..state };
            match (intermediates(s, binary), intermediates(t, binary)) {
                (Intermediates::Saved(a), Intermediates::Saved(b)) => {
                    go_on_ignores_verbose(s, t, named, report, a, b, (i + 1) as nat);
                },
                _ => {
                    let file = file_named(s, binary.name@, s.binary_extension@);
                    quiet_saving(s, "binary"@, file, binary.name@, Effect::Keep);
                    quiet_saving(t, "binary"@, file, binary.name@, Effect::Keep);
                },
            }
        },
        (FileWait::Generated(i, generate), Event::Generated(code)) => {
            generated_ignores_verbose(s, t, generate, state.binary, code);
            go_on_ignores_verbose(
                s,
                t,
                state,
                report,
                generated(s, generate, state.binary, code),
                generated(t, generate, state.binary, code),
                (i + 1) as nat,
            );
        },
        (FileWait::JsonCode(i), Event::Code(code)) => {
            let found = state.found.insert(state.binary, code_report(state.abi, code@));
            let next = FileState { found, abi: Seq::empty(), ..state };
            go_on_ignores_verbose(s, t, next, report, none, none, (i + 1) as nat);
        },
        (FileWait::AbiFile(i), Event::AbiFile { content, extension }) => {
            abi_ignores_verbose(s, t, state.binary, content@, extension@);
            go_on_ignores_verbose(
                s,
                t,
                state,
                report,
                save_abi(s, state.binary, content@, extension@),
                save_abi(t, state.binary, content@, extension@),
                (i + 1) as nat,
            );
        },
        _ => {},
    }
}

/// An answer on the linking leads to the same whether the run is verbose or not, but for information.
pub proof fn bundle_step_ignores_verbose<E, A>(
    s: Settings,
    t: Settings,
    namespaces: Seq<NamespaceView>,
    state: BundleState,
    report: Report<E, A>,
    event: Event<E, A>,
)
    requires
        same_but_verbose(s, t),
    ensures
        ({
            let a = bundle_step(s, namespaces, state, report, event);
            let b = bundle_step(t, namespaces, state, report, event);
            a.state == b.state && a.report == b.report && quiet(a.effects) == quiet(b.effects)
        }),
{
    match (state.wait, event) {
        (BundleWait::Binary, Event::Emitted(binary)) => {
            dump_ignores_verbose(s, t, binary);
            quiet_line(saving_bundle(s, namespaces));
            quiet_line(saving_bundle(t, namespaces));
        },
        (BundleWait::Generated(generate), Event::Generated(code)) => {
            generated_ignores_verbose(s, t, generate, state.binary, code);
        },
        (BundleWait::AbiFile(n, c), Event::AbiFile { content, extension }) => {
            let name = namespaces[n as int].contracts[c as int].name@;
            abi_ignores_verbose(s, t, name, content@, extension@);
        },
        _ => {},
    }
}

/// Every answer leads to the same whether the run is verbose or not, but for information.
pub proof fn compilation_step_ignores_verbose<E, A>(
    state: CompilationState<E, A>,
    t: Settings,
    event: Event<E, A>,
)
    requires
        same_but_verbose(state.settings, t),
    ensures
        ({
            let a = compilation_step(state, event);
            let b = compilation_step(CompilationState { settings: t, ..state }, event);
            &&& b.state == (CompilationState { settings: t, ..a.state })
            &&& a.state.settings == state.settings
            &&& quiet(a.effects) == quiet(b.effects)
        }),
{
    let s = state.settings;
    match state.stage {
        Stage::File(_) => {
            file_step_ignores_verbose(s, t, state.job, state.report, event);
            let a = file_step(s, state.job, state.report, event).effects;
            let b = file_step(t, state.job, state.report, event).effects;
            let line = Effect::Error("error: not all contracts are valid"@);
            quiet_push(a, Effect::Keep);
            quiet_push(b, Effect::Keep);
            quiet_push(a, Effect::PrintJson);
            quiet_push(b, Effect::PrintJson);
            quiet_push(a, line);
            quiet_push(b, line);
            quiet_push(a.push(Effect::Keep), Effect::PrintJson);
            quiet_push(b.push(Effect::Keep), Effect::PrintJson);
            quiet_push(a.push(Effect::Keep), line);
            quiet_push(b.push(Effect::Keep), line);
        },
        Stage::Bundle => {
            bundle_step_ignores_verbose(s, t, state.namespaces, state.bundle, state.report, event);
            let a = bundle_step(s, state.namespaces, state.bundle, state.report, event).effects;
            let b = bundle_step(t, state.namespaces, state.bundle, state.report, event).effects;
            quiet_push(a, Effect::PrintJson);
            quiet_push(b, Effect::PrintJson);
        },
        Stage::Over(_) => {},
    }
}

/// The verbosity changes nothing but information lines: a verbose run takes the same answers as one
/// that is not, comes to the same state, and does the same but for them.
pub proof fn verbosity_changes_only_information<E, A>(
    s: Settings,
    t: Settings,
    inputs: Seq<Seq<char>>,
    target: Seq<char>,
    events: Seq<Event<E, A>>,
)
    requires
        same_but_verbose(s, t),
    ensures
        ({
            let a = run(initial::<E, A>(s, inputs, target), events);
            let b = run(initial::<E, A>(t, inputs, target), events);
            &&& all_answered(initial::<E, A>(s, inputs, target), events) == all_answered(
                initial::<E, A>(t, inputs, target),
                events,
            )
            &&& a.state.settings == s
            &&& b.state == (CompilationState { settings: t, ..a.state })
            &&& quiet(a.effects) == quiet(b.effects)
        }),
    decreases events.len(),
{
    if events.len() > 0 {
        verbosity_changes_only_information(s, t, inputs, target, events.drop_last());
        let a = run(initial::<E, A>(s, inputs, target), events.drop_last());
        let b = run(initial::<E, A>(t, inputs, target), events.drop_last());
        compilation_step_ignores_verbose(a.state, t, events.last());
        quiet_add(a.effects, compilation_step(a.state, events.last()).effects);
        quiet_add(b.effects, compilation_step(b.state, events.last()).effects);
    }
}

} // verus!
