//! What whole compilations come to, case by case.
use vstd::prelude::*;

use crate::bundle::unlinked;
use crate::compilation::{initial, Stage};
use crate::complete_laws::{compilation_is_completed, complete, linked_written, BundleAnswers};
use crate::file_laws::{compilable, contract_files, reportable, written, written_none, Answers};
use crate::input_laws::{
    answerable, any_rejected, code_asked_for, code_failure, ends_with, file_graphs, file_recorded,
    file_verdict, file_written, graphs_printed, inputs_failure, inputs_graphs, inputs_recorded,
    inputs_written, namespaces_from,
};
use crate::json::Report;
use crate::output::{Content, Effect, EffectView};
use crate::outside::hex_upper;
use crate::protocol::{Generate, Verdict};
use crate::run_laws::abi_files;
use crate::settings::{Emit, Settings, Target};
use crate::stage_laws::{generated_files, generation_failure, graphs, llvm_files, llvm_modules};
use crate::step_laws::placed;

verus! {

/// One list after the other, for the inputs from number `i` on.
pub open spec fn over_inputs(
    each: spec_fn(nat) -> Seq<EffectView>,
    inputs: nat,
    i: nat,
) -> Seq<EffectView>
    decreases inputs - i,
{
    if i >= inputs {
        Seq::empty()
    } else {
        each(i) + over_inputs(each, inputs, i + 1)
    }
}

proof fn written_over_inputs<E, A>(
    s: Settings,
    files: spec_fn(nat) -> Answers<E, A>,
    each: spec_fn(nat) -> Seq<EffectView>,
    inputs: nat,
    i: nat,
)
    requires
        forall|k: nat|
            i <= k < inputs ==> file_written(s, #[trigger] files(k)) == each(k) && code_failure(
                s,
                files(k),
            ) is None,
    ensures
        inputs_written(s, files, inputs, i) == over_inputs(each, inputs, i),
        inputs_failure(s, files, inputs, i) is None,
    decreases inputs - i,
{
    if i < inputs {
        assert(file_written(s, files(i)) == each(i));
        written_over_inputs(s, files, each, inputs, i + 1);
    }
}

proof fn graphs_over_inputs<E, A>(
    s: Settings,
    files: spec_fn(nat) -> Answers<E, A>,
    each: spec_fn(nat) -> Seq<EffectView>,
    inputs: nat,
    i: nat,
)
    requires
        forall|k: nat| i <= k < inputs ==> file_graphs(s, #[trigger] files(k)) == each(k),
    ensures
        inputs_graphs(s, files, inputs, i) == over_inputs(each, inputs, i),
    decreases inputs - i,
{
    if i < inputs {
        assert(file_graphs(s, files(i)) == each(i));
        graphs_over_inputs(s, files, each, inputs, i + 1);
    }
}

/// Where nothing is written of any input, nothing is written of them together.
proof fn nothing_over_inputs<E, A>(
    s: Settings,
    files: spec_fn(nat) -> Answers<E, A>,
    inputs: nat,
    i: nat,
)
    requires
        forall|k: nat|
            i <= k < inputs ==> file_written(s, #[trigger] files(k)) == Seq::<EffectView>::empty()
                && code_failure(s, files(k)) is None,
    ensures
        inputs_written(s, files, inputs, i) == Seq::<EffectView>::empty(),
        inputs_failure(s, files, inputs, i) is None,
    decreases inputs - i,
{
    if i < inputs {
        assert(file_written(s, files(i)) == Seq::<EffectView>::empty());
        nothing_over_inputs(s, files, inputs, i + 1);
        assert(inputs_written(s, files, inputs, i) =~= Seq::<EffectView>::empty());
    }
}

/// For Solana nothing is written of the inputs by themselves, unless the syntax trees are asked for.
proof fn solana_inputs_write_nothing<E, A>(
    s: Settings,
    files: spec_fn(nat) -> Answers<E, A>,
    inputs: nat,
)
    requires
        s.target == Target::Solana,
        s.emit != Some(Emit::AstDot),
    ensures
        inputs_written(s, files, inputs, 0) == Seq::<EffectView>::empty(),
        inputs_failure(s, files, inputs, 0) is None,
{
    nothing_over_inputs(s, files, inputs, 0);
}

/// The work on inputs records no program.
proof fn inputs_record_no_program<E, A>(
    s: Settings,
    inputs: Seq<Seq<char>>,
    files: spec_fn(nat) -> Answers<E, A>,
    report: Report<E, A>,
    i: nat,
)
    ensures
        inputs_recorded(s, inputs, files, report, i).program == report.program,
    decreases inputs.len() - i,
{
    if i < inputs.len() {
        let after = file_recorded(s, inputs[i as int], report, files(i));
        inputs_record_no_program(s, inputs, files, after, i + 1);
    }
}

/// The files that object or assembly code of the inputs from number `i` on is written to, up to the
/// first contract of which none can be made.
pub open spec fn code_of_inputs<E, A>(
    s: Settings,
    generate: Generate,
    files: spec_fn(nat) -> Answers<E, A>,
    inputs: nat,
    i: nat,
) -> Seq<EffectView>
    decreases inputs - i,
{
    if i >= inputs {
        Seq::empty()
    } else if generation_failure(files(i), 0) is Some {
        generated_files(s, generate, files(i), 0)
    } else {
        generated_files(s, generate, files(i), 0) + code_of_inputs(
            s,
            generate,
            files,
            inputs,
            i + 1,
        )
    }
}

/// Why no object or assembly code can be made of the first contract of the inputs from number `i` on
/// of which none can, if there is one.
pub open spec fn missing_code<E, A>(
    files: spec_fn(nat) -> Answers<E, A>,
    inputs: nat,
    i: nat,
) -> Option<Seq<char>>
    decreases inputs - i,
{
    if i >= inputs {
        None
    } else if generation_failure(files(i), 0) is Some {
        generation_failure(files(i), 0)
    } else {
        missing_code(files, inputs, i + 1)
    }
}

proof fn code_over_inputs<E, A>(
    s: Settings,
    generate: Generate,
    files: spec_fn(nat) -> Answers<E, A>,
    inputs: nat,
    i: nat,
)
    requires
        code_asked_for(s) == Some(generate),
        s.target != Target::Solana,
        forall|k: nat| i <= k < inputs ==> compilable(#[trigger] files(k)),
    ensures
        inputs_written(s, files, inputs, i) == code_of_inputs(s, generate, files, inputs, i),
        inputs_failure(s, files, inputs, i) == missing_code(files, inputs, i),
    decreases inputs - i,
{
    if i < inputs {
        assert(compilable(files(i)));
        code_over_inputs(s, generate, files, inputs, i + 1);
    }
}

/// A compilation for a target other than Solana, with no early stage and no JSON asked for, of files
/// that all have contracts and no errors, ends with 0; the files written are the binary and the ABI
/// of each concrete contract of each input, in order, and no others.
pub proof fn compilation_writes_every_contract<E, A>(
    settings: Settings,
    inputs: Seq<Seq<char>>,
    target: Seq<char>,
    files: spec_fn(nat) -> Answers<E, A>,
    bundle: BundleAnswers,
)
    requires
        0 < inputs.len() <= usize::MAX,
        settings.emit is None,
        !settings.std_json,
        settings.target != Target::Solana,
        forall|k: nat| k < inputs.len() ==> compilable(#[trigger] files(k)),
    ensures
        ({
            let whole = complete(initial::<E, A>(settings, inputs, target), files, bundle);
            &&& whole.state.stage == Stage::Over(0)
            &&& written(whole.effects) == over_inputs(
                |k: nat| contract_files(settings, files(k), 0),
                inputs.len(),
                0,
            )
        }),
{
    compilation_is_completed(settings, inputs, target, files, bundle);
    let each = |k: nat| contract_files(settings, files(k), 0);
    assert forall|k: nat| k < inputs.len() implies file_written(settings, #[trigger] files(k))
        == each(k) && code_failure(settings, files(k)) is None by {
        assert(compilable(files(k)));
    }
    written_over_inputs(settings, files, each, inputs.len(), 0);
    assert(!any_rejected(settings, files, inputs.len(), 0)) by {
        assert forall|k: nat| k < inputs.len() implies file_verdict(settings, #[trigger] files(k))
            != Verdict::Rejected by {
            assert(compilable(files(k)));
        }
    }
}

/// A compilation for Solana, with no early stage and no JSON asked for, of files that all have
/// contracts and no errors, ends with 0; the files written are the linked code of all and then the
/// ABI of each concrete contract of each input, in order, and no others.
pub proof fn compilation_links_every_contract<E, A>(
    settings: Settings,
    inputs: Seq<Seq<char>>,
    target: Seq<char>,
    files: spec_fn(nat) -> Answers<E, A>,
    bundle: BundleAnswers,
)
    requires
        0 < inputs.len() <= usize::MAX,
        settings.emit is None,
        !settings.std_json,
        settings.target == Target::Solana,
        forall|k: nat| k < inputs.len() ==> compilable(#[trigger] files(k)),
    ensures
        ({
            let whole = complete(initial::<E, A>(settings, inputs, target), files, bundle);
            &&& whole.state.stage == Stage::Over(0)
            &&& written(whole.effects) == seq![
                Effect::Save(
                    placed(settings, "bundle"@ + "."@ + settings.binary_extension@),
                    Content::Bytes(bundle.linked@),
                ),
            ] + abi_files(
                settings,
                namespaces_from(files, inputs.len(), 0),
                bundle.abi_content,
                bundle.abi_extension,
                0,
                0,
            )
        }),
{
    compilation_is_completed(settings, inputs, target, files, bundle);
    solana_inputs_write_nothing(settings, files, inputs.len());
    assert(!any_rejected(settings, files, inputs.len(), 0)) by {
        assert forall|k: nat| k < inputs.len() implies file_verdict(settings, #[trigger] files(k))
            != Verdict::Rejected by {
            assert(compilable(files(k)));
        }
    }
    let linked = linked_written(settings, namespaces_from(files, inputs.len(), 0), bundle);
    assert(Seq::<EffectView>::empty() + linked =~= linked);
}

/// A compilation with JSON and no early stage asked for, of files that all have contracts and no
/// errors, ends with 0 and the result printed last; no file is written. The JSON result then holds
/// the diagnostics of all inputs, in order, and under the name of each input what was found of its
/// concrete contracts; for Solana, where their account data has to fit in 32 bits, it also holds the
/// linked code.
pub proof fn compilation_reports_every_contract<E, A>(
    settings: Settings,
    inputs: Seq<Seq<char>>,
    target: Seq<char>,
    files: spec_fn(nat) -> Answers<E, A>,
    bundle: BundleAnswers,
)
    requires
        0 < inputs.len() <= usize::MAX,
        settings.emit is None,
        settings.std_json,
        forall|k: nat| k < inputs.len() ==> compilable(#[trigger] files(k)),
        settings.target == Target::Solana ==> forall|k: nat|
            k < inputs.len() ==> reportable((#[trigger] files(k)).namespace@),
    ensures
        ({
            let whole = complete(initial::<E, A>(settings, inputs, target), files, bundle);
            let start = initial::<E, A>(settings, inputs, target).report;
            let recorded = inputs_recorded(settings, inputs, files, start, 0);
            &&& whole.state.stage == Stage::Over(0)
            &&& ends_with(whole.effects, Effect::PrintJson)
            &&& written(whole.effects) == Seq::<EffectView>::empty()
            &&& whole.state.report == (if settings.target == Target::Solana {
                Report { program: hex_upper(bundle.linked@), ..recorded }
            } else {
                recorded
            })
        }),
{
    assert forall|k: nat| k < inputs.len() implies answerable(settings, #[trigger] files(k)) by {
        if settings.target == Target::Solana {
            assert(reportable(files(k).namespace@));
        }
    }
    compilation_is_completed(settings, inputs, target, files, bundle);
    nothing_over_inputs(settings, files, inputs.len(), 0);
    assert(!any_rejected(settings, files, inputs.len(), 0)) by {
        assert forall|k: nat| k < inputs.len() implies file_verdict(settings, #[trigger] files(k))
            != Verdict::Rejected by {
            assert(compilable(files(k)));
        }
    }
    let none = Seq::<EffectView>::empty();
    assert(none + none =~= none);
}

/// A compilation with an input that has no contracts or an error, where no syntax trees are asked for
/// and no code asked for fails to be made, links nothing. What is written of each good input is
/// written nonetheless, and nothing of the others. Without JSON it ends with 1 and the error line
/// last, with JSON it ends with 0 and the result printed last.
pub proof fn compilation_with_rejected_input<E, A>(
    settings: Settings,
    inputs: Seq<Seq<char>>,
    target: Seq<char>,
    files: spec_fn(nat) -> Answers<E, A>,
    bundle: BundleAnswers,
)
    requires
        0 < inputs.len() <= usize::MAX,
        settings.emit != Some(Emit::AstDot),
        exists|k: nat| k < inputs.len() && !compilable(#[trigger] files(k)),
        forall|k: nat|
            k < inputs.len() ==> answerable(settings, #[trigger] files(k)) && code_failure(
                settings,
                files(k),
            ) is None,
    ensures
        ({
            let whole = complete(initial::<E, A>(settings, inputs, target), files, bundle);
            &&& if settings.std_json {
                &&& whole.state.stage == Stage::Over(0)
                &&& ends_with(whole.effects, Effect::PrintJson)
            } else {
                &&& whole.state.stage == Stage::Over(1)
                &&& ends_with(whole.effects, Effect::Error("error: not all contracts are valid"@))
            }
            &&& whole.state.bundle == unlinked()
            &&& whole.state.report.program == Seq::<char>::empty()
            &&& written(whole.effects) == over_inputs(
                |k: nat| file_written(settings, files(k)),
                inputs.len(),
                0,
            )
            &&& settings.emit is None && !settings.std_json && settings.target != Target::Solana
                ==> written(whole.effects) == over_inputs(
                |k: nat|
                    if compilable(files(k)) {
                        contract_files(settings, files(k), 0)
                    } else {
                        Seq::empty()
                    },
                inputs.len(),
                0,
            )
        }),
{
    compilation_is_completed(settings, inputs, target, files, bundle);
    let n = inputs.len();
    let start = initial::<E, A>(settings, inputs, target).report;
    let bad = choose|k: nat| k < n && !compilable(#[trigger] files(k));
    assert(file_verdict(settings, files(bad)) == Verdict::Rejected);
    assert(any_rejected(settings, files, n, 0));
    inputs_record_no_program(settings, inputs, files, start, 0);
    let each = |k: nat| file_written(settings, files(k));
    written_over_inputs(settings, files, each, n, 0);
    if settings.emit is None && !settings.std_json && settings.target != Target::Solana {
        let good = |k: nat|
            if compilable(files(k)) {
                contract_files(settings, files(k), 0)
            } else {
                Seq::empty()
            };
        written_over_inputs(settings, files, good, n, 0);
    }
}

/// A compilation with the syntax trees asked for ends with 0, whatever the files are like; the files
/// written are the syntax trees of all inputs, in order, and nothing is linked.
pub proof fn compilation_writes_syntax_trees<E, A>(
    settings: Settings,
    inputs: Seq<Seq<char>>,
    target: Seq<char>,
    files: spec_fn(nat) -> Answers<E, A>,
    bundle: BundleAnswers,
)
    requires
        0 < inputs.len() <= usize::MAX,
        settings.emit == Some(Emit::AstDot),
    ensures
        ({
            let whole = complete(initial::<E, A>(settings, inputs, target), files, bundle);
            &&& whole.state.stage == Stage::Over(0)
            &&& whole.state.bundle == unlinked()
            &&& written(whole.effects) == over_inputs(
                |k: nat| seq![Effect::SaveDot(placed(settings, files(k).stem@ + "."@ + "dot"@))],
                inputs.len(),
                0,
            )
        }),
{
    let each = |k: nat| seq![Effect::SaveDot(placed(settings, files(k).stem@ + "."@ + "dot"@))];
    compilation_is_completed(settings, inputs, target, files, bundle);
    written_over_inputs(settings, files, each, inputs.len(), 0);
}

/// A compilation with the control flow graphs asked for, of files that all have contracts and no
/// errors, ends with 0. The graphs of the concrete contracts of all inputs are printed, in order, and
/// no file is written, for Solana either.
pub proof fn compilation_prints_graphs<E, A>(
    settings: Settings,
    inputs: Seq<Seq<char>>,
    target: Seq<char>,
    files: spec_fn(nat) -> Answers<E, A>,
    bundle: BundleAnswers,
)
    requires
        0 < inputs.len() <= usize::MAX,
        settings.emit == Some(Emit::Cfg),
        forall|k: nat| k < inputs.len() ==> compilable(#[trigger] files(k)),
    ensures
        ({
            let whole = complete(initial::<E, A>(settings, inputs, target), files, bundle);
            &&& whole.state.stage == Stage::Over(0)
            &&& settings.std_json ==> ends_with(whole.effects, Effect::PrintJson)
            &&& written(whole.effects) == Seq::<EffectView>::empty()
            &&& graphs_printed(whole.effects) == over_inputs(
                |k: nat| graphs(files(k).namespace@.contracts, 0),
                inputs.len(),
                0,
            )
        }),
{
    compilation_is_completed(settings, inputs, target, files, bundle);
    let each = |k: nat| graphs(files(k).namespace@.contracts, 0);
    graphs_over_inputs(settings, files, each, inputs.len(), 0);
    nothing_over_inputs(settings, files, inputs.len(), 0);
    assert(!any_rejected(settings, files, inputs.len(), 0)) by {
        assert forall|k: nat| k < inputs.len() implies file_verdict(settings, #[trigger] files(k))
            != Verdict::Rejected by {
            assert(compilable(files(k)));
        }
    }
    let none = Seq::<EffectView>::empty();
    written_none(none);
    assert(none + none =~= none);
}

/// A compilation for a target other than Solana, with LLVM IR or bitcode asked for, of files that all
/// have contracts and no errors, ends with 0; the files written are the modules of each concrete
/// contract of each input, in order.
pub proof fn compilation_dumps_llvm<E, A>(
    settings: Settings,
    inputs: Seq<Seq<char>>,
    target: Seq<char>,
    files: spec_fn(nat) -> Answers<E, A>,
    bundle: BundleAnswers,
)
    requires
        0 < inputs.len() <= usize::MAX,
        settings.emit == Some(Emit::LlvmIr) || settings.emit == Some(Emit::LlvmBc),
        settings.target != Target::Solana,
        forall|k: nat| k < inputs.len() ==> compilable(#[trigger] files(k)),
    ensures
        ({
            let whole = complete(initial::<E, A>(settings, inputs, target), files, bundle);
            &&& whole.state.stage == Stage::Over(0)
            &&& settings.std_json ==> ends_with(whole.effects, Effect::PrintJson)
            &&& written(whole.effects) == over_inputs(
                |k: nat| llvm_files(settings, files(k), 0),
                inputs.len(),
                0,
            )
        }),
{
    compilation_is_completed(settings, inputs, target, files, bundle);
    let each = |k: nat| llvm_files(settings, files(k), 0);
    assert forall|k: nat| k < inputs.len() implies file_written(settings, #[trigger] files(k))
        == each(k) && code_failure(settings, files(k)) is None by {
        assert(compilable(files(k)));
    }
    written_over_inputs(settings, files, each, inputs.len(), 0);
    assert(!any_rejected(settings, files, inputs.len(), 0)) by {
        assert forall|k: nat| k < inputs.len() implies file_verdict(settings, #[trigger] files(k))
            != Verdict::Rejected by {
            assert(compilable(files(k)));
        }
    }
}

/// A compilation for a target other than Solana, with object or assembly code asked for, of files that
/// all have contracts and no errors, ends with 0 where all code can be made; the files written are
/// the code of each concrete contract of each input, in order. Otherwise they are those up to the
/// first contract of which no code can be made, and the run ends with 1 and the reason printed last.
pub proof fn compilation_generates_code<E, A>(
    settings: Settings,
    inputs: Seq<Seq<char>>,
    target: Seq<char>,
    files: spec_fn(nat) -> Answers<E, A>,
    bundle: BundleAnswers,
    generate: Generate,
)
    requires
        0 < inputs.len() <= usize::MAX,
        code_asked_for(settings) == Some(generate),
        settings.target != Target::Solana,
        forall|k: nat| k < inputs.len() ==> compilable(#[trigger] files(k)),
    ensures
        ({
            let whole = complete(initial::<E, A>(settings, inputs, target), files, bundle);
            &&& written(whole.effects) == code_of_inputs(
                settings,
                generate,
                files,
                inputs.len(),
                0,
            )
            &&& match missing_code(files, inputs.len(), 0) {
                None => {
                    &&& whole.state.stage == Stage::Over(0)
                    &&& settings.std_json ==> ends_with(whole.effects, Effect::PrintJson)
                },
                Some(reason) => {
                    &&& whole.state.stage == Stage::Over(1)
                    &&& ends_with(whole.effects, Effect::Print("error: "@ + reason))
                },
            }
        }),
{
    compilation_is_completed(settings, inputs, target, files, bundle);
    code_over_inputs(settings, generate, files, inputs.len(), 0);
    assert(!any_rejected(settings, files, inputs.len(), 0)) by {
        assert forall|k: nat| k < inputs.len() implies file_verdict(settings, #[trigger] files(k))
            != Verdict::Rejected by {
            assert(compilable(files(k)));
        }
    }
}

/// A compilation for Solana at an early stage other than the syntax trees, of files that all have
/// contracts and no errors, writes what that stage makes of the one linked binary, and nothing else.
/// It ends with 0, or, where code asked for cannot be made of it, with 1 and the reason printed last.
/// Account data that is to be reported has to fit in 32 bits.
pub proof fn compilation_links_at_early_stage<E, A>(
    settings: Settings,
    inputs: Seq<Seq<char>>,
    target: Seq<char>,
    files: spec_fn(nat) -> Answers<E, A>,
    bundle: BundleAnswers,
)
    requires
        0 < inputs.len() <= usize::MAX,
        settings.emit is Some,
        settings.emit != Some(Emit::AstDot),
        settings.target == Target::Solana,
        forall|k: nat| k < inputs.len() ==> compilable(#[trigger] files(k)),
        settings.std_json && settings.emit != Some(Emit::Cfg) ==> forall|k: nat|
            k < inputs.len() ==> reportable((#[trigger] files(k)).namespace@),
    ensures
        ({
            let whole = complete(initial::<E, A>(settings, inputs, target), files, bundle);
            if code_asked_for(settings) is Some {
                let extension = if settings.emit == Some(Emit::Object) {
                    "o"@
                } else {
                    "asm"@
                };
                match bundle.generated {
                    Ok(code) => {
                        &&& whole.state.stage == Stage::Over(0)
                        &&& written(whole.effects) == seq![
                            Effect::Save(
                                placed(settings, bundle.binary.name@ + "."@ + extension),
                                Content::Bytes(code@),
                            ),
                        ]
                    },
                    Err(reason) => {
                        &&& whole.state.stage == Stage::Over(1)
                        &&& written(whole.effects) == Seq::<EffectView>::empty()
                        &&& ends_with(whole.effects, Effect::Print("error: "@ + reason@))
                    },
                }
            } else {
                &&& whole.state.stage == Stage::Over(0)
                &&& written(whole.effects) == if settings.emit == Some(Emit::Cfg) {
                    Seq::<EffectView>::empty()
                } else {
                    llvm_modules(settings, bundle.binary)
                }
            }
        }),
{
    assert forall|k: nat| k < inputs.len() implies answerable(settings, #[trigger] files(k)) by {
        if settings.std_json && settings.emit != Some(Emit::Cfg) {
            assert(reportable(files(k).namespace@));
        }
    }
    compilation_is_completed(settings, inputs, target, files, bundle);
    solana_inputs_write_nothing(settings, files, inputs.len());
    assert(!any_rejected(settings, files, inputs.len(), 0)) by {
        assert forall|k: nat| k < inputs.len() implies file_verdict(settings, #[trigger] files(k))
            != Verdict::Rejected by {
            assert(compilable(files(k)));
        }
    }
    let linked = linked_written(settings, namespaces_from(files, inputs.len(), 0), bundle);
    assert(Seq::<EffectView>::empty() + linked =~= linked);
}

} // verus!
