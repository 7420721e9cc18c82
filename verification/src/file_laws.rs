//! What holds of the whole work on a file, whatever the compiler answers.
use vstd::prelude::*;

use crate::intermediates::{intermediates, Intermediates};
use crate::json::{code_report, minimum_space, solana_report, ContractReport, Report};
use crate::output::{file_named, output_dir, saving, Content, Effect, EffectView, OutputFile};
use crate::outside::hex_upper;
use crate::process_file::{
    account_data, answers, file_step, generating, go_on, save_abi, untouched, visit, wait_contract,
    FileState, FileStep, FileWait,
};
use crate::protocol::{BinaryInfo, Event, Generate, NamespaceInfo, NamespaceView, Verdict};
use crate::settings::{Emit, Settings, Target};
use crate::step_laws::placed;
use crate::text::decimal_value;

verus! {

/// The file that an effect writes or speaks of.
pub open spec fn file_of(effect: EffectView) -> Option<OutputFile<Seq<char>>> {
    match effect {
        Effect::InfoFile { before, file, after } => Some(file),
        Effect::SaveDot(file) => Some(file),
        Effect::DumpLlvm(_, file) => Some(file),
        Effect::SaveBitcode(_, file) => Some(file),
        Effect::Save(file, _) => Some(file),
        _ => None,
    }
}

/// Whether an effect writes a file.
pub open spec fn writes(effect: EffectView) -> bool {
    effect is SaveDot || effect is DumpLlvm || effect is SaveBitcode || effect is Save
}

/// Whether an effect prints on standard output something other than the JSON result. The
/// diagnostics count, wherever the compiler prints them.
pub open spec fn prints(effect: EffectView) -> bool {
    effect is Print || effect is PrintCfg || effect is PrintDiagnostics
}

/// Whether an effect is one that the settings ask for: files lie in the output directory,
/// information is for verbose runs, each early stage writes or prints what belongs to it, and the
/// JSON result alone is made where JSON is asked for and no stage is.
pub open spec fn in_order(s: Settings, effect: EffectView) -> bool {
    &&& file_of(effect) matches Some(file) ==> file.dir == output_dir(s)
    &&& effect is Info || effect is InfoFile ==> s.verbose
    &&& effect is PrintCfg ==> s.emit == Some(Emit::Cfg)
    &&& effect is SaveDot ==> s.emit == Some(Emit::AstDot)
    &&& effect is DumpLlvm ==> s.emit == Some(Emit::LlvmIr)
    &&& effect is SaveBitcode ==> s.emit == Some(Emit::LlvmBc)
    &&& effect is Save ==> s.emit is None || s.emit == Some(Emit::Object) || s.emit == Some(
        Emit::Asm,
    )
    &&& effect is PrintDiagnostics ==> !s.std_json
    &&& effect is PrintJson ==> s.std_json
    &&& s.std_json && s.emit is None ==> !writes(effect) && !prints(effect)
}

/// Whether all effects are ones that the settings ask for.
pub open spec fn all_in_order(s: Settings, effects: Seq<EffectView>) -> bool {
    forall|i: int| 0 <= i < effects.len() ==> in_order(s, #[trigger] effects[i])
}

/// Visiting contracts asks for nothing beyond the settings, and for a contract that is concrete,
/// the first such from number `i` on that needs the compiler.
pub proof fn visit_in_order(s: Settings, namespace: NamespaceView, i: nat)
    requires
        namespace.contracts.len() <= usize::MAX,
    ensures
        all_in_order(s, visit(s, namespace, i).effects),
        visit(s, namespace, i).wait == FileWait::Ended(Verdict::Accepted) || (wait_contract(
            visit(s, namespace, i).wait,
        ) matches Some(k) && i <= k < namespace.contracts.len()
            && namespace.contracts[k as int].is_concrete && forall|j: int|
            i <= j < k ==> !(#[trigger] namespace.contracts[j]).is_concrete),
        visit(s, namespace, i).wait == FileWait::Ended(Verdict::Accepted)
            || visit(s, namespace, i).wait is SolanaAbi || visit(s, namespace, i).wait is Binary,
        visit(s, namespace, i).wait is SolanaAbi ==> s.target == Target::Solana && s.std_json
            && s.emit != Some(Emit::Cfg),
        visit(s, namespace, i).wait is Binary ==> s.target != Target::Solana && s.emit != Some(
            Emit::Cfg,
        ),
    decreases namespace.contracts.len() - i,
{
    if i < namespace.contracts.len() {
        visit_in_order(s, namespace, i + 1);
    }
}

/// Whether the settings let a file wait for this.
pub open spec fn wait_in_order(s: Settings, wait: FileWait) -> bool {
    match wait {
        FileWait::Resolve => true,
        FileWait::Diagnostics => s.std_json,
        FileWait::Stem => s.emit == Some(Emit::AstDot),
        FileWait::SolanaAbi(_) => s.target == Target::Solana && s.std_json && s.emit != Some(
            Emit::Cfg,
        ) && s.emit != Some(Emit::AstDot),
        FileWait::Binary(_) => s.target != Target::Solana && s.emit != Some(Emit::Cfg) && s.emit
            != Some(Emit::AstDot),
        FileWait::Generated(_, generate) => s.target != Target::Solana && s.emit == Some(
            match generate {
                Generate::Object => Emit::Object,
                Generate::Assembly => Emit::Asm,
            },
        ),
        FileWait::JsonAbi(_) => s.target != Target::Solana && s.emit is None && s.std_json,
        FileWait::JsonCode(_) => s.target != Target::Solana && s.emit is None && s.std_json,
        FileWait::Code(_) => s.target != Target::Solana && s.emit is None && !s.std_json,
        FileWait::AbiFile(_) => s.target != Target::Solana && s.emit is None && !s.std_json,
        FileWait::Ended(_) => true,
    }
}

/// What is written of a binary at an early stage is what the settings ask for.
pub proof fn intermediates_in_order(s: Settings, binary: BinaryInfo)
    ensures
        intermediates(s, binary) matches Intermediates::Saved(effects) ==> all_in_order(s, effects),
{
}

/// Every answer on a file leads only to effects and to a wait that the settings ask for. In
/// particular a file for Solana is never emitted by itself, and one that is to be reported as JSON,
/// with no early stage asked for, writes no file and prints nothing.
pub proof fn file_step_in_order<E, A>(
    s: Settings,
    state: FileState<A>,
    report: Report<E, A>,
    event: Event<E, A>,
)
    requires
        state.valid(),
        wait_in_order(s, state.wait),
        answers(state.wait, state.namespace, event),
    ensures
        all_in_order(s, file_step(s, state, report, event).effects),
        wait_in_order(s, file_step(s, state, report, event).state.wait),
        file_step(s, state, report, event).state.valid(),
{
    if let Event::Resolved(namespace) = event {
        assert(namespace.contracts.len() <= usize::MAX);
        visit_in_order(s, namespace@, 0);
    }
    visit_in_order(s, state.namespace, 0);
    if let Some(i) = wait_contract(state.wait) {
        visit_in_order(s, state.namespace, (i + 1) as nat);
    }
    if let Event::Emitted(binary) = event {
        intermediates_in_order(s, binary);
    }
}

/// How many contracts the work has yet to get through, with one more for the file itself.
pub open spec fn contracts_left(namespace: NamespaceView, wait: FileWait) -> nat {
    match wait_contract(wait) {
        Some(i) => (namespace.contracts.len() - i) as nat,
        None => match wait {
            FileWait::Ended(_) => 0,
            _ => namespace.contracts.len() + 1,
        },
    }
}

/// How many answers on the same contract, or on the file itself, may yet be waited for.
pub open spec fn answers_left(wait: FileWait) -> nat {
    match wait {
        FileWait::Resolve => 3,
        FileWait::Diagnostics => 2,
        FileWait::Stem => 1,
        FileWait::Binary(_) => 3,
        FileWait::Code(_) => 2,
        FileWait::JsonAbi(_) => 2,
        _ => 1,
    }
}

/// Every answer brings the work on a file forward: fewer contracts are left, or as many with fewer
/// answers outstanding on the one in hand. Only the answer that resolves the file sets how many
/// contracts there are. So the work on a file comes to an end.
pub proof fn file_step_advances<E, A>(
    s: Settings,
    state: FileState<A>,
    report: Report<E, A>,
    event: Event<E, A>,
)
    requires
        state.valid(),
        answers(state.wait, state.namespace, event),
    ensures
        ({
            let next = file_step(s, state, report, event).state;
            let left = contracts_left(state.namespace, state.wait);
            let next_left = contracts_left(next.namespace, next.wait);
            if state.wait is Resolve {
                !(next.wait is Resolve)
            } else {
                &&& next.namespace == state.namespace
                &&& !(next.wait is Resolve)
                &&& next_left < left || (next_left == left && answers_left(next.wait)
                    < answers_left(state.wait))
            }
        }),
{
    if let Event::Resolved(namespace) = event {
        assert(namespace.contracts.len() <= usize::MAX);
        visit_in_order(s, namespace@, 0);
    }
    visit_in_order(s, state.namespace, 0);
    if let Some(i) = wait_contract(state.wait) {
        visit_in_order(s, state.namespace, (i + 1) as nat);
    }
}

/// Everything that the compiler would answer on a file.
pub struct Answers<E, A> {
    pub namespace: NamespaceInfo,
    pub diagnostics: Vec<E>,
    pub stem: String,
    pub abi: spec_fn(usize) -> Vec<A>,
    pub binary: spec_fn(usize) -> BinaryInfo,
    pub generated: spec_fn(usize) -> Result<Vec<u8>, String>,
    pub code: spec_fn(usize) -> Vec<u8>,
    pub abi_content: spec_fn(usize) -> String,
    pub abi_extension: spec_fn(usize) -> String,
}

/// The answer to what is waited for.
pub open spec fn answer<E, A>(given: Answers<E, A>, wait: FileWait) -> Event<E, A> {
    match wait {
        FileWait::Resolve => Event::Resolved(given.namespace),
        FileWait::Diagnostics => Event::Diagnostics(given.diagnostics),
        FileWait::Stem => Event::Stem(given.stem),
        FileWait::SolanaAbi(i) => Event::Abi((given.abi)(i)),
        FileWait::Binary(i) => Event::Emitted((given.binary)(i)),
        FileWait::Generated(i, _) => Event::Generated((given.generated)(i)),
        FileWait::JsonAbi(i) => Event::Abi((given.abi)(i)),
        FileWait::JsonCode(i) => Event::Code((given.code)(i)),
        FileWait::Code(i) => Event::Code((given.code)(i)),
        FileWait::AbiFile(i) => Event::AbiFile {
            content: (given.abi_content)(i),
            extension: (given.abi_extension)(i),
        },
        FileWait::Ended(_) => Event::Stem(given.stem),
    }
}

/// The work on a file up to its end, with everything that is done on the way, for given answers.
#[verifier::opaque]
pub open spec fn work<E, A>(
    s: Settings,
    state: FileState<A>,
    report: Report<E, A>,
    given: Answers<E, A>,
) -> FileStep<E, A>
    decreases
            if state.wait is Resolve {
                1nat
            } else {
                0nat
            },
            contracts_left(state.namespace, state.wait),
            answers_left(state.wait),
{
    let event = answer(given, state.wait);
    if state.valid() && answers(state.wait, state.namespace, event) {
        let first = file_step(s, state, report, event);
        proof {
            file_step_advances(s, state, report, event);
        }
        let rest = work(s, first.state, first.report, given);
        FileStep { effects: first.effects + rest.effects, ..rest }
    } else {
        FileStep { state, report, effects: Seq::empty() }
    }
}

/// The work on a file is its first step and then the rest, and nothing where no answer is taken.
pub(crate) proof fn work_unfolds<E, A>(
    s: Settings,
    state: FileState<A>,
    report: Report<E, A>,
    given: Answers<E, A>,
)
    ensures
        ({
            let event = answer(given, state.wait);
            let first = file_step(s, state, report, event);
            let rest = work(s, first.state, first.report, given);
            work(s, state, report, given) == if state.valid() && answers(
                state.wait,
                state.namespace,
                event,
            ) {
                FileStep { effects: first.effects + rest.effects, ..rest }
            } else {
                FileStep { state, report, effects: Seq::empty() }
            }
        }),
{
    reveal(work);
}

/// The effects that write a file.
#[verifier::opaque]
pub open spec fn written(effects: Seq<EffectView>) -> Seq<EffectView> {
    effects.filter(|e: EffectView| writes(e))
}

/// The files written by two lists of effects together.
pub proof fn written_add(a: Seq<EffectView>, b: Seq<EffectView>)
    ensures
        written(a + b) == written(a) + written(b),
{
    reveal(written);
    Seq::filter_distributes_over_add(a, b, |e: EffectView| writes(e));
}

/// Effects that write no file.
pub proof fn written_none(a: Seq<EffectView>)
    requires
        forall|i: int| 0 <= i < a.len() ==> !writes(#[trigger] a[i]),
    ensures
        written(a) == Seq::<EffectView>::empty(),
    decreases a.len(),
{
    reveal(written);
    reveal(Seq::filter);
    if a.len() > 0 {
        assert(a.last() == a[a.len() - 1]);
        assert forall|i: int| 0 <= i < a.drop_last().len() implies !writes(
            #[trigger] a.drop_last()[i],
        ) by {
            assert(a.drop_last()[i] == a[i]);
        }
        written_none(a.drop_last());
    }
}

/// One more effect that writes a file.
pub proof fn written_push(a: Seq<EffectView>, e: EffectView)
    requires
        writes(e),
    ensures
        written(a.push(e)) == written(a).push(e),
{
    reveal(written);
    reveal(Seq::filter);
    assert(a.push(e).drop_last() =~= a);
}

/// The files of the concrete contracts from number `i` on: of each its binary and its ABI.
pub open spec fn contract_files<E, A>(s: Settings, given: Answers<E, A>, i: nat) -> Seq<EffectView>
    decreases given.namespace@.contracts.len() - i,
{
    if i >= given.namespace@.contracts.len() {
        Seq::empty()
    } else {
        let rest = contract_files(s, given, i + 1);
        let k = i as usize;
        let name = (given.binary)(k).name@;
        if given.namespace@.contracts[i as int].is_concrete {
            seq![
                Effect::Save(
                    placed(s, name + "."@ + s.binary_extension@),
                    Content::Bytes((given.code)(k)@),
                ),
                Effect::Save(
                    placed(s, name + "."@ + (given.abi_extension)(k)@),
                    Content::Text((given.abi_content)(k)@),
                ),
            ] + rest
        } else {
            rest
        }
    }
}

/// What has been found before, and then the reports of the concrete contracts from number `i` on,
/// each under the name of its binary.
pub open spec fn code_reports<E, A>(
    given: Answers<E, A>,
    found: Map<Seq<char>, ContractReport<A>>,
    i: nat,
) -> Map<Seq<char>, ContractReport<A>>
    decreases given.namespace@.contracts.len() - i,
{
    if i >= given.namespace@.contracts.len() {
        found
    } else if given.namespace@.contracts[i as int].is_concrete {
        let k = i as usize;
        code_reports(
            given,
            found.insert(
                (given.binary)(k).name@,
                ContractReport {
                    abi: (given.abi)(k)@,
                    ewasm: Some(hex_upper((given.code)(k)@)),
                    minimum_space: None,
                },
            ),
            i + 1,
        )
    } else {
        code_reports(given, found, i + 1)
    }
}

/// What has been found before, and then the reports of the concrete contracts for Solana from
/// number `i` on, each under its name.
pub open spec fn solana_reports<E, A>(
    given: Answers<E, A>,
    found: Map<Seq<char>, ContractReport<A>>,
    i: nat,
) -> Map<Seq<char>, ContractReport<A>>
    decreases given.namespace@.contracts.len() - i,
{
    if i >= given.namespace@.contracts.len() {
        found
    } else if given.namespace@.contracts[i as int].is_concrete {
        let contract = given.namespace@.contracts[i as int];
        solana_reports(
            given,
            found.insert(
                contract.name@,
                ContractReport {
                    abi: (given.abi)(i as usize)@,
                    ewasm: None,
                    minimum_space: Some(decimal_value(contract.fixed_layout_size@) as u32),
                },
            ),
            i + 1,
        )
    } else {
        solana_reports(given, found, i + 1)
    }
}

/// Going on after `effects` is going on after none, with the effects in front.
proof fn go_on_after<E, A>(
    s: Settings,
    state: FileState<A>,
    report: Report<E, A>,
    effects: Seq<EffectView>,
    i: nat,
)
    ensures
        go_on(s, state, report, effects, i) == (FileStep {
            effects: effects + go_on(s, state, report, Seq::empty(), i).effects,
            ..go_on(s, state, report, Seq::empty(), i)
        }),
{
    let none = Seq::<EffectView>::empty();
    let next = visit(s, state.namespace, i).effects;
    assert(none + next =~= next);
}

/// Going on with the contracts from number `i` on and then working up to the end.
pub open spec fn work_from<E, A>(
    s: Settings,
    state: FileState<A>,
    report: Report<E, A>,
    given: Answers<E, A>,
    i: nat,
) -> FileStep<E, A> {
    let first = go_on(s, state, report, Seq::empty(), i);
    let rest = work(s, first.state, first.report, given);
    FileStep { effects: first.effects + rest.effects, ..rest }
}

/// Working on from a state in which contract `i` has just been dealt with, after `effects`.
pub(crate) proof fn work_goes_on<E, A>(
    s: Settings,
    state: FileState<A>,
    report: Report<E, A>,
    given: Answers<E, A>,
    effects: Seq<EffectView>,
    i: nat,
)
    ensures
        ({
            let first = go_on(s, state, report, effects, i);
            let rest = work(s, first.state, first.report, given);
            FileStep { effects: first.effects + rest.effects, ..rest } == (FileStep {
                effects: effects + work_from(s, state, report, given, i).effects,
                ..work_from(s, state, report, given, i)
            })
        }),
{
    go_on_after(s, state, report, effects, i);
    let first = go_on(s, state, report, effects, i);
    let bare = go_on(s, state, report, Seq::empty(), i);
    let rest = work(s, first.state, first.report, given);
    assert((effects + bare.effects) + rest.effects =~= effects + (bare.effects + rest.effects));
}

/// For a target other than Solana, with no early stage and no JSON asked for, the work on the
/// contracts from number `i` on writes of each concrete one its binary and its ABI, in order, and
/// nothing else; the file is accepted.
#[verifier::rlimit(40)]
pub proof fn contracts_are_written<E, A>(
    s: Settings,
    state: FileState<A>,
    report: Report<E, A>,
    given: Answers<E, A>,
    i: nat,
)
    requires
        s.emit is None,
        !s.std_json,
        s.target != Target::Solana,
        state.namespace == given.namespace@,
        i <= state.namespace.contracts.len() <= usize::MAX,
    ensures
        written(work_from(s, state, report, given, i).effects) == contract_files(s, given, i),
        work_from(s, state, report, given, i).state.wait == FileWait::Ended(Verdict::Accepted),
        work_from(s, state, report, given, i).report == (Report {
            contracts: report.contracts.insert(state.filename, state.found),
            ..report
        }),
    decreases state.namespace.contracts.len() - i,
{
    reveal(work);
    let none = Seq::<EffectView>::empty();
    let first = go_on(s, state, report, none, i);
    let whole = work_from(s, state, report, given, i);
    if i >= state.namespace.contracts.len() {
        assert(whole.effects =~= none);
        written_none(none);
    } else if !state.namespace.contracts[i as int].is_concrete {
        contracts_are_written(s, state, report, given, i + 1);
    } else {
        let k = i as usize;
        let contract = state.namespace.contracts[i as int];
        let binary = (given.binary)(k);
        let state1 = first.state;
        assert(state1.wait == FileWait::Binary(k));
        let step1 = file_step(s, state1, report, answer(given, state1.wait));
        let state2 = step1.state;
        assert(state2.wait == FileWait::Code(k));
        let step2 = file_step(s, state2, report, answer(given, state2.wait));
        let state3 = step2.state;
        assert(state3.wait == FileWait::AbiFile(k));
        let abi = save_abi(
            s,
            binary.name@,
            (given.abi_content)(k)@,
            (given.abi_extension)(k)@,
        );
        let bin_file = file_named(s, binary.name@, s.binary_extension@);
        let said = saving(s, "binary"@, bin_file, binary.name@);
        let save = Effect::Save(bin_file, Content::Bytes((given.code)(k)@));
        let abi_file = file_named(s, binary.name@, (given.abi_extension)(k)@);
        let abi_said = saving(s, "ABI"@, abi_file, binary.name@);
        let abi_save = Effect::Save(abi_file, Content::Text((given.abi_content)(k)@));
        work_goes_on(s, state3, report, given, abi, i + 1);
        contracts_are_written(s, state3, report, given, i + 1);
        let rest = work_from(s, state3, report, given, i + 1);
        let lead = generating(s, contract, state.namespace.target);
        let work3 = work(s, state3, report, given);
        assert(work3.effects == abi + rest.effects);
        let work2 = work(s, state2, report, given);
        assert(work2.effects == seq![save] + work3.effects);
        let work1 = work(s, state1, report, given);
        assert(work1.effects == said + work2.effects);
        assert(none + lead =~= lead);
        assert(whole.effects == lead + work1.effects);
        written_none(lead);
        written_none(said);
        written_none(abi_said);
        written_none(none);
        written_push(none, save);
        written_push(abi_said, abi_save);
        assert(seq![save] =~= none.push(save));
        written_add(lead, work1.effects);
        written_add(said, work2.effects);
        written_add(seq![save], work3.effects);
        written_add(abi, rest.effects);
        assert(written(whole.effects) =~= contract_files(s, given, i));
    }
}

/// For a target other than Solana, with JSON and no early stage asked for, the work on the
/// contracts from number `i` on finds of each concrete one its ABI and its code, and hands what was
/// found over under the name of the file; the file is accepted.
pub proof fn contracts_are_reported<E, A>(
    s: Settings,
    state: FileState<A>,
    report: Report<E, A>,
    given: Answers<E, A>,
    i: nat,
)
    requires
        s.emit is None,
        s.std_json,
        s.target != Target::Solana,
        state.namespace == given.namespace@,
        i <= state.namespace.contracts.len() <= usize::MAX,
    ensures
        work_from(s, state, report, given, i).state.wait == FileWait::Ended(Verdict::Accepted),
        work_from(s, state, report, given, i).report == (Report {
            contracts: report.contracts.insert(
                state.filename,
                code_reports(given, state.found, i),
            ),
            ..report
        }),
    decreases state.namespace.contracts.len() - i,
{
    reveal(work);
    let none = Seq::<EffectView>::empty();
    let first = go_on(s, state, report, none, i);
    if i < state.namespace.contracts.len() {
        if !state.namespace.contracts[i as int].is_concrete {
            contracts_are_reported(s, state, report, given, i + 1);
        } else {
            let k = i as usize;
            let state1 = first.state;
            assert(state1.wait == FileWait::Binary(k));
            let state2 = file_step(s, state1, report, answer(given, state1.wait)).state;
            assert(state2.wait == FileWait::JsonAbi(k));
            let state3 = file_step(s, state2, report, answer(given, state2.wait)).state;
            assert(state3.wait == FileWait::JsonCode(k));
            let state4 = FileState {
                found: state3.found.insert(
                    state3.binary,
                    code_report(state3.abi, (given.code)(k)@),
                ),
                abi: Seq::empty(),
                ..state3
            };
            work_goes_on(s, state4, report, given, none, i + 1);
            contracts_are_reported(s, state4, report, given, i + 1);
            let work3 = work(s, state3, report, given);
            let work2 = work(s, state2, report, given);
            let work1 = work(s, state1, report, given);
            assert(work1.report == work2.report && work2.report == work3.report);
        }
    }
}

/// For Solana, with JSON and neither the control flow graphs nor the syntax trees asked for, the
/// work on the contracts from number `i` on finds of each concrete one its ABI and the account data
/// it needs, and hands what was found over under the name of the file; the file is accepted. The
/// account data of each has to fit in 32 bits.
pub proof fn solana_contracts_are_reported<E, A>(
    s: Settings,
    state: FileState<A>,
    report: Report<E, A>,
    given: Answers<E, A>,
    i: nat,
)
    requires
        s.emit != Some(Emit::Cfg),
        s.std_json,
        s.target == Target::Solana,
        state.namespace == given.namespace@,
        i <= state.namespace.contracts.len() <= usize::MAX,
        forall|j: int|
            i <= j < state.namespace.contracts.len() && (
            #[trigger] state.namespace.contracts[j]).is_concrete
                ==> minimum_space(state.namespace.contracts[j].fixed_layout_size@) is Some,
    ensures
        work_from(s, state, report, given, i).state.wait == FileWait::Ended(Verdict::Accepted),
        work_from(s, state, report, given, i).report == (Report {
            contracts: report.contracts.insert(
                state.filename,
                solana_reports(given, state.found, i),
            ),
            ..report
        }),
    decreases state.namespace.contracts.len() - i,
{
    reveal(work);
    let none = Seq::<EffectView>::empty();
    let first = go_on(s, state, report, none, i);
    if i < state.namespace.contracts.len() {
        let contract = state.namespace.contracts[i as int];
        if !contract.is_concrete {
            solana_contracts_are_reported(s, state, report, given, i + 1);
        } else {
            let k = i as usize;
            let state1 = first.state;
            assert(state1.wait == FileWait::SolanaAbi(k));
            let state2 = FileState {
                found: state1.found.insert(
                    contract.name@,
                    solana_report((given.abi)(k)@, contract.fixed_layout_size@),
                ),
                ..state1
            };
            work_goes_on(s, state2, report, given, account_data(s, contract), i + 1);
            solana_contracts_are_reported(s, state2, report, given, i + 1);
        }
    }
}

/// What has been collected of the diagnostics once a file has been resolved.
pub open spec fn with_diagnostics<E, A>(
    s: Settings,
    report: Report<E, A>,
    given: Answers<E, A>,
) -> Report<E, A> {
    if s.std_json {
        Report { errors: report.errors + given.diagnostics@, ..report }
    } else {
        report
    }
}

/// What is printed of the diagnostics of a file.
pub open spec fn diagnostics_printed(s: Settings) -> Seq<EffectView> {
    if s.std_json {
        Seq::empty()
    } else {
        seq![Effect::PrintDiagnostics]
    }
}

/// Whether what the compiler tells of a file lets it be compiled.
pub open spec fn compilable<E, A>(given: Answers<E, A>) -> bool {
    given.namespace@.contracts.len() > 0 && !given.namespace@.any_errors
}

/// Whether the account data of every concrete contract fits in 32 bits.
pub open spec fn reportable(namespace: NamespaceView) -> bool {
    forall|j: int|
        0 <= j < namespace.contracts.len() && (#[trigger] namespace.contracts[j]).is_concrete
            ==> minimum_space(namespace.contracts[j].fixed_layout_size@) is Some
}

/// The JSON result with the contracts found of a file recorded under its name.
pub open spec fn with_contracts<E, A>(
    report: Report<E, A>,
    filename: Seq<char>,
    found: Map<Seq<char>, ContractReport<A>>,
) -> Report<E, A> {
    Report { contracts: report.contracts.insert(filename, found), ..report }
}

/// The work on a file of which nothing is known, where no syntax tree is asked for, up to the point
/// at which it is judged: a file that cannot be compiled is rejected, and the contracts of any other
/// are worked on from the state returned.
pub(crate) proof fn work_reaches_judgement<E, A>(
    s: Settings,
    filename: Seq<char>,
    report: Report<E, A>,
    given: Answers<E, A>,
) -> (state: FileState<A>)
    requires
        s.emit != Some(Emit::AstDot),
    ensures
        given.namespace@.contracts.len() <= usize::MAX,
        ({
            let whole = work(s, untouched::<A>(filename), report, given);
            let after = with_diagnostics(s, report, given);
            if compilable(given) {
                let rest = work_from(s, state, after, given, 0);
                &&& state.namespace == given.namespace@
                &&& state.filename == filename
                &&& state.found == Map::<Seq<char>, ContractReport<A>>::empty()
                &&& whole.state == rest.state
                &&& whole.report == rest.report
                &&& whole.effects == diagnostics_printed(s) + rest.effects
            } else {
                &&& whole.state.wait == FileWait::Ended(Verdict::Rejected)
                &&& whole.report == after
                &&& whole.effects == diagnostics_printed(s)
            }
        }),
{
    reveal(work);
    let start = untouched::<A>(filename);
    assert(given.namespace.contracts.len() <= usize::MAX);
    let none = Seq::<EffectView>::empty();
    let whole = work(s, start, report, given);
    let resolved = FileState { namespace: given.namespace@, ..start };
    let after = with_diagnostics(s, report, given);
    if s.std_json {
        let waiting = FileState { wait: FileWait::Diagnostics, ..resolved };
        let step1 = file_step(s, start, report, answer(given, start.wait));
        assert(step1.state == waiting);
        let work1 = work(s, waiting, report, given);
        assert(whole.effects == none + work1.effects);
        assert(none + work1.effects =~= work1.effects);
        if compilable(given) {
            work_goes_on(s, waiting, after, given, none, 0);
            let next = work_from(s, waiting, after, given, 0);
            assert(none + next.effects =~= next.effects);
            let step2 = go_on(s, waiting, after, none, 0);
            assert(file_step(s, waiting, report, answer(given, waiting.wait)) == step2);
            assert(work1.effects == step2.effects + work(
                s,
                step2.state,
                step2.report,
                given,
            ).effects);
            assert(whole.state == next.state && whole.report == next.report);
        } else {
            let step2 = file_step(s, waiting, report, answer(given, waiting.wait));
            assert(work(s, step2.state, step2.report, given).effects == none);
            assert(none + none =~= none);
        }
        waiting
    } else {
        let lead = diagnostics_printed(s);
        if compilable(given) {
            work_goes_on(s, resolved, after, given, lead, 0);
            let next = work_from(s, resolved, after, given, 0);
            assert(whole.state == next.state && whole.report == next.report);
        } else {
            let step1 = file_step(s, start, report, answer(given, start.wait));
            assert(work(s, step1.state, step1.report, given).effects == none);
            assert(lead + none =~= lead);
        }
        resolved
    }
}

/// Where no syntax tree is asked for, a file without contracts or with an error is rejected: nothing
/// is written of it and nothing is recorded under its name.
pub proof fn bad_file_is_rejected<E, A>(
    s: Settings,
    filename: Seq<char>,
    report: Report<E, A>,
    given: Answers<E, A>,
)
    requires
        s.emit != Some(Emit::AstDot),
        !compilable(given),
    ensures
        ({
            let whole = work(s, untouched::<A>(filename), report, given);
            &&& whole.state.wait == FileWait::Ended(Verdict::Rejected)
            &&& whole.report == with_diagnostics(s, report, given)
            &&& written(whole.effects) == Seq::<EffectView>::empty()
        }),
{
    work_reaches_judgement(s, filename, report, given);
    written_none(work(s, untouched::<A>(filename), report, given).effects);
}

/// A file in order, compiled for a target other than Solana with no early stage and no JSON asked
/// for, is accepted, and the files written are the binary and the ABI of each concrete contract, in
/// order. No contract is recorded under its name.
pub proof fn good_file_is_written<E, A>(
    s: Settings,
    filename: Seq<char>,
    report: Report<E, A>,
    given: Answers<E, A>,
)
    requires
        s.emit is None,
        !s.std_json,
        s.target != Target::Solana,
        compilable(given),
    ensures
        ({
            let whole = work(s, untouched::<A>(filename), report, given);
            &&& whole.state.wait == FileWait::Ended(Verdict::Accepted)
            &&& written(whole.effects) == contract_files(s, given, 0)
            &&& whole.report == with_contracts(report, filename, Map::empty())
        }),
{
    let state = work_reaches_judgement(s, filename, report, given);
    let whole = work(s, untouched::<A>(filename), report, given);
    contracts_are_written(s, state, report, given, 0);
    written_none(diagnostics_printed(s));
    written_add(diagnostics_printed(s), work_from(s, state, report, given, 0).effects);
    assert(written(whole.effects) =~= contract_files(s, given, 0));
}

/// A file in order, compiled with JSON and no early stage asked for, is accepted. Its diagnostics are
/// added, and under its name stands what was found of its concrete contracts: for Solana the ABI and
/// the account data, which has to fit in 32 bits, for any other target the ABI and the code.
pub proof fn good_file_is_reported<E, A>(
    s: Settings,
    filename: Seq<char>,
    report: Report<E, A>,
    given: Answers<E, A>,
)
    requires
        s.emit is None,
        s.std_json,
        compilable(given),
        s.target == Target::Solana ==> reportable(given.namespace@),
    ensures
        ({
            let whole = work(s, untouched::<A>(filename), report, given);
            let none = Map::<Seq<char>, ContractReport<A>>::empty();
            &&& whole.state.wait == FileWait::Ended(Verdict::Accepted)
            &&& whole.report == (Report {
                errors: report.errors + given.diagnostics@,
                contracts: report.contracts.insert(
                    filename,
                    if s.target == Target::Solana {
                        solana_reports(given, none, 0)
                    } else {
                        code_reports(given, none, 0)
                    },
                ),
                ..report
            })
        }),
{
    let state = work_reaches_judgement(s, filename, report, given);
    let after = with_diagnostics(s, report, given);
    if s.target == Target::Solana {
        solana_contracts_are_reported(s, state, after, given, 0);
    } else {
        contracts_are_reported(s, state, after, given, 0);
    }
}

/// For Solana visiting contracts writes nothing, and asks for nothing unless they are reported as
/// JSON.
proof fn solana_visit_writes_nothing(s: Settings, namespace: NamespaceView, i: nat)
    requires
        s.target == Target::Solana,
    ensures
        forall|k: int|
            0 <= k < visit(s, namespace, i).effects.len() ==> !writes(
                #[trigger] visit(s, namespace, i).effects[k],
            ),
        !s.std_json || s.emit == Some(Emit::Cfg) ==> visit(s, namespace, i).wait
            == FileWait::Ended(Verdict::Accepted),
    decreases namespace.contracts.len() - i,
{
    if i < namespace.contracts.len() {
        solana_visit_writes_nothing(s, namespace, i + 1);
    }
}

/// The work on a file for Solana writes nothing, wherever it stands.
proof fn solana_work_writes_nothing<E, A>(
    s: Settings,
    state: FileState<A>,
    report: Report<E, A>,
    given: Answers<E, A>,
)
    requires
        s.target == Target::Solana,
        s.emit != Some(Emit::AstDot),
        state.valid(),
        wait_in_order(s, state.wait),
    ensures
        written(work(s, state, report, given).effects) == Seq::<EffectView>::empty(),
    decreases
            if state.wait is Resolve {
                1nat
            } else {
                0nat
            },
            contracts_left(state.namespace, state.wait),
            answers_left(state.wait),
{
    reveal(work);
    let none = Seq::<EffectView>::empty();
    let event = answer(given, state.wait);
    written_none(none);
    if answers(state.wait, state.namespace, event) {
        file_step_in_order(s, state, report, event);
        file_step_advances(s, state, report, event);
        solana_visit_writes_nothing(s, given.namespace@, 0);
        solana_visit_writes_nothing(s, state.namespace, 0);
        if let Some(i) = wait_contract(state.wait) {
            solana_visit_writes_nothing(s, state.namespace, (i + 1) as nat);
        }
        let first = file_step(s, state, report, event);
        written_none(first.effects);
        solana_work_writes_nothing(s, first.state, first.report, given);
        written_add(first.effects, work(s, first.state, first.report, given).effects);
        assert(none + none =~= none);
    }
}

/// A file in order for Solana of which nothing is to be reported as JSON.
proof fn solana_file_is_visited<E, A>(
    s: Settings,
    filename: Seq<char>,
    report: Report<E, A>,
    given: Answers<E, A>,
)
    requires
        s.target == Target::Solana,
        s.emit != Some(Emit::AstDot),
        !s.std_json || s.emit == Some(Emit::Cfg),
        compilable(given),
    ensures
        ({
            let whole = work(s, untouched::<A>(filename), report, given);
            &&& whole.state.wait == FileWait::Ended(Verdict::Accepted)
            &&& whole.report == with_contracts(
                with_diagnostics(s, report, given),
                filename,
                Map::empty(),
            )
        }),
{
    reveal(work);
    let state = work_reaches_judgement(s, filename, report, given);
    let after = with_diagnostics(s, report, given);
    solana_visit_writes_nothing(s, given.namespace@, 0);
    let first = go_on(s, state, after, Seq::empty(), 0);
    assert(first.state.wait == FileWait::Ended(Verdict::Accepted));
    let rest = work(s, first.state, first.report, given);
    assert(rest.report == first.report && rest.state == first.state);
}

/// A file in order for Solana that is reported as JSON.
proof fn solana_file_is_reported<E, A>(
    s: Settings,
    filename: Seq<char>,
    report: Report<E, A>,
    given: Answers<E, A>,
)
    requires
        s.target == Target::Solana,
        s.emit != Some(Emit::AstDot),
        s.emit != Some(Emit::Cfg),
        s.std_json,
        compilable(given),
        reportable(given.namespace@),
    ensures
        ({
            let whole = work(s, untouched::<A>(filename), report, given);
            &&& whole.state.wait == FileWait::Ended(Verdict::Accepted)
            &&& whole.report == with_contracts(
                with_diagnostics(s, report, given),
                filename,
                solana_reports(given, Map::empty(), 0),
            )
        }),
{
    let state = work_reaches_judgement(s, filename, report, given);
    solana_contracts_are_reported(s, state, with_diagnostics(s, report, given), given, 0);
}

/// For Solana, where no syntax tree is asked for, nothing is written of a file by itself, whatever
/// else is asked for and whatever the compiler answers. A file in order is accepted, where its
/// account data fits in 32 bits if that is to be reported; what was found is recorded under its name.
pub proof fn solana_file_writes_nothing<E, A>(
    s: Settings,
    filename: Seq<char>,
    report: Report<E, A>,
    given: Answers<E, A>,
)
    requires
        s.target == Target::Solana,
        s.emit != Some(Emit::AstDot),
    ensures
        ({
            let whole = work(s, untouched::<A>(filename), report, given);
            let reports = s.std_json && s.emit != Some(Emit::Cfg);
            &&& written(whole.effects) == Seq::<EffectView>::empty()
            &&& compilable(given) && (reports ==> reportable(given.namespace@)) ==> {
                &&& whole.state.wait == FileWait::Ended(Verdict::Accepted)
                &&& whole.report == with_contracts(
                    with_diagnostics(s, report, given),
                    filename,
                    if reports {
                        solana_reports(given, Map::empty(), 0)
                    } else {
                        Map::empty()
                    },
                )
            }
        }),
{
    solana_work_writes_nothing(s, untouched::<A>(filename), report, given);
    if compilable(given) {
        if !s.std_json || s.emit == Some(Emit::Cfg) {
            solana_file_is_visited(s, filename, report, given);
        } else if reportable(given.namespace@) {
            solana_file_is_reported(s, filename, report, given);
        }
    }
}

/// The contracts reported for Solana, where nothing had been found before, are exactly the concrete
/// ones.
pub proof fn solana_reports_name_concrete_contracts<E, A>(
    given: Answers<E, A>,
    found: Map<Seq<char>, ContractReport<A>>,
    i: nat,
    name: Seq<char>,
)
    ensures
        solana_reports(given, found, i).contains_key(name) <==> found.contains_key(name) || exists|
            j: int,
        |
            i <= j < given.namespace@.contracts.len() && (
            #[trigger] given.namespace@.contracts[j]).is_concrete
                && given.namespace@.contracts[j].name@ == name,
    decreases given.namespace@.contracts.len() - i,
{
    if i < given.namespace@.contracts.len() {
        let contract = given.namespace@.contracts[i as int];
        let next = if contract.is_concrete {
            found.insert(
                contract.name@,
                ContractReport {
                    abi: (given.abi)(i as usize)@,
                    ewasm: None,
                    minimum_space: Some(decimal_value(contract.fixed_layout_size@) as u32),
                },
            )
        } else {
            found
        };
        solana_reports_name_concrete_contracts(given, next, i + 1, name);
        if contract.is_concrete && contract.name@ == name {
            assert(given.namespace@.contracts[i as int].is_concrete);
        }
    }
}

/// The contracts reported with their code, where nothing had been found before, are exactly those
/// under the names of the binaries of the concrete ones.
pub proof fn code_reports_name_binaries<E, A>(
    given: Answers<E, A>,
    found: Map<Seq<char>, ContractReport<A>>,
    i: nat,
    name: Seq<char>,
)
    requires
        given.namespace@.contracts.len() <= usize::MAX,
    ensures
        code_reports(given, found, i).contains_key(name) <==> found.contains_key(name) || exists|
            j: int,
        |
            i <= j < given.namespace@.contracts.len() && (
            #[trigger] given.namespace@.contracts[j]).is_concrete && (given.binary)(
                j as usize,
            ).name@ == name,
    decreases given.namespace@.contracts.len() - i,
{
    if i < given.namespace@.contracts.len() {
        let k = i as usize;
        let is_concrete = given.namespace@.contracts[i as int].is_concrete;
        let next = if is_concrete {
            found.insert(
                (given.binary)(k).name@,
                ContractReport {
                    abi: (given.abi)(k)@,
                    ewasm: Some(hex_upper((given.code)(k)@)),
                    minimum_space: None,
                },
            )
        } else {
            found
        };
        code_reports_name_binaries(given, next, i + 1, name);
        if is_concrete && (given.binary)(k).name@ == name {
            assert(given.namespace@.contracts[i as int].is_concrete);
        }
    }
}

} // verus!
