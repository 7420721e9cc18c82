//! The linking of all contracts into one binary, for Solana.
use vstd::prelude::*;
use vstd::string::*;

use crate::intermediates::{
    generated, intermediates, save_generated, save_intermediates, Intermediates,
};
use crate::json::{JsonResult, Report};
use crate::names::{concrete_names, list_names, name_listing};
use crate::output::{
    file_named, output_file, say_saving, views, views_empty, views_push, Content, DriverEffect,
    Effect, EffectView, OutputFile,
};
use crate::outside::{hex_upper, joined};
use crate::process_file::save_abi;
use crate::protocol::{
    namespace_views, numbered, Event, Generate, NamespaceInfo, NamespaceView, Verdict,
};
use crate::settings::Settings;

verus! {

/// What the linking waits for.
#[derive(Debug, Clone, Copy, PartialEq, Eq, Structural)]
pub enum BundleWait {
    /// All files are to be compiled into one binary.
    Binary,
    /// Code of the binary at an early stage.
    Generated(Generate),
    /// The linked code of the binary.
    Linked,
    /// The ABI of a contract, to be written. The numbers are those of the file among the files
    /// kept, and of the contract in it.
    AbiFile(usize, usize),
    /// Nothing: the linking is over.
    Ended(Verdict),
}

/// The linking of all contracts into one binary.
pub struct BundleJob {
    binary: String,
    wait: BundleWait,
}

/// How far the linking has come: the name of the binary and what is waited for.
#[verifier::ext_equal]
pub struct BundleState {
    pub binary: Seq<char>,
    pub wait: BundleWait,
}

impl View for BundleJob {
    type V = BundleState;

    closed spec fn view(&self) -> BundleState {
        BundleState { binary: self.binary@, wait: self.wait }
    }
}

/// The linking before it has begun.
pub open spec fn unlinked() -> BundleState {
    BundleState { binary: Seq::empty(), wait: BundleWait::Binary }
}

impl BundleState {
    /// Whether the files can be numbered and the contract that is waited on is one of theirs.
    pub open spec fn valid(self, namespaces: Seq<NamespaceView>) -> bool {
        &&& numbered(namespaces)
        &&& self.wait matches BundleWait::AbiFile(n, c) ==> n < namespaces.len() && c
            < namespaces[n as int].contracts.len()
    }
}

/// Whether the event answers what is waited for.
pub open spec fn bundle_answers<E, A>(wait: BundleWait, event: Event<E, A>) -> bool {
    match wait {
        BundleWait::Binary => event is Emitted,
        BundleWait::Generated(_) => event is Generated,
        BundleWait::Linked => event is Code,
        BundleWait::AbiFile(_, _) => event is AbiFile,
        BundleWait::Ended(_) => false,
    }
}

/// The first concrete contract from contract `c` of file `n` on.
pub open spec fn next_concrete(namespaces: Seq<NamespaceView>, n: nat, c: nat) -> Option<
    (nat, nat),
>
    decreases namespaces.len() - n, namespaces[n as int].contracts.len() - c,
{
    if n >= namespaces.len() {
        None
    } else if c >= namespaces[n as int].contracts.len() {
        next_concrete(namespaces, n + 1, 0)
    } else if namespaces[n as int].contracts[c as int].is_concrete {
        Some((n, c))
    } else {
        next_concrete(namespaces, n, c + 1)
    }
}

/// What is waited for where the contracts from contract `c` of file `n` on need their ABI written.
pub open spec fn next_abi(namespaces: Seq<NamespaceView>, n: nat, c: nat) -> BundleWait {
    match next_concrete(namespaces, n, c) {
        Some((n, c)) => BundleWait::AbiFile(n as usize, c as usize),
        None => BundleWait::Ended(Verdict::Accepted),
    }
}

/// The file that the linked binary is written to.
pub open spec fn bundle_file(s: Settings) -> OutputFile<Seq<char>> {
    file_named(s, "bundle"@, s.binary_extension@)
}

/// What a verbose run says before the linked binary is written: the names of its contracts, in
/// ascending order and each once.
pub open spec fn saving_bundle(s: Settings, namespaces: Seq<NamespaceView>) -> Seq<EffectView> {
    if s.verbose {
        seq![
            Effect::InfoFile {
                before: "info: Saving binary "@,
                file: bundle_file(s),
                after: " for contracts: "@ + joined(
                    name_listing(concrete_names(namespaces)),
                    ", "@,
                ),
            },
        ]
    } else {
        Seq::empty()
    }
}

/// The outcome of a step: the new state, the JSON result and what is to be done.
#[verifier::ext_equal]
pub struct BundleStep<E, A> {
    pub state: BundleState,
    pub report: Report<E, A>,
    pub effects: Seq<EffectView>,
}

/// What the answer `event` leads to.
pub open spec fn bundle_step<E, A>(
    s: Settings,
    namespaces: Seq<NamespaceView>,
    state: BundleState,
    report: Report<E, A>,
    event: Event<E, A>,
) -> BundleStep<E, A> {
    let none = Seq::<EffectView>::empty();
    let done = BundleWait::Ended(Verdict::Accepted);
    match (state.wait, event) {
        (BundleWait::Binary, Event::Emitted(binary)) => {
            let state = BundleState { binary: binary.name@, ..state };
            match intermediates(s, binary) {
                Intermediates::Saved(effects) => BundleStep {
                    state: BundleState { wait: done, ..state },
                    report,
                    effects,
                },
                Intermediates::Code(generate) => BundleStep {
                    state: BundleState { wait: BundleWait::Generated(generate), ..state },
                    report,
                    effects: none,
                },
                Intermediates::Unhandled => BundleStep {
                    state: BundleState { wait: BundleWait::Linked, ..state },
                    report,
                    effects: saving_bundle(s, namespaces),
                },
            }
        },
        (BundleWait::Generated(generate), Event::Generated(code)) => BundleStep {
            state: BundleState {
                wait: if code is Ok {
                    done
                } else {
                    BundleWait::Ended(Verdict::Exit(1))
                },
                ..state
            },
            report,
            effects: generated(s, generate, state.binary, code),
        },
        (BundleWait::Linked, Event::Code(code)) => if s.std_json {
            BundleStep {
                state: BundleState { wait: done, ..state },
                report: Report { program: hex_upper(code@), ..report },
                effects: none,
            }
        } else {
            BundleStep {
                state: BundleState { wait: next_abi(namespaces, 0, 0), ..state },
                report,
                effects: seq![Effect::Save(bundle_file(s), Content::Bytes(code@))],
            }
        },
        (BundleWait::AbiFile(n, c), Event::AbiFile { content, extension }) => BundleStep {
            state: BundleState { wait: next_abi(namespaces, n as nat, (c + 1) as nat), ..state },
            report,
            effects: save_abi(
                s,
                namespaces[n as int].contracts[c as int].name@,
                content@,
                extension@,
            ),
        },
        _ => BundleStep { state, report, effects: none },
    }
}

/// Looks for the next contract whose ABI is to be written.
fn find_abi(namespaces: &Vec<NamespaceInfo>, n: usize, c: usize) -> (r: BundleWait)
    ensures
        r == next_abi(namespace_views(namespaces@), n as nat, c as nat),
        r matches BundleWait::AbiFile(m, d) ==> m < namespaces@.len() && d
            < namespaces@[m as int].contracts@.len(),
{
    let ghost files = namespace_views(namespaces@);
    let ghost whole = next_concrete(files, n as nat, c as nat);
    let mut file: usize = n;
    let mut contract: usize = c;
    while file < namespaces.len()
        invariant
            files == namespace_views(namespaces@),
            whole == next_concrete(files, n as nat, c as nat),
            whole == next_concrete(files, file as nat, contract as nat),
        decreases
                namespaces@.len() - file,
                files[file as int].contracts.len() - contract,
    {
        assert(files[file as int].contracts == namespaces@[file as int].contracts@);
        if contract >= namespaces[file].contracts.len() {
            file = file + 1;
            contract = 0;
        } else if namespaces[file].contracts[contract].is_concrete {
            return BundleWait::AbiFile(file, contract);
        } else {
            contract = contract + 1;
        }
    }
    BundleWait::Ended(Verdict::Accepted)
}

impl BundleJob {
    /// The linking before it has begun.
    pub fn new() -> (r: Self)
        ensures
            r@ == unlinked(),
    {
        BundleJob { binary: String::new(), wait: BundleWait::Binary }
    }

    /// What is waited for.
    pub fn wait(&self) -> (r: BundleWait)
        ensures
            r == self@.wait,
    {
        self.wait
    }

    /// Whether the event answers what is waited for.
    pub fn accepts<E, A>(&self, event: &Event<E, A>) -> (r: bool)
        ensures
            r == bundle_answers(self@.wait, *event),
    {
        match (self.wait, event) {
            (BundleWait::Binary, Event::Emitted(_)) => true,
            (BundleWait::Generated(_), Event::Generated(_)) => true,
            (BundleWait::Linked, Event::Code(_)) => true,
            (BundleWait::AbiFile(_, _), Event::AbiFile { .. }) => true,
            _ => false,
        }
    }

    /// Takes the compiler's answer and returns what is to be done next.
    pub fn step<E, A>(
        &mut self,
        s: &Settings,
        namespaces: &Vec<NamespaceInfo>,
        json: &mut JsonResult<E, A>,
        event: Event<E, A>,
    ) -> (effects: Vec<DriverEffect>)
        requires
            old(self)@.valid(namespace_views(namespaces@)),
            bundle_answers(old(self)@.wait, event),
        ensures
            ({
                let r = bundle_step(
                    *s,
                    namespace_views(namespaces@),
                    old(self)@,
                    old(json)@,
                    event,
                );
                &&& final(self)@ == r.state
                &&& final(json)@ == r.report
                &&& views(effects@) == r.effects
            }),
            final(self)@.valid(namespace_views(namespaces@)),
    {
        broadcast use {views_push, views_empty};

        let ghost files = namespace_views(namespaces@);
        let mut effects: Vec<DriverEffect> = Vec::new();
        match (self.wait, event) {
            (BundleWait::Binary, Event::Emitted(binary)) => {
                let decision = save_intermediates(s, &binary);
                self.binary = binary.name;
                match decision {
                    Intermediates::Saved(saved) => {
                        effects = saved;
                        self.wait = BundleWait::Ended(Verdict::Accepted);
                    },
                    Intermediates::Code(generate) => {
                        self.wait = BundleWait::Generated(generate);
                    },
                    Intermediates::Unhandled => {
                        if s.verbose {
                            effects.push(
                                Effect::InfoFile {
                                    before: "info: Saving binary ".to_owned(),
                                    file: output_file(s, "bundle", s.binary_extension.as_str()),
                                    after: " for contracts: ".to_owned().concat(
                                        list_names(namespaces).as_str(),
                                    ),
                                },
                            );
                        }
                        assert(views(effects@) =~= saving_bundle(*s, files));
                        self.wait = BundleWait::Linked;
                    },
                }
            },
            (BundleWait::Generated(generate), Event::Generated(code)) => {
                self.wait = if code.is_ok() {
                    BundleWait::Ended(Verdict::Accepted)
                } else {
                    BundleWait::Ended(Verdict::Exit(1))
                };
                effects = save_generated(s, generate, self.binary.as_str(), code);
            },
            (BundleWait::Linked, Event::Code(code)) => {
                if s.std_json {
                    json.set_program(&code);
                    self.wait = BundleWait::Ended(Verdict::Accepted);
                } else {
                    let file = output_file(s, "bundle", s.binary_extension.as_str());
                    effects.push(Effect::Save(file, Content::Bytes(code)));
                    assert(views(effects@) =~= seq![
                        Effect::Save(bundle_file(*s), Content::Bytes(code@)),
                    ]);
                    self.wait = find_abi(namespaces, 0, 0);
                }
            },
            (BundleWait::AbiFile(n, c), Event::AbiFile { content, extension }) => {
                let contract = &namespaces[n].contracts[c];
                assert(namespaces[n as int].contracts.len() <= usize::MAX);
                let name: &str = contract.name.as_str();
                let file = output_file(s, name, extension.as_str());
                say_saving(&mut effects, s, "ABI", &file, name);
                effects.push(Effect::Save(file, Content::Text(content)));
                assert(views(effects@) =~= save_abi(*s, name@, content@, extension@));
                self.wait = find_abi(namespaces, n, c + 1);
            },
            _ => {},
        }
        effects
    }
}

} // verus!
