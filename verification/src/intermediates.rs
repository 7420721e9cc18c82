//! The compiler state that is written at an early stage.
use vstd::prelude::*;
use vstd::string::*;

use crate::output::{
    file_named, output_file, saving, say_saving, views, views_empty, views_push, Content,
    DriverEffect, Effect, EffectView, Part,
};
use crate::protocol::{BinaryInfo, Generate};
use crate::settings::{Emit, Settings};

verus! {

/// What becomes of a binary at an early stage.
#[derive(Debug, PartialEq, Eq)]
pub enum Intermediates<F> {
    /// It is written like this, and nothing else is made of it.
    Saved(F),
    /// Code of this form is to be made of it, and written.
    Code(Generate),
    /// No early stage is asked for.
    Unhandled,
}

impl View for Intermediates<Vec<DriverEffect>> {
    type V = Intermediates<Seq<EffectView>>;

    open spec fn view(&self) -> Intermediates<Seq<EffectView>> {
        match self {
            Intermediates::Saved(effects) => Intermediates::Saved(views(effects@)),
            Intermediates::Code(generate) => Intermediates::Code(*generate),
            Intermediates::Unhandled => Intermediates::Unhandled,
        }
    }
}

/// Writing one module of a binary as LLVM IR.
pub open spec fn dump_llvm(
    s: Settings,
    part: Part,
    artifact: Seq<char>,
    stem: Seq<char>,
    contract: Seq<char>,
) -> Seq<EffectView> {
    let file = file_named(s, stem, "ll"@);
    saving(s, artifact, file, contract).push(Effect::DumpLlvm(part, file))
}

/// Writing one module of a binary as LLVM bitcode.
pub open spec fn save_bitcode(
    s: Settings,
    part: Part,
    artifact: Seq<char>,
    stem: Seq<char>,
    contract: Seq<char>,
) -> Seq<EffectView> {
    let file = file_named(s, stem, "bc"@);
    saving(s, artifact, file, contract).push(Effect::SaveBitcode(part, file))
}

/// What becomes of a binary at the stage asked for. A binary with a runtime is written as two
/// files, the deployer and the runtime.
pub open spec fn intermediates(s: Settings, binary: BinaryInfo) -> Intermediates<Seq<EffectView>> {
    let name = binary.name@;
    match s.emit {
        Some(Emit::LlvmIr) => Intermediates::Saved(
            if binary.has_runtime {
                dump_llvm(s, Part::Main, "deployer LLVM"@, name + "_deploy"@, name) + dump_llvm(
                    s,
                    Part::Runtime,
                    "runtime LLVM"@,
                    name + "_runtime"@,
                    name,
                )
            } else {
                dump_llvm(s, Part::Main, "LLVM IR"@, name, name)
            },
        ),
        Some(Emit::LlvmBc) => Intermediates::Saved(
            if binary.has_runtime {
                save_bitcode(s, Part::Main, "deploy LLVM BC"@, name + "_deploy"@, name)
                    + save_bitcode(s, Part::Runtime, "runtime LLVM BC"@, name + "_runtime"@, name)
            } else {
                save_bitcode(s, Part::Main, "LLVM BC"@, name, name)
            },
        ),
        Some(Emit::Object) => Intermediates::Code(Generate::Object),
        Some(Emit::Asm) => Intermediates::Code(Generate::Assembly),
        Some(Emit::Cfg) => Intermediates::Saved(Seq::empty()),
        Some(Emit::AstDot) => Intermediates::Saved(Seq::empty()),
        None => Intermediates::Unhandled,
    }
}

/// Adds the writing of one module as LLVM IR.
fn add_dump(
    effects: &mut Vec<DriverEffect>,
    s: &Settings,
    part: Part,
    artifact: &str,
    stem: &str,
    contract: &str,
)
    ensures
        views(final(effects)@) == views(old(effects)@) + dump_llvm(
            *s,
            part,
            artifact@,
            stem@,
            contract@,
        ),
{
    broadcast use views_push;

    let file = output_file(s, stem, "ll");
    say_saving(effects, s, artifact, &file, contract);
    effects.push(Effect::DumpLlvm(part, file));
    assert(views(effects@) =~= views(old(effects)@) + dump_llvm(
        *s,
        part,
        artifact@,
        stem@,
        contract@,
    ));
}

/// Adds the writing of one module as LLVM bitcode.
fn add_bitcode(
    effects: &mut Vec<DriverEffect>,
    s: &Settings,
    part: Part,
    artifact: &str,
    stem: &str,
    contract: &str,
)
    ensures
        views(final(effects)@) == views(old(effects)@) + save_bitcode(
            *s,
            part,
            artifact@,
            stem@,
            contract@,
        ),
{
    broadcast use views_push;

    let file = output_file(s, stem, "bc");
    say_saving(effects, s, artifact, &file, contract);
    effects.push(Effect::SaveBitcode(part, file));
    assert(views(effects@) =~= views(old(effects)@) + save_bitcode(
        *s,
        part,
        artifact@,
        stem@,
        contract@,
    ));
}

/// Decides what becomes of a binary at the stage asked for.
pub fn save_intermediates(s: &Settings, binary: &BinaryInfo) -> (r: Intermediates<
    Vec<DriverEffect>,
>)
    ensures
        r@ == intermediates(*s, *binary),
{
    broadcast use views_empty;

    let name: &str = binary.name.as_str();
    let mut effects: Vec<DriverEffect> = Vec::new();
    match s.emit {
        Some(Emit::LlvmIr) => {
            if binary.has_runtime {
                let deploy = name.to_owned().concat("_deploy");
                add_dump(&mut effects, s, Part::Main, "deployer LLVM", deploy.as_str(), name);
                let runtime = name.to_owned().concat("_runtime");
                add_dump(&mut effects, s, Part::Runtime, "runtime LLVM", runtime.as_str(), name);
            } else {
                add_dump(&mut effects, s, Part::Main, "LLVM IR", name, name);
            }
            assert(is_saved(views(effects@), intermediates(*s, *binary)));
            Intermediates::Saved(effects)
        },
        Some(Emit::LlvmBc) => {
            if binary.has_runtime {
                let deploy = name.to_owned().concat("_deploy");
                add_bitcode(&mut effects, s, Part::Main, "deploy LLVM BC", deploy.as_str(), name);
                let runtime = name.to_owned().concat("_runtime");
                add_bitcode(
                    &mut effects,
                    s,
                    Part::Runtime,
                    "runtime LLVM BC",
                    runtime.as_str(),
                    name,
                );
            } else {
                add_bitcode(&mut effects, s, Part::Main, "LLVM BC", name, name);
            }
            assert(is_saved(views(effects@), intermediates(*s, *binary)));
            Intermediates::Saved(effects)
        },
        Some(Emit::Object) => Intermediates::Code(Generate::Object),
        Some(Emit::Asm) => Intermediates::Code(Generate::Assembly),
        Some(Emit::Cfg) => Intermediates::Saved(effects),
        Some(Emit::AstDot) => Intermediates::Saved(effects),
        None => Intermediates::Unhandled,
    }
}

/// Whether the decision is to write exactly `effects`.
spec fn is_saved(effects: Seq<EffectView>, decision: Intermediates<Seq<EffectView>>) -> bool {
    decision is Saved && effects =~= decision->Saved_0
}

/// What the form of code is called.
pub open spec fn generate_name(generate: Generate) -> Seq<char> {
    match generate {
        Generate::Object => "Object"@,
        Generate::Assembly => "Assembly"@,
    }
}

/// The extension of a file that holds the form of code.
pub open spec fn generate_extension(generate: Generate) -> Seq<char> {
    match generate {
        Generate::Object => "o"@,
        Generate::Assembly => "asm"@,
    }
}

/// What is done with code made at an early stage: it is written, or, where there is none, the
/// reason is printed on standard output.
pub open spec fn generated(
    s: Settings,
    generate: Generate,
    contract: Seq<char>,
    code: Result<Vec<u8>, String>,
) -> Seq<EffectView> {
    match code {
        Ok(bytes) => {
            let file = file_named(s, contract, generate_extension(generate));
            saving(s, generate_name(generate), file, contract).push(
                Effect::Save(file, Content::Bytes(bytes@)),
            )
        },
        Err(reason) => seq![Effect::Print("error: "@ + reason@)],
    }
}

/// Decides what is done with code made at an early stage.
pub fn save_generated(
    s: &Settings,
    generate: Generate,
    contract: &str,
    code: Result<Vec<u8>, String>,
) -> (r: Vec<DriverEffect>)
    ensures
        views(r@) == generated(*s, generate, contract@, code),
{
    broadcast use {views_push, views_empty};

    let mut effects: Vec<DriverEffect> = Vec::new();
    match code {
        Ok(bytes) => {
            let (artifact, extension) = match generate {
                Generate::Object => ("Object", "o"),
                Generate::Assembly => ("Assembly", "asm"),
            };
            let file = output_file(s, contract, extension);
            say_saving(&mut effects, s, artifact, &file, contract);
            effects.push(Effect::Save(file, Content::Bytes(bytes)));
        },
        Err(reason) => {
            effects.push(Effect::Print("error: ".to_owned().concat(reason.as_str())));
        },
    }
    assert(views(effects@) =~= generated(*s, generate, contract@, code));
    effects
}

} // verus!
