use solang_driver::intermediates::{save_generated, save_intermediates, Intermediates};
use solang_driver::output::{Content, DriverEffect, Effect, OutputFile, Part};
use solang_driver::protocol::{BinaryInfo, Generate};
use solang_driver::settings::{Emit, Settings, Target};

fn settings(emit: Option<Emit>, verbose: bool) -> Settings {
    Settings {
        target: Target::Ewasm,
        binary_extension: "wasm".to_string(),
        emit,
        verbose,
        std_json: false,
        output: Some("out".to_string()),
    }
}

fn binary(has_runtime: bool) -> BinaryInfo {
    BinaryInfo { name: "flipper".to_string(), has_runtime }
}

fn file(name: &str) -> OutputFile<String> {
    OutputFile { dir: "out".to_string(), name: name.to_string() }
}

fn saving(artifact: &str, name: &str) -> DriverEffect {
    Effect::InfoFile {
        before: format!("info: Saving {} ", artifact),
        file: file(name),
        after: " for contract flipper".to_string(),
    }
}

#[test]
fn nothing_is_saved_without_a_stage() {
    assert_eq!(save_intermediates(&settings(None, true), &binary(true)), Intermediates::Unhandled);
}

#[test]
fn graphs_and_trees_leave_the_binary_alone() {
    for emit in [Emit::Cfg, Emit::AstDot] {
        assert_eq!(
            save_intermediates(&settings(Some(emit), true), &binary(true)),
            Intermediates::Saved(vec![])
        );
    }
}

#[test]
fn llvm_ir_is_dumped() {
    assert_eq!(
        save_intermediates(&settings(Some(Emit::LlvmIr), false), &binary(false)),
        Intermediates::Saved(vec![Effect::DumpLlvm(Part::Main, file("flipper.ll"))])
    );
    assert_eq!(
        save_intermediates(&settings(Some(Emit::LlvmIr), true), &binary(false)),
        Intermediates::Saved(vec![
            saving("LLVM IR", "flipper.ll"),
            Effect::DumpLlvm(Part::Main, file("flipper.ll")),
        ])
    );
}

#[test]
fn deployer_and_runtime_are_dumped_apart() {
    assert_eq!(
        save_intermediates(&settings(Some(Emit::LlvmIr), true), &binary(true)),
        Intermediates::Saved(vec![
            saving("deployer LLVM", "flipper_deploy.ll"),
            Effect::DumpLlvm(Part::Main, file("flipper_deploy.ll")),
            saving("runtime LLVM", "flipper_runtime.ll"),
            Effect::DumpLlvm(Part::Runtime, file("flipper_runtime.ll")),
        ])
    );
}

#[test]
fn bitcode_is_saved() {
    assert_eq!(
        save_intermediates(&settings(Some(Emit::LlvmBc), true), &binary(false)),
        Intermediates::Saved(vec![
            saving("LLVM BC", "flipper.bc"),
            Effect::SaveBitcode(Part::Main, file("flipper.bc")),
        ])
    );
    assert_eq!(
        save_intermediates(&settings(Some(Emit::LlvmBc), true), &binary(true)),
        Intermediates::Saved(vec![
            saving("deploy LLVM BC", "flipper_deploy.bc"),
            Effect::SaveBitcode(Part::Main, file("flipper_deploy.bc")),
            saving("runtime LLVM BC", "flipper_runtime.bc"),
            Effect::SaveBitcode(Part::Runtime, file("flipper_runtime.bc")),
        ])
    );
}

#[test]
fn code_is_asked_for() {
    assert_eq!(
        save_intermediates(&settings(Some(Emit::Object), true), &binary(true)),
        Intermediates::Code(Generate::Object)
    );
    assert_eq!(
        save_intermediates(&settings(Some(Emit::Asm), true), &binary(true)),
        Intermediates::Code(Generate::Assembly)
    );
}

#[test]
fn generated_code_is_saved() {
    assert_eq!(
        save_generated(
            &settings(Some(Emit::Object), true),
            Generate::Object,
            "flipper",
            Ok(vec![1, 2])
        ),
        vec![
            saving("Object", "flipper.o"),
            Effect::Save(file("flipper.o"), Content::Bytes(vec![1, 2])),
        ]
    );
    assert_eq!(
        save_generated(
            &settings(Some(Emit::Asm), true),
            Generate::Assembly,
            "flipper",
            Ok(vec![3])
        ),
        vec![
            saving("Assembly", "flipper.asm"),
            Effect::Save(file("flipper.asm"), Content::Bytes(vec![3])),
        ]
    );
}

#[test]
fn missing_code_is_reported() {
    assert_eq!(
        save_generated(
            &settings(Some(Emit::Asm), true),
            Generate::Assembly,
            "flipper",
            Err("no backend".to_string())
        ),
        vec![Effect::Print("error: no backend".to_string())]
    );
}
