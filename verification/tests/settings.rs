use solang_driver::output::Failure;
use solang_driver::settings::{
    choose_target, parse_emit, parse_length, parse_level, ArgumentError, DisabledPasses, Emit,
    OptimizationLevel, Options, Target, TargetArguments,
};

fn arguments(target: &str, address: Option<&str>, value: Option<&str>) -> TargetArguments {
    TargetArguments {
        target: target.to_string(),
        address_length: address.unwrap_or("32").to_string(),
        address_length_given: address.is_some(),
        value_length: value.unwrap_or("16").to_string(),
        value_length_given: value.is_some(),
    }
}

#[test]
fn lengths_lie_between_four_and_1024() {
    assert_eq!(parse_length("32"), Some(32));
    assert_eq!(parse_length("4"), Some(4));
    assert_eq!(parse_length("3"), None);
    assert_eq!(parse_length("1023"), Some(1023));
    assert_eq!(parse_length("1024"), None);
    assert_eq!(parse_length("99999999999999999999999999999999"), None);
}

#[test]
fn lengths_are_decimal_digits_after_an_optional_plus() {
    assert_eq!(parse_length("+4"), Some(4));
    assert_eq!(parse_length("00016"), Some(16));
    assert_eq!(parse_length(""), None);
    assert_eq!(parse_length("+"), None);
    assert_eq!(parse_length("-8"), None);
    assert_eq!(parse_length("++8"), None);
    assert_eq!(parse_length("8 "), None);
    assert_eq!(parse_length(" 8"), None);
    assert_eq!(parse_length("1_0"), None);
    assert_eq!(parse_length("0x20"), None);
    assert_eq!(parse_length("３２"), None);
}

#[test]
fn lengths_are_read_as_the_standard_library_reads_them() {
    for text in ["32", "+4", "3", "1024", "", "+", "-8", "++8", "8 ", "007", "1_0", "a", "4a"] {
        let expected = match text.parse::<usize>() {
            Ok(length) if (4..1024).contains(&length) => Some(length),
            _ => None,
        };
        assert_eq!(parse_length(text), expected);
    }
}

#[test]
fn targets_are_chosen_by_name() {
    assert_eq!(choose_target(&arguments("solana", None, None)), Ok(Target::Solana));
    assert_eq!(choose_target(&arguments("ewasm", None, None)), Ok(Target::Ewasm));
    assert_eq!(
        choose_target(&arguments("substrate", None, None)),
        Ok(Target::Substrate { address_length: 32, value_length: 16 })
    );
    assert_eq!(
        choose_target(&arguments("substrate", Some("20"), Some("8"))),
        Ok(Target::Substrate { address_length: 20, value_length: 8 })
    );
}

#[test]
fn only_substrate_has_lengths_to_choose() {
    assert!(Target::Substrate { address_length: 4, value_length: 4 }.is_substrate());
    assert!(!Target::Solana.is_substrate());
    assert!(!Target::Ewasm.is_substrate());
    assert_eq!(
        choose_target(&arguments("solana", Some("20"), None)),
        Err(ArgumentError::FixedAddressLength(Target::Solana))
    );
    assert_eq!(
        choose_target(&arguments("ewasm", None, Some("20"))),
        Err(ArgumentError::FixedValueLength(Target::Ewasm))
    );
    assert_eq!(
        choose_target(&arguments("ewasm", Some("20"), Some("20"))),
        Err(ArgumentError::FixedAddressLength(Target::Ewasm))
    );
}

#[test]
fn lengths_out_of_range_are_refused_first() {
    assert_eq!(
        choose_target(&arguments("solana", Some("2"), Some("x"))),
        Err(ArgumentError::AddressLength)
    );
    assert_eq!(
        choose_target(&arguments("solana", Some("20"), Some("x"))),
        Err(ArgumentError::ValueLength)
    );
}

#[test]
fn argument_errors_end_the_run() {
    let args = arguments("solana", Some("2"), Some("x"));
    let failure = |line: &str| Failure { line: line.to_string(), code: 1 };
    assert_eq!(
        ArgumentError::AddressLength.failure(&args, ""),
        failure("error: address length ‘2’ is not valid")
    );
    assert_eq!(
        ArgumentError::ValueLength.failure(&args, ""),
        failure("error: value length ‘x’ is not valid")
    );
    assert_eq!(
        ArgumentError::FixedAddressLength(Target::Solana).failure(&args, "solana"),
        failure("error: address length cannot be modified for target ‘solana’")
    );
    assert_eq!(
        ArgumentError::FixedValueLength(Target::Solana).failure(&args, "solana"),
        failure("error: value length cannot be modified for target ‘solana’")
    );
}

#[test]
fn stages_have_names() {
    assert_eq!(parse_emit("ast-dot"), Some(Emit::AstDot));
    assert_eq!(parse_emit("cfg"), Some(Emit::Cfg));
    assert_eq!(parse_emit("llvm-ir"), Some(Emit::LlvmIr));
    assert_eq!(parse_emit("llvm-bc"), Some(Emit::LlvmBc));
    assert_eq!(parse_emit("object"), Some(Emit::Object));
    assert_eq!(parse_emit("asm"), Some(Emit::Asm));
    assert_eq!(parse_emit("wasm"), None);
}

#[test]
fn levels_have_names() {
    assert_eq!(parse_level("none"), Some(OptimizationLevel::Disabled));
    assert_eq!(parse_level("less"), Some(OptimizationLevel::Less));
    assert_eq!(parse_level("default"), Some(OptimizationLevel::Default));
    assert_eq!(parse_level("aggressive"), Some(OptimizationLevel::Aggressive));
    assert_eq!(parse_level("O3"), None);
}

#[test]
fn passes_run_unless_switched_off() {
    let disabled = DisabledPasses {
        dead_storage: true,
        constant_folding: false,
        strength_reduce: true,
        vector_to_slice: false,
        common_subexpression_elimination: true,
    };
    let options = Options::new(disabled, true, OptimizationLevel::Less);
    assert!(!options.dead_storage);
    assert!(options.constant_folding);
    assert!(!options.strength_reduce);
    assert!(options.vector_to_slice);
    assert!(!options.common_subexpression_elimination);
    assert!(options.math_overflow_check);
    assert_eq!(options.opt_level, OptimizationLevel::Less);
}
