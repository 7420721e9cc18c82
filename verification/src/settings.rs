//! What the command line asks for.
use vstd::prelude::*;
use vstd::string::*;

use crate::output::Failure;
use crate::text::{
    all_digits, around, decimal_value, digits_are_zero_to_nine, is_digit, read_number, same,
};

verus! {

/// The chain to build for.
#[derive(Debug, Clone, Copy, PartialEq, Eq, Structural)]
pub enum Target {
    /// Solana, where all contracts are linked into one binary.
    Solana,
    /// Substrate, with the lengths of an address and of a value in bytes.
    Substrate { address_length: usize, value_length: usize },
    /// Ethereum flavoured WebAssembly.
    Ewasm,
}

impl Target {
    /// Whether this is Substrate, whatever its lengths.
    pub fn is_substrate(&self) -> (r: bool)
        ensures
            r == (self is Substrate),
    {
        match self {
            Target::Substrate { .. } => true,
            _ => false,
        }
    }
}

/// The early stage at which the compiler state is to be emitted.
#[derive(Debug, Clone, Copy, PartialEq, Eq, Structural)]
pub enum Emit {
    AstDot,
    Cfg,
    LlvmIr,
    LlvmBc,
    Object,
    Asm,
}

/// How hard the code generator optimizes.
#[derive(Debug, Clone, Copy, PartialEq, Eq, Structural)]
pub enum OptimizationLevel {
    Disabled,
    Less,
    Default,
    Aggressive,
}

/// The number that a length argument writes down: decimal digits after an optional plus sign.
pub open spec fn length_value(argument: Seq<char>) -> Option<nat> {
    let digits = if argument.len() > 0 && argument[0] == '+' {
        argument.drop_first()
    } else {
        argument
    };
    if digits.len() > 0 && all_digits(digits) {
        Some(decimal_value(digits))
    } else {
        None
    }
}

/// The length that an argument gives, where it is a number from 4 up to, not including, 1024.
pub open spec fn valid_length(argument: Seq<char>) -> Option<usize> {
    match length_value(argument) {
        Some(n) => if 4 <= n < 1024 {
            Some(n as usize)
        } else {
            None
        },
        None => None,
    }
}

/// Reads an address or value length.
pub fn parse_length(argument: &str) -> (r: Option<usize>)
    ensures
        r == valid_length(argument@),
        match r {
            Some(length) => is_length(argument@, length),
            None => !has_length(argument@),
        },
{
    proof {
        lengths_are_found(argument@);
    }
    let n: usize = argument.unicode_len();
    let number = if n > 0 && argument.get_char(0) == '+' {
        assert(argument@.subrange(1, n as int) =~= argument@.drop_first());
        read_number(argument.substring_char(1, n))
    } else {
        read_number(argument)
    };
    match number {
        Some(length) => if 4 <= length && length < 1024 {
            Some(length as usize)
        } else {
            None
        },
        None => None,
    }
}

/// What stands behind the optional plus sign of an argument.
pub open spec fn after_sign(argument: Seq<char>) -> Seq<char> {
    if argument.len() > 0 && argument[0] == '+' {
        argument.drop_first()
    } else {
        argument
    }
}

/// Whether an argument writes down this length: decimal digits after an optional plus sign that make
/// a number from 4 up to, not including, 1024.
pub open spec fn is_length(argument: Seq<char>, length: usize) -> bool {
    &&& 4 <= length < 1024
    &&& after_sign(argument).len() > 0
    &&& all_digits(after_sign(argument))
    &&& decimal_value(after_sign(argument)) == length
}

/// Whether an argument writes down a length.
pub open spec fn has_length(argument: Seq<char>) -> bool {
    exists|length: usize| is_length(argument, length)
}

/// A length is found exactly where an argument writes one down, and it is that one.
pub proof fn lengths_are_found(argument: Seq<char>)
    ensures
        valid_length(argument) is Some <==> has_length(argument),
        forall|length: usize|
            #![trigger is_length(argument, length)]
            is_length(argument, length) <==> valid_length(argument) == Some(length),
{
    if let Some(length) = valid_length(argument) {
        assert(is_length(argument, length));
    }
}

/// A row of decimal digits writes down a length exactly where its number is in range, and so does
/// the same row behind a plus sign or a zero. A row with any other character in it writes down none,
/// and neither does an empty one, nor anything behind two plus signs.
pub proof fn lengths_are_numbers_in_range(argument: Seq<char>, length: usize)
    ensures
        argument.len() > 0 && argument[0] == '+' ==> !is_length(seq!['+'] + argument, length),
        argument.len() == 0 || argument[0] != '+' ==> ({
            let digits = forall|i: int|
                0 <= i < argument.len() ==> '0' <= #[trigger] argument[i] <= '9';
            &&& is_length(argument, length) <==> argument.len() > 0 && digits && 4 <= length < 1024
                && decimal_value(argument) == length
            &&& is_length(seq!['+'] + argument, length) <==> is_length(argument, length)
            &&& argument.len() > 0 ==> (is_length(seq!['0'] + argument, length) <==> is_length(
                argument,
                length,
            ))
        }),
{
    let plus = seq!['+'] + argument;
    let zero = seq!['0'] + argument;
    assert(plus.drop_first() =~= argument);
    assert(after_sign(plus) == argument && after_sign(zero) == zero);
    if argument.len() > 0 && argument[0] == '+' {
        assert(!is_digit(argument[0]));
    }
    digits_are_zero_to_nine(argument);
    zero_in_front(argument);
    if all_digits(zero) {
        assert forall|i: int| 0 <= i < argument.len() implies is_digit(#[trigger] argument[i]) by {
            assert(argument[i] == zero[i + 1]);
            assert(is_digit(zero[i + 1]));
        }
    }
    if all_digits(argument) {
        assert forall|i: int| 0 <= i < zero.len() implies is_digit(#[trigger] zero[i]) by {
            if i > 0 {
                assert(zero[i] == argument[i - 1]);
            }
        }
    }
}

proof fn zero_in_front(digits: Seq<char>)
    ensures
        decimal_value(seq!['0'] + digits) == decimal_value(digits),
    decreases digits.len(),
{
    let longer = seq!['0'] + digits;
    reveal_with_fuel(decimal_value, 2);
    if digits.len() == 0 {
        assert(longer.drop_last() =~= Seq::<char>::empty());
        assert(longer.last() == '0');
    } else {
        zero_in_front(digits.drop_last());
        assert(longer.drop_last() =~= seq!['0'] + digits.drop_last());
        assert(longer.last() == digits.last());
    }
}

/// The arguments that choose the target.
#[derive(Debug)]
pub struct TargetArguments {
    pub target: String,
    pub address_length: String,
    /// Whether the address length stood on the command line.
    pub address_length_given: bool,
    pub value_length: String,
    /// Whether the value length stood on the command line.
    pub value_length_given: bool,
}

/// Why the arguments choose no target.
#[derive(Debug, Clone, Copy, PartialEq, Eq, Structural)]
pub enum ArgumentError {
    /// The address length is no number in range.
    AddressLength,
    /// The value length is no number in range.
    ValueLength,
    /// The address length was given for a target that has none to choose.
    FixedAddressLength(Target),
    /// The value length was given for a target that has none to choose.
    FixedValueLength(Target),
}

/// The target of the given name, with the given lengths where it has any.
pub open spec fn target_named(
    name: Seq<char>,
    address_length: usize,
    value_length: usize,
) -> Option<Target> {
    if name == "solana"@ {
        Some(Target::Solana)
    } else if name == "substrate"@ {
        Some(Target::Substrate { address_length, value_length })
    } else if name == "ewasm"@ {
        Some(Target::Ewasm)
    } else {
        None
    }
}

/// Whether `name` is one of the targets.
pub open spec fn is_target_name(name: Seq<char>) -> bool {
    name == "solana"@ || name == "substrate"@ || name == "ewasm"@
}

/// What the arguments choose. Both lengths have to be in range whatever the target is, and only
/// Substrate lets them be given.
pub open spec fn chosen_target(args: TargetArguments) -> Result<Target, ArgumentError> {
    match (valid_length(args.address_length@), valid_length(args.value_length@)) {
        (None, _) => Err(ArgumentError::AddressLength),
        (Some(_), None) => Err(ArgumentError::ValueLength),
        (Some(address_length), Some(value_length)) => {
            let target = target_named(args.target@, address_length, value_length)->0;
            if !(target is Substrate) && args.address_length_given {
                Err(ArgumentError::FixedAddressLength(target))
            } else if !(target is Substrate) && args.value_length_given {
                Err(ArgumentError::FixedValueLength(target))
            } else {
                Ok(target)
            }
        },
    }
}

/// Chooses the target. The name has to be that of a target.
pub fn choose_target(args: &TargetArguments) -> (r: Result<Target, ArgumentError>)
    requires
        is_target_name(args.target@),
    ensures
        r == chosen_target(*args),
        match r {
            Err(ArgumentError::AddressLength) => !has_length(args.address_length@),
            Err(ArgumentError::ValueLength) => has_length(args.address_length@) && !has_length(
                args.value_length@,
            ),
            Err(ArgumentError::FixedAddressLength(target)) => {
                &&& has_length(args.address_length@)
                &&& has_length(args.value_length@)
                &&& (args.target@ == "solana"@ && target == Target::Solana) || (args.target@
                    == "ewasm"@ && target == Target::Ewasm)
                &&& args.address_length_given
            },
            Err(ArgumentError::FixedValueLength(target)) => {
                &&& has_length(args.address_length@)
                &&& has_length(args.value_length@)
                &&& (args.target@ == "solana"@ && target == Target::Solana) || (args.target@
                    == "ewasm"@ && target == Target::Ewasm)
                &&& !args.address_length_given
                &&& args.value_length_given
            },
            Ok(Target::Substrate { address_length, value_length }) => {
                &&& args.target@ == "substrate"@
                &&& is_length(args.address_length@, address_length)
                &&& is_length(args.value_length@, value_length)
            },
            Ok(target) => {
                &&& has_length(args.address_length@)
                &&& has_length(args.value_length@)
                &&& (args.target@ == "solana"@ && target == Target::Solana) || (args.target@
                    == "ewasm"@ && target == Target::Ewasm)
                &&& !args.address_length_given
                &&& !args.value_length_given
            },
        },
{
    proof {
        lengths_are_found(args.address_length@);
        lengths_are_found(args.value_length@);
    }
    let address_length: usize = match parse_length(args.address_length.as_str()) {
        Some(length) => length,
        None => return Err(ArgumentError::AddressLength),
    };
    let value_length: usize = match parse_length(args.value_length.as_str()) {
        Some(length) => length,
        None => return Err(ArgumentError::ValueLength),
    };
    let target = if same(args.target.as_str(), "solana") {
        Target::Solana
    } else if same(args.target.as_str(), "substrate") {
        Target::Substrate { address_length, value_length }
    } else {
        Target::Ewasm
    };
    if !target.is_substrate() && args.address_length_given {
        return Err(ArgumentError::FixedAddressLength(target));
    }
    if !target.is_substrate() && args.value_length_given {
        return Err(ArgumentError::FixedValueLength(target));
    }
    Ok(target)
}

/// The line that tells of an argument error. `target` is how the target is displayed.
pub open spec fn argument_error_line(
    error: ArgumentError,
    args: TargetArguments,
    target: Seq<char>,
) -> Seq<char> {
    match error {
        ArgumentError::AddressLength => "error: address length ‘"@ + args.address_length@
            + "’ is not valid"@,
        ArgumentError::ValueLength => "error: value length ‘"@ + args.value_length@
            + "’ is not valid"@,
        ArgumentError::FixedAddressLength(_) =>
            "error: address length cannot be modified for target ‘"@ + target + "’"@,
        ArgumentError::FixedValueLength(_) => "error: value length cannot be modified for target ‘"@
            + target + "’"@,
    }
}

impl ArgumentError {
    /// How the run ends on this error, before anything else is done.
    pub fn failure(&self, args: &TargetArguments, target: &str) -> (r: Failure<String>)
        ensures
            r@ == (Failure { line: argument_error_line(*self, *args, target@), code: 1 }),
            r.code == 1,
            r.line@ == match self {
                ArgumentError::AddressLength => "error: address length ‘"@ + args.address_length@
                    + "’ is not valid"@,
                ArgumentError::ValueLength => "error: value length ‘"@ + args.value_length@
                    + "’ is not valid"@,
                ArgumentError::FixedAddressLength(_) => {
                    "error: address length cannot be modified for target ‘"@ + target@ + "’"@
                },
                ArgumentError::FixedValueLength(_) => {
                    "error: value length cannot be modified for target ‘"@ + target@ + "’"@
                },
            },
    {
        let line = match self {
            ArgumentError::AddressLength => around(
                "error: address length ‘",
                args.address_length.as_str(),
                "’ is not valid",
            ),
            ArgumentError::ValueLength => around(
                "error: value length ‘",
                args.value_length.as_str(),
                "’ is not valid",
            ),
            ArgumentError::FixedAddressLength(_) => around(
                "error: address length cannot be modified for target ‘",
                target,
                "’",
            ),
            ArgumentError::FixedValueLength(_) => around(
                "error: value length cannot be modified for target ‘",
                target,
                "’",
            ),
        };
        Failure { line, code: 1 }
    }
}

/// The stage of the given name.
pub open spec fn emit_named(name: Seq<char>) -> Option<Emit> {
    if name == "ast-dot"@ {
        Some(Emit::AstDot)
    } else if name == "cfg"@ {
        Some(Emit::Cfg)
    } else if name == "llvm-ir"@ {
        Some(Emit::LlvmIr)
    } else if name == "llvm-bc"@ {
        Some(Emit::LlvmBc)
    } else if name == "object"@ {
        Some(Emit::Object)
    } else if name == "asm"@ {
        Some(Emit::Asm)
    } else {
        None
    }
}

/// Reads the name of a stage.
pub fn parse_emit(name: &str) -> (r: Option<Emit>)
    ensures
        r == emit_named(name@),
        r == Some(Emit::AstDot) <==> name@ == "ast-dot"@,
        r == Some(Emit::Cfg) <==> name@ == "cfg"@,
        r == Some(Emit::LlvmIr) <==> name@ == "llvm-ir"@,
        r == Some(Emit::LlvmBc) <==> name@ == "llvm-bc"@,
        r == Some(Emit::Object) <==> name@ == "object"@,
        r == Some(Emit::Asm) <==> name@ == "asm"@,
{
    proof {
        reveal_strlit("ast-dot");
        reveal_strlit("cfg");
        reveal_strlit("llvm-ir");
        reveal_strlit("llvm-bc");
        reveal_strlit("object");
        reveal_strlit("asm");
        assert("ast-dot"@[0] != "llvm-ir"@[0] && "ast-dot"@[0] != "llvm-bc"@[0]);
        assert("llvm-ir"@[5] != "llvm-bc"@[5]);
        assert("cfg"@[0] != "asm"@[0]);
        assert("ast-dot"@.len() == 7 && "llvm-ir"@.len() == 7 && "llvm-bc"@.len() == 7);
        assert("cfg"@.len() == 3 && "asm"@.len() == 3 && "object"@.len() == 6);
    }
    if same(name, "ast-dot") {
        Some(Emit::AstDot)
    } else if same(name, "cfg") {
        Some(Emit::Cfg)
    } else if same(name, "llvm-ir") {
        Some(Emit::LlvmIr)
    } else if same(name, "llvm-bc") {
        Some(Emit::LlvmBc)
    } else if same(name, "object") {
        Some(Emit::Object)
    } else if same(name, "asm") {
        Some(Emit::Asm)
    } else {
        None
    }
}

/// The optimization level of the given name.
pub open spec fn level_named(name: Seq<char>) -> Option<OptimizationLevel> {
    if name == "none"@ {
        Some(OptimizationLevel::Disabled)
    } else if name == "less"@ {
        Some(OptimizationLevel::Less)
    } else if name == "default"@ {
        Some(OptimizationLevel::Default)
    } else if name == "aggressive"@ {
        Some(OptimizationLevel::Aggressive)
    } else {
        None
    }
}

/// Reads the name of an optimization level.
pub fn parse_level(name: &str) -> (r: Option<OptimizationLevel>)
    ensures
        r == level_named(name@),
        r == Some(OptimizationLevel::Disabled) <==> name@ == "none"@,
        r == Some(OptimizationLevel::Less) <==> name@ == "less"@,
        r == Some(OptimizationLevel::Default) <==> name@ == "default"@,
        r == Some(OptimizationLevel::Aggressive) <==> name@ == "aggressive"@,
{
    proof {
        reveal_strlit("none");
        reveal_strlit("less");
        reveal_strlit("default");
        reveal_strlit("aggressive");
        assert("none"@[0] != "less"@[0]);
        assert("none"@.len() == 4 && "less"@.len() == 4);
        assert("default"@.len() == 7 && "aggressive"@.len() == 10);
    }
    if same(name, "none") {
        Some(OptimizationLevel::Disabled)
    } else if same(name, "less") {
        Some(OptimizationLevel::Less)
    } else if same(name, "default") {
        Some(OptimizationLevel::Default)
    } else if same(name, "aggressive") {
        Some(OptimizationLevel::Aggressive)
    } else {
        None
    }
}

/// The code generator passes that the command line switches off.
#[derive(Debug, Clone, Copy)]
pub struct DisabledPasses {
    pub dead_storage: bool,
    pub constant_folding: bool,
    pub strength_reduce: bool,
    pub vector_to_slice: bool,
    pub common_subexpression_elimination: bool,
}

/// What the code generator is to do.
#[derive(Debug, Clone, Copy)]
pub struct Options {
    pub dead_storage: bool,
    pub constant_folding: bool,
    pub strength_reduce: bool,
    pub vector_to_slice: bool,
    pub math_overflow_check: bool,
    pub common_subexpression_elimination: bool,
    pub opt_level: OptimizationLevel,
}

impl Options {
    /// Every pass runs but those switched off.
    pub fn new(
        disabled: DisabledPasses,
        math_overflow_check: bool,
        opt_level: OptimizationLevel,
    ) -> (r: Self)
        ensures
            r.dead_storage == !disabled.dead_storage,
            r.constant_folding == !disabled.constant_folding,
            r.strength_reduce == !disabled.strength_reduce,
            r.vector_to_slice == !disabled.vector_to_slice,
            r.common_subexpression_elimination == !disabled.common_subexpression_elimination,
            r.math_overflow_check == math_overflow_check,
            r.opt_level == opt_level,
    {
        Options {
            dead_storage: !disabled.dead_storage,
            constant_folding: !disabled.constant_folding,
            strength_reduce: !disabled.strength_reduce,
            vector_to_slice: !disabled.vector_to_slice,
            math_overflow_check,
            common_subexpression_elimination: !disabled.common_subexpression_elimination,
            opt_level,
        }
    }
}

/// What the run is to produce and where.
#[derive(Debug)]
pub struct Settings {
    pub target: Target,
    /// The extension of a binary for the target.
    pub binary_extension: String,
    pub emit: Option<Emit>,
    pub verbose: bool,
    pub std_json: bool,
    /// The output directory, where one was given.
    pub output: Option<String>,
}

/// The arguments choose a target exactly when both lengths are in range and, but for
/// Substrate, neither was given; and a Substrate target has lengths in range.
pub proof fn target_is_chosen_exactly_when_lengths_allow(args: TargetArguments)
    requires
        is_target_name(args.target@),
    ensures
        chosen_target(args) is Ok <==> valid_length(args.address_length@) is Some && valid_length(
            args.value_length@,
        ) is Some && (args.target@ == "substrate"@ || !args.address_length_given
            && !args.value_length_given),
        chosen_target(args) matches Ok(Target::Substrate { address_length, value_length }) ==> 4
            <= address_length < 1024 && 4 <= value_length < 1024,
{
    reveal_strlit("solana");
    reveal_strlit("substrate");
    reveal_strlit("ewasm");
    assert("solana"@.len() != "substrate"@.len());
    assert("ewasm"@.len() != "substrate"@.len());
}

/// There are three targets, each with its own name, and no other name is one.
pub proof fn three_targets_have_names(name: Seq<char>, address_length: usize, value_length: usize)
    ensures
        is_target_name(name) <==> name == "solana"@ || name == "substrate"@ || name == "ewasm"@,
        target_named("solana"@, address_length, value_length) == Some(Target::Solana),
        target_named("substrate"@, address_length, value_length) == Some(
            Target::Substrate { address_length, value_length },
        ),
        target_named("ewasm"@, address_length, value_length) == Some(Target::Ewasm),
{
    reveal_strlit("solana");
    reveal_strlit("substrate");
    reveal_strlit("ewasm");
    assert("solana"@.len() == 6 && "substrate"@.len() == 9 && "ewasm"@.len() == 5);
}

} // verus!
