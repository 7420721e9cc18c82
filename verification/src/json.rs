//! The result of a compilation as the JSON output reports it.
//!
//! `E` is a diagnostic and `A` an entry of a contract's ABI. The compiler makes both; the driver
//! only carries them.
use vstd::prelude::*;
use vstd::string::*;

use crate::outside::{encode_upper, hex_upper, to_u32};
use crate::string_map::StringMap;
use crate::text::{all_digits, decimal_value, is_digit, read_number};

verus! {

/// The WebAssembly code of a contract, in upper-case hexadecimal.
#[derive(Debug)]
pub struct EwasmContract {
    pub wasm: String,
}

/// What the JSON output says of one contract.
pub struct JsonContract<A> {
    pub abi: Vec<A>,
    pub ewasm: Option<EwasmContract>,
    pub minimum_space: Option<u32>,
}

/// The JSON output: the diagnostics, the target, the linked program in upper-case hexadecimal, and
/// the contracts of each input file.
pub struct JsonResult<E, A> {
    pub errors: Vec<E>,
    pub target: String,
    pub program: String,
    pub contracts: StringMap<StringMap<JsonContract<A>>>,
}

/// The contents of a `JsonContract`.
#[verifier::ext_equal]
pub struct ContractReport<A> {
    pub abi: Seq<A>,
    pub ewasm: Option<Seq<char>>,
    pub minimum_space: Option<u32>,
}

/// The contents of a `JsonResult`.
#[verifier::ext_equal]
pub struct Report<E, A> {
    pub errors: Seq<E>,
    pub target: Seq<char>,
    pub program: Seq<char>,
    pub contracts: Map<Seq<char>, Map<Seq<char>, ContractReport<A>>>,
}

impl<A> View for JsonContract<A> {
    type V = ContractReport<A>;

    open spec fn view(&self) -> ContractReport<A> {
        ContractReport {
            abi: self.abi@,
            ewasm: match self.ewasm {
                Some(e) => Some(e.wasm@),
                None => None,
            },
            minimum_space: self.minimum_space,
        }
    }
}

/// The contents of the contracts of one file, by name.
pub open spec fn contract_reports<A>(contracts: Map<Seq<char>, JsonContract<A>>) -> Map<
    Seq<char>,
    ContractReport<A>,
> {
    contracts.map_values(|c: JsonContract<A>| c@)
}

impl<E, A> View for JsonResult<E, A> {
    type V = Report<E, A>;

    open spec fn view(&self) -> Report<E, A> {
        Report {
            errors: self.errors@,
            target: self.target@,
            program: self.program@,
            contracts: self.contracts@.map_values(
                |file: StringMap<JsonContract<A>>| contract_reports(file@),
            ),
        }
    }
}

/// The account data that a contract needs at least, read from the decimal size of its layout, where
/// the JSON result can hold it.
pub open spec fn minimum_space(fixed_layout_size: Seq<char>) -> Option<u32> {
    if fixed_layout_size.len() > 0 && all_digits(fixed_layout_size) && decimal_value(
        fixed_layout_size,
    ) <= u32::MAX {
        Some(decimal_value(fixed_layout_size) as u32)
    } else {
        None
    }
}

/// Reads the account data that a contract needs at least.
pub fn read_minimum_space(fixed_layout_size: &str) -> (r: Option<u32>)
    ensures
        r == minimum_space(fixed_layout_size@),
        match r {
            Some(n) => {
                &&& fixed_layout_size@.len() > 0
                &&& forall|i: int|
                    0 <= i < fixed_layout_size@.len() ==> '0' <= #[trigger] fixed_layout_size@[i]
                        <= '9'
                &&& n == decimal_value(fixed_layout_size@)
            },
            None => {
                ||| fixed_layout_size@.len() == 0
                ||| exists|i: int|
                    0 <= i < fixed_layout_size@.len() && !('0' <= #[trigger] fixed_layout_size@[i]
                        <= '9')
                ||| decimal_value(fixed_layout_size@) > u32::MAX
            },
        },
{
    match read_number(fixed_layout_size) {
        Some(size) => to_u32(size),
        None => None,
    }
}

/// What is reported of a contract for Solana: its ABI and the account data it needs at least.
pub open spec fn solana_report<A>(abi: Seq<A>, fixed_layout_size: Seq<char>) -> ContractReport<A> {
    ContractReport { abi, ewasm: None, minimum_space: minimum_space(fixed_layout_size) }
}

/// What is reported of a contract with a binary of its own: its ABI and its code.
pub open spec fn code_report<A>(abi: Seq<A>, code: Seq<u8>) -> ContractReport<A> {
    ContractReport { abi, ewasm: Some(hex_upper(code)), minimum_space: None }
}

impl<A> JsonContract<A> {
    /// Reports a contract for Solana, whose account data the JSON result has to be able to hold.
    pub fn solana(abi: Vec<A>, fixed_layout_size: &str) -> (r: Self)
        requires
            minimum_space(fixed_layout_size@) is Some,
        ensures
            r@ == solana_report(abi@, fixed_layout_size@),
            r.abi@ == abi@,
            r.ewasm is None,
            r@.minimum_space is Some,
            r.minimum_space is Some,
            r.minimum_space->0 == decimal_value(fixed_layout_size@),
    {
        JsonContract { abi, ewasm: None, minimum_space: read_minimum_space(fixed_layout_size) }
    }

    /// Reports a contract with a binary of its own.
    pub fn with_code(abi: Vec<A>, code: &Vec<u8>) -> (r: Self)
        ensures
            r@ == code_report(abi@, code@),
            r.abi@ == abi@,
            r.ewasm matches Some(contract) && contract.wasm@ == hex_upper(code@),
            r.minimum_space is None,
    {
        JsonContract {
            abi,
            ewasm: Some(EwasmContract { wasm: encode_upper(code) }),
            minimum_space: None,
        }
    }
}

impl<E, A> JsonResult<E, A> {
    /// The result before anything has been compiled.
    pub fn new(target: String) -> (r: Self)
        ensures
            r@ == (Report::<E, A> {
                errors: Seq::empty(),
                target: target@,
                program: Seq::empty(),
                contracts: Map::empty(),
            }),
            r.errors@ == Seq::<E>::empty(),
            r.target@ == target@,
            r.program@ == Seq::<char>::empty(),
            r.contracts@ == Map::<Seq<char>, StringMap<JsonContract<A>>>::empty(),
    {
        let r = JsonResult {
            errors: Vec::new(),
            target,
            program: String::new(),
            contracts: StringMap::new(),
        };
        assert(r@.contracts =~= Map::empty());
        r
    }

    /// Adds the diagnostics of a file behind those already there.
    pub fn add_errors(&mut self, errors: Vec<E>)
        ensures
            final(self)@ == (Report { errors: old(self)@.errors + errors@, ..old(self)@ }),
            final(self).errors@ == old(self).errors@ + errors@,
            final(self).target == old(self).target,
            final(self).program == old(self).program,
            final(self).contracts == old(self).contracts,
    {
        let mut errors = errors;
        self.errors.append(&mut errors);
    }

    /// Records the contracts of a file under its name.
    pub fn add_file(&mut self, filename: String, contracts: StringMap<JsonContract<A>>)
        ensures
            final(self)@ == (Report {
                contracts: old(self)@.contracts.insert(filename@, contract_reports(contracts@)),
                ..old(self)@
            }),
            final(self).contracts@ == old(self).contracts@.insert(filename@, contracts),
            final(self).errors == old(self).errors,
            final(self).target == old(self).target,
            final(self).program == old(self).program,
    {
        self.contracts.insert(filename, contracts);
        assert(self@.contracts =~= old(self)@.contracts.insert(
            filename@,
            contract_reports(contracts@),
        ));
    }

    /// Records the linked program.
    pub fn set_program(&mut self, code: &Vec<u8>)
        ensures
            final(self)@ == (Report { program: hex_upper(code@), ..old(self)@ }),
            final(self).program@ == hex_upper(code@),
            final(self).errors == old(self).errors,
            final(self).target == old(self).target,
            final(self).contracts == old(self).contracts,
    {
        self.program = encode_upper(code);
    }
}

/// Recording a contract among the contracts of a file adds its report under its name.
pub proof fn insert_adds_report<A>(
    contracts: Map<Seq<char>, JsonContract<A>>,
    name: Seq<char>,
    contract: JsonContract<A>,
)
    ensures
        contract_reports(contracts.insert(name, contract)) == contract_reports(contracts).insert(
            name,
            contract@,
        ),
{
    assert(contract_reports(contracts.insert(name, contract)) =~= contract_reports(
        contracts,
    ).insert(name, contract@));
}

/// The ABI reported of a contract with a binary of its own is the whole list of entries, in order;
/// its code is reported in hexadecimal and no account data is.
pub proof fn code_is_reported_in_full<A>(abi: Seq<A>, code: Seq<u8>)
    ensures
        code_report(abi, code).abi == abi,
        code_report(abi, code).ewasm == Some(hex_upper(code)),
        code_report(abi, code).minimum_space is None,
{
}

/// The ABI reported of a contract for Solana is the whole list of entries, in order; no code is
/// reported, and its account data is the number that the size of its layout writes down.
pub proof fn solana_contract_is_reported_in_full<A>(abi: Seq<A>, fixed_layout_size: Seq<char>)
    requires
        fixed_layout_size.len() > 0,
        forall|i: int|
            0 <= i < fixed_layout_size.len() ==> '0' <= #[trigger] fixed_layout_size[i] <= '9',
        decimal_value(fixed_layout_size) <= u32::MAX,
    ensures
        solana_report(abi, fixed_layout_size).abi == abi,
        solana_report(abi, fixed_layout_size).ewasm is None,
        solana_report(abi, fixed_layout_size).minimum_space == Some(
            decimal_value(fixed_layout_size) as u32,
        ),
{
    assert forall|i: int| 0 <= i < fixed_layout_size.len() implies is_digit(
        #[trigger] fixed_layout_size[i],
    ) by {
        assert('0' <= fixed_layout_size[i] <= '9');
    }
}

/// What is said of a contract is what the JSON result holds of it, field by field.
pub proof fn reports_are_their_contents<A>(contract: JsonContract<A>)
    ensures
        contract@.abi == contract.abi@,
        contract@.ewasm is Some <==> contract.ewasm is Some,
        contract.ewasm matches Some(code) ==> contract@.ewasm == Some(code.wasm@),
        contract@.minimum_space == contract.minimum_space,
{
}

/// What is said of a result is what it holds, field by field, down to the contracts of each file.
pub proof fn results_are_their_contents<E, A>(
    json: JsonResult<E, A>,
    filename: Seq<char>,
    name: Seq<char>,
)
    ensures
        json@.errors == json.errors@,
        json@.target == json.target@,
        json@.program == json.program@,
        json@.contracts.contains_key(filename) <==> json.contracts@.contains_key(filename),
        json.contracts@.contains_key(filename) ==> {
            let file = json.contracts@[filename];
            &&& json@.contracts[filename].contains_key(name) <==> file@.contains_key(name)
            &&& file@.contains_key(name) ==> json@.contracts[filename][name] == file@[name]@
        },
{
}

} // verus!
