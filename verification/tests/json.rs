use solang_driver::json::{read_minimum_space, JsonContract, JsonResult};
use solang_driver::string_map::StringMap;

#[test]
fn code_is_reported_in_upper_case_hexadecimal() {
    let contract: JsonContract<&str> = JsonContract::with_code(vec!["f"], &vec![0, 9, 10, 171, 255]);
    assert_eq!(contract.abi, vec!["f"]);
    assert_eq!(contract.ewasm.unwrap().wasm, "00090AABFF");
    assert_eq!(contract.minimum_space, None);
}

#[test]
fn no_code_is_an_empty_text() {
    let contract: JsonContract<&str> = JsonContract::with_code(vec![], &vec![]);
    assert_eq!(contract.ewasm.unwrap().wasm, "");
}

#[test]
fn different_code_is_reported_differently() {
    let text = |code: Vec<u8>| {
        let contract: JsonContract<u8> = JsonContract::with_code(vec![], &code);
        contract.ewasm.unwrap().wasm
    };
    assert_ne!(text(vec![1, 16]), text(vec![17, 0]));
    assert_ne!(text(vec![0]), text(vec![0, 0]));
}

#[test]
fn account_data_is_reported_for_solana() {
    let contract: JsonContract<&str> = JsonContract::solana(vec!["f", "g"], "8192");
    assert_eq!(contract.abi, vec!["f", "g"]);
    assert!(contract.ewasm.is_none());
    assert_eq!(contract.minimum_space, Some(8192));
    let largest: JsonContract<&str> = JsonContract::solana(vec![], "4294967295");
    assert_eq!(largest.minimum_space, Some(u32::MAX));
}

#[test]
fn account_data_is_read_where_it_fits() {
    assert_eq!(read_minimum_space("0"), Some(0));
    assert_eq!(read_minimum_space("4294967295"), Some(u32::MAX));
    assert_eq!(read_minimum_space("4294967296"), None);
    assert_eq!(read_minimum_space("340282366920938463463374607431768211456"), None);
    assert_eq!(read_minimum_space("-1"), None);
    assert_eq!(read_minimum_space(""), None);
}

#[test]
fn result_starts_empty() {
    let json: JsonResult<String, u8> = JsonResult::new("solana".to_string());
    assert!(json.errors.is_empty());
    assert_eq!(json.target, "solana");
    assert_eq!(json.program, "");
    assert_eq!(json.contracts.len(), 0);
}

#[test]
fn result_collects_errors_files_and_program() {
    let mut json: JsonResult<&str, u8> = JsonResult::new("ewasm".to_string());
    json.add_errors(vec!["one", "two"]);
    json.add_errors(vec![]);
    json.add_errors(vec!["three"]);
    assert_eq!(json.errors, vec!["one", "two", "three"]);
    let mut contracts = StringMap::new();
    contracts.insert("c".to_string(), JsonContract::solana(vec![7], "5"));
    json.add_file("a.sol".to_string(), contracts);
    json.add_file("b.sol".to_string(), StringMap::new());
    assert_eq!(json.contracts.len(), 2);
    assert_eq!(json.contracts.get("a.sol").unwrap().get("c").unwrap().minimum_space, Some(5));
    assert_eq!(json.contracts.get("b.sol").unwrap().len(), 0);
    assert!(json.contracts.get("c.sol").is_none());
    json.set_program(&vec![222, 173]);
    assert_eq!(json.program, "DEAD");
}

#[test]
fn later_values_take_the_place_of_earlier_ones() {
    let mut map: StringMap<u32> = StringMap::new();
    map.insert("b".to_string(), 1);
    map.insert("a".to_string(), 2);
    map.insert("b".to_string(), 3);
    assert_eq!(map.len(), 2);
    assert_eq!(map.get("b"), Some(&3));
    assert_eq!(map.get("a"), Some(&2));
    assert_eq!(map.get("c"), None);
    assert_eq!(map.entry(0), (&"b".to_string(), &3));
    assert_eq!(map.entry(1), (&"a".to_string(), &2));
}
