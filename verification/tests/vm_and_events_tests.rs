//! Tests for the strict compatibility gate and the event categorization
//! rules.

use simulator::types::analyzer_category;
use simulator::types::contract_category;
use simulator::types::diagnostic_category;
use simulator::types::str_contains;
use simulator::vm::check_no_float_ops;
use simulator::vm::enforce_soroban_compatibility;
use simulator::vm::is_float_op_name;

#[test]
fn float_instructions_are_refused() {
    let wasm = wat::parse_str(
        r#"(module (func (result f32) (f32.add (f32.const 1) (f32.const 2))))"#,
    )
    .unwrap();
    let err = enforce_soroban_compatibility(&wasm).unwrap_err();
    assert_eq!(
        err,
        "floating-point instructions are not allowed under strict Soroban compatibility"
    );
}

#[test]
fn integer_only_modules_are_accepted() {
    let wasm = wat::parse_str(
        r#"(module (func (result i32) (i32.add (i32.const 1) (i32.const 2))))"#,
    )
    .unwrap();
    assert!(enforce_soroban_compatibility(&wasm).is_ok());
    assert!(enforce_soroban_compatibility(&[0xff, 0xff]).is_err());
}

#[test]
fn float_operator_names_are_recognised() {
    assert!(is_float_op_name("F32Add"));
    assert!(is_float_op_name("F64Const { value: 1.0 }"));
    assert!(!is_float_op_name("I32Add"));
    assert!(check_no_float_ops(&vec!["I32Add".to_string(), "End".to_string()]).is_ok());
    assert!(check_no_float_ops(&vec!["I32Add".to_string(), "F64Mul".to_string()]).is_err());
}

#[test]
fn substring_search_matches_std() {
    assert!(str_contains("require_auth_for", "require_auth"));
    assert!(str_contains("abc", ""));
    assert!(str_contains("", ""));
    assert!(!str_contains("", "a"));
    assert!(!str_contains("abc", "abcd"));
    assert!(str_contains("aab", "ab"));
}

#[test]
fn analyzer_topics_are_sorted_into_categories() {
    assert_eq!(analyzer_category("Symbol(require_auth)"), "auth");
    assert_eq!(analyzer_category("Symbol(set_admin)"), "storage_write");
    assert_eq!(analyzer_category("Symbol(write_entry)"), "storage_write");
    assert_eq!(analyzer_category("Symbol(storage_bump)"), "storage_write");
    assert_eq!(analyzer_category("Symbol(call_contract)"), "contract_call");
    assert_eq!(analyzer_category("Symbol(invoke_fn)"), "contract_call");
    assert_eq!(analyzer_category("Symbol(transfer)"), "other");
}

#[test]
fn contract_and_diagnostic_topics_are_sorted() {
    assert_eq!(contract_category("require_auth"), "require_auth");
    assert_eq!(contract_category("set_balance"), "storage_write");
    assert_eq!(contract_category("transfer"), "contract");
    assert_eq!(diagnostic_category("fn_call"), "invocation");
    assert_eq!(diagnostic_category("fn_return"), "return");
    assert_eq!(diagnostic_category("log"), "diagnostic");
}
