//! Tests of the Candid interface-compatibility entry point, run against the
//! real candid_parser crate.

use wasm_sections::is_candid_compatible;

#[test]
fn identical_interfaces_are_compatible() {
    let interface = "service : { greet : (text) -> (text) query }";
    assert!(is_candid_compatible(interface, interface));
}

#[test]
fn dropping_a_method_is_incompatible() {
    let original = "service : { greet : (text) -> (text) query }";
    let new = "service : {}";
    assert!(!is_candid_compatible(new, original));
}

#[test]
fn adding_a_method_is_compatible() {
    let original = "service : {}";
    let new = "service : { greet : (text) -> (text) query }";
    assert!(is_candid_compatible(new, original));
}

#[test]
fn invalid_interface_text_is_incompatible() {
    assert!(!is_candid_compatible("not candid at all {", "service : {}"));
}
