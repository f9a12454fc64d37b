//! Editing of WebAssembly custom-section metadata.
//!
//! The library accepts a module binary (optionally gzip-compressed),
//! replaces or appends named custom sections, and re-emits a canonical
//! binary, without disturbing the module's executable contents.  A second
//! entry point checks two Candid interface texts for compatibility.

use vstd::prelude::*;

pub mod sections;
pub mod walrus_ops;
pub mod wasm_utils;

verus! {

/// Whether the Candid interface comparator accepts the pair of texts.
/// The result depends on the two texts alone.
pub uninterp spec fn candid_compatible_of(
    new_interface: Seq<char>,
    original_interface: Seq<char>,
) -> bool;

/// Relies on candid_parser::utils::service_compatible: a deterministic
/// comparison of two Candid interface texts, with no state of its own.
#[verifier::external_body]
fn service_compatible_text(new_interface: &str, original_interface: &str) -> (r: bool)
    ensures
        r == candid_compatible_of(new_interface@, original_interface@),
{
    candid_parser::utils::service_compatible(
        candid_parser::utils::CandidSource::Text(new_interface),
        candid_parser::utils::CandidSource::Text(original_interface),
    ).is_ok()
}

/// Reports whether `new_interface` is a compatible replacement for
/// `original_interface`, as the Candid interface comparator judges it.
pub fn is_candid_compatible(new_interface: &str, original_interface: &str) -> (r: bool)
    ensures
        r == candid_compatible_of(new_interface@, original_interface@),
{
    service_compatible_text(new_interface, original_interface)
}

} // verus!
