//! Trusted boundary to the walrus WebAssembly parser and emitter.
//!
//! A `walrus::Module` is opaque here.  Its raw custom sections are named by
//! `module_customs`, everything else it holds (types, functions, memories,
//! typed sections, its parse configuration) by `module_core`, and each
//! wrapper below states, over those two names, what its walrus call does to
//! them.

use vstd::prelude::*;

use crate::sections::SectionEntry;
use crate::sections::has_name;
use crate::sections::remove_first;

verus! {

#[verifier::external_type_specification]
#[verifier::external_body]
pub struct ExModule(walrus::Module);

/// The raw custom sections a module holds, in insertion order.
pub uninterp spec fn module_customs(m: walrus::Module) -> Seq<SectionEntry>;

/// Everything else a module holds; untouched by custom-section edits.
pub uninterp spec fn module_core(m: walrus::Module) -> Seq<u8>;

/// What walrus parses a byte buffer into, under the fixed configuration with
/// the given name-section choice: `None` on a malformed module, otherwise the
/// raw custom sections and the rest of the module.  The result depends on the
/// bytes and the flag alone.
pub uninterp spec fn wasm_parse(bytes: Seq<u8>, keep_name_section: bool) -> Option<
    (Seq<SectionEntry>, Seq<u8>),
>;

/// The binary that walrus emits for a module with the given raw custom
/// sections and the given rest.
pub uninterp spec fn wasm_emit(customs: Seq<SectionEntry>, core: Seq<u8>) -> Seq<u8>;

/// Relies on walrus::ModuleConfig::parse under a configuration built by
/// walrus::ModuleConfig::new with generate_name_section(keep_name_section)
/// and generate_producers_section(false): a deterministic parse of the bytes
/// that fails on any structural violation and otherwise yields a module
/// owning its sections, the unrecognized custom ones raw and in order.
#[verifier::external_body]
pub(crate) fn parse_module(bytes: &[u8], keep_name_section: bool) -> (r: Result<
    walrus::Module,
    String,
>)
    ensures
        (r is Ok) == (wasm_parse(bytes@, keep_name_section) is Some),
        r matches Ok(m) ==> wasm_parse(bytes@, keep_name_section) matches Some(parsed)
            && module_customs(m) == parsed.0 && module_core(m) == parsed.1,
{
    let mut config = walrus::ModuleConfig::new();
    config.generate_name_section(keep_name_section);
    config.generate_producers_section(false);
    config.parse(bytes).map_err(|e| e.to_string())
}

/// Relies on walrus::ModuleCustomSections::remove_raw: it removes and returns
/// the first raw custom section carrying the name, in insertion order, or
/// leaves the module unchanged and returns None when there is none; nothing
/// else in the module is touched.
#[verifier::external_body]
pub(crate) fn remove_raw_section(module: &mut walrus::Module, name: &str) -> (removed: bool)
    ensures
        module_core(*final(module)) == module_core(*old(module)),
        removed == has_name(module_customs(*old(module)), name@),
        removed ==> module_customs(*final(module)) == remove_first(
            module_customs(*old(module)),
            name@,
        ),
        !removed ==> module_customs(*final(module)) == module_customs(*old(module)),
{
    module.customs.remove_raw(name).is_some()
}

/// Relies on walrus::ModuleCustomSections::add: it appends a raw custom
/// section at the end of the insertion order and touches nothing else.
#[verifier::external_body]
pub(crate) fn add_raw_section(module: &mut walrus::Module, name: &str, data: Vec<u8>)
    ensures
        module_core(*final(module)) == module_core(*old(module)),
        module_customs(*final(module)) == module_customs(*old(module)).push((name@, data@)),
{
    module.customs.add(walrus::RawCustomSection { name: name.to_string(), data });
}

/// Relies on walrus::Module::emit_wasm: a deterministic serialization of the
/// module, so the output is a function of the module's contents, raw custom
/// sections and the rest.
#[verifier::external_body]
pub(crate) fn emit_module(module: walrus::Module) -> (r: Vec<u8>)
    ensures
        r@ == wasm_emit(module_customs(module), module_core(module)),
{
    let mut module = module;
    module.emit_wasm()
}

} // verus!
