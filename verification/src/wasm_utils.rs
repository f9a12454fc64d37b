//! The module-rewriting pipeline: classify a byte buffer, inflate it when it
//! is gzip-compressed, parse it as a WebAssembly module, replace or append
//! the requested custom sections, and emit the result.

use vstd::prelude::*;

use crate::sections::SectionEntry;
use crate::sections::apply_edits_spec;
use crate::sections::dedup_last;
use crate::sections::has_name;
use crate::sections::lemma_count_zero_iff_not_has;
use crate::sections::lemma_dedup_count;
use crate::sections::lemma_empty_edit_identity;
use crate::sections::lemma_has_name_concat;
use crate::sections::lemma_index_has_name;
use crate::sections::lemma_remove_first_concat;
use crate::sections::lemma_remove_first_len;
use crate::sections::lemma_remove_first_remove_name;
use crate::sections::lemma_remove_first_unique;
use crate::sections::lemma_remove_name_id;
use crate::sections::lemma_strip_count;
use crate::sections::lemma_strip_push;
use crate::sections::remove_name;
use crate::sections::strip_edited;
use crate::walrus_ops::add_raw_section;
use crate::walrus_ops::emit_module;
use crate::walrus_ops::module_core;
use crate::walrus_ops::module_customs;
use crate::walrus_ops::parse_module;
use crate::walrus_ops::remove_raw_section;
use crate::walrus_ops::wasm_emit;
use crate::walrus_ops::wasm_parse;
use vstd::string::StrSliceExecFns;

verus! {

/// A failure of the pipeline, tagged by the stage that refused the input.
#[derive(Debug)]
pub enum Error {
    /// The buffer matches neither the WebAssembly nor the gzip magic prefix.
    InputFormat,
    /// The gzip stream is truncated or corrupt; carries the decoder's
    /// diagnostic.
    Decompression(String),
    /// The bytes are not a structurally valid WebAssembly module; carries
    /// the parser's diagnostic.
    Parse(String),
}

/// The human-readable message of an error: the stage name, then the
/// underlying diagnostic.
pub open spec fn error_message_spec(e: Error) -> Seq<char> {
    match e {
        Error::InputFormat => "input format error: input must be either gzipped or uncompressed WASM"@,
        Error::Decompression(m) => "decompression error: "@ + m@,
        Error::Parse(m) => "WASM parse error: "@ + m@,
    }
}

impl Error {
    /// The error as a human-readable message combining the stage name and
    /// the underlying diagnostic.
    pub fn message(&self) -> (r: String)
        ensures
            r@ == error_message_spec(*self),
    {
        match self {
            Error::InputFormat => <String as vstd::string::StringExecFns>::from_str(
                "input format error: input must be either gzipped or uncompressed WASM",
            ),
            Error::Decompression(m) => <String as vstd::string::StringExecFns>::concat(
                <String as vstd::string::StringExecFns>::from_str("decompression error: "),
                m.as_str(),
            ),
            Error::Parse(m) => <String as vstd::string::StringExecFns>::concat(
                <String as vstd::string::StringExecFns>::from_str("WASM parse error: "),
                m.as_str(),
            ),
        }
    }
}

/// One requested edit: the name of a custom section and its payload, whose
/// byte encoding is stored opaquely.
#[derive(Debug, Clone)]
pub struct CustomSection {
    pub name: String,
    pub data: String,
}

/// What the leading bytes of a buffer say it is.
#[derive(Clone, Copy, Debug, PartialEq, Eq, Structural)]
pub enum Classification {
    /// The buffer starts with the WebAssembly magic bytes.
    Raw,
    /// The buffer starts with the gzip magic bytes.
    Gzip,
    /// The buffer starts with neither.
    Invalid,
}

/// The classification of a buffer: raw WebAssembly when its first four bytes
/// are the WebAssembly magic sequence, gzip when its first three are the gzip
/// magic sequence, invalid otherwise.
pub open spec fn classify_spec(bytes: Seq<u8>) -> Classification {
    if bytes.len() >= 4 && bytes[0] == 0x00u8 && bytes[1] == 0x61u8 && bytes[2] == 0x73u8
        && bytes[3] == 0x6du8 {
        Classification::Raw
    } else if bytes.len() >= 3 && bytes[0] == 0x1fu8 && bytes[1] == 0x8bu8 && bytes[2] == 0x08u8 {
        Classification::Gzip
    } else {
        Classification::Invalid
    }
}

/// Classifies a buffer by its magic prefix.  Total: a short or empty buffer
/// simply matches neither prefix.
pub fn classify(bytes: &[u8]) -> (r: Classification)
    ensures
        r == classify_spec(bytes@),
{
    if bytes.len() >= 4 && bytes[0] == 0x00 && bytes[1] == 0x61 && bytes[2] == 0x73 && bytes[3]
        == 0x6d {
        Classification::Raw
    } else if bytes.len() >= 3 && bytes[0] == 0x1f && bytes[1] == 0x8b && bytes[2] == 0x08 {
        Classification::Gzip
    } else {
        Classification::Invalid
    }
}

/// What the gzip decoder yields for a byte buffer: `None` on a truncated or
/// corrupt stream, otherwise the decompressed bytes.  The result depends on
/// the buffer alone.
pub uninterp spec fn gunzip_of(bytes: Seq<u8>) -> Option<Seq<u8>>;

/// Relies on libflate::gzip::Decoder (its construction reads the header, its
/// std::io::Read implementation inflates the rest): a deterministic decode
/// of the whole stream into memory, failing on truncation or corruption.
#[verifier::external_body]
fn gzip_inflate(bytes: &[u8]) -> (r: Result<Vec<u8>, String>)
    ensures
        (r is Ok) == (gunzip_of(bytes@) is Some),
        r matches Ok(v) ==> gunzip_of(bytes@) matches Some(d) && v@ == d,
{
    match libflate::gzip::Decoder::new(bytes) {
        Ok(mut decoder) => {
            let mut data = Vec::new();
            match std::io::Read::read_to_end(&mut decoder, &mut data) {
                Ok(_) => Ok(data),
                Err(e) => Err(e.to_string()),
            }
        },
        Err(e) => Err(e.to_string()),
    }
}

/// Inflates a gzip stream into a raw byte buffer, failing on truncated or
/// corrupt input with the decoder's diagnostic.
pub fn decompress(bytes: &[u8]) -> (r: Result<Vec<u8>, Error>)
    ensures
        (r is Ok) == (gunzip_of(bytes@) is Some),
        r matches Ok(v) ==> gunzip_of(bytes@) matches Some(d) && v@ == d,
        r matches Err(e) ==> e is Decompression,
{
    match gzip_inflate(bytes) {
        Ok(v) => Ok(v),
        Err(msg) => Err(Error::Decompression(msg)),
    }
}

/// The raw WebAssembly bytes behind a buffer: the buffer itself when it is
/// raw, its decompression when it is gzip, nothing otherwise.
pub open spec fn raw_input_of(bytes: Seq<u8>) -> Option<Seq<u8>> {
    match classify_spec(bytes) {
        Classification::Raw => Some(bytes),
        Classification::Gzip => gunzip_of(bytes),
        Classification::Invalid => None,
    }
}

/// What the whole front of the pipeline parses a buffer into: the raw custom
/// sections and the rest of the module, or nothing when the buffer is
/// invalid, fails to inflate, or fails to parse.
pub open spec fn parse_result_of(bytes: Seq<u8>, keep_name_section: bool) -> Option<
    (Seq<SectionEntry>, Seq<u8>),
> {
    match raw_input_of(bytes) {
        Some(raw) => wasm_parse(raw, keep_name_section),
        None => None,
    }
}

/// Classifies the buffer, inflates it when it is gzip-compressed, and parses
/// the raw bytes as a WebAssembly module under the fixed configuration.
/// Fails fast: an unrecognized prefix is reported without any decompression
/// or parsing attempt.
pub fn parse_wasm(bytes: &[u8], keep_name_section: bool) -> (r: Result<walrus::Module, Error>)
    ensures
        (r is Ok) == (parse_result_of(bytes@, keep_name_section) is Some),
        r matches Ok(m) ==> parse_result_of(bytes@, keep_name_section) matches Some(parsed)
            && module_customs(m) == parsed.0 && module_core(m) == parsed.1,
        classify_spec(bytes@) is Invalid ==> (r matches Err(e) && e is InputFormat),
        classify_spec(bytes@) is Gzip && gunzip_of(bytes@) is None ==> (r matches Err(e)
            && e is Decompression),
        (raw_input_of(bytes@) matches Some(raw) && wasm_parse(raw, keep_name_section) is None)
            ==> (r matches Err(e) && e is Parse),
{
    match classify(bytes) {
        Classification::Raw => {
            match parse_module(bytes, keep_name_section) {
                Ok(m) => Ok(m),
                Err(msg) => Err(Error::Parse(msg)),
            }
        },
        Classification::Gzip => {
            match decompress(bytes) {
                Ok(raw) => {
                    match parse_module(raw.as_slice(), keep_name_section) {
                        Ok(m) => Ok(m),
                        Err(msg) => Err(Error::Parse(msg)),
                    }
                },
                Err(e) => Err(e),
            }
        },
        Classification::Invalid => Err(Error::InputFormat),
    }
}

/// A requested edit as the model sees it: the section name and the byte
/// encoding of its payload string.
pub open spec fn sec_model(s: CustomSection) -> SectionEntry {
    (s.name@, vstd::utf8::encode_utf8(s.data@))
}

/// An edit request as the model sees it, entry by entry, in order.
pub open spec fn edits_model(sections: Seq<CustomSection>) -> Seq<SectionEntry> {
    sections.map_values(|s: CustomSection| sec_model(s))
}

/// Removes every raw custom section of the module carrying the given name.
fn remove_all_named(module: &mut walrus::Module, name: &str)
    ensures
        module_core(*final(module)) == module_core(*old(module)),
        module_customs(*final(module)) == remove_name(module_customs(*old(module)), name@),
{
    let ghost cs0 = module_customs(*module);
    let ghost core0 = module_core(*module);
    loop
        invariant
            module_core(*module) == core0,
            remove_name(module_customs(*module), name@) == remove_name(cs0, name@),
        ensures
            !has_name(module_customs(*module), name@),
        decreases module_customs(*module).len(),
    {
        let ghost before = module_customs(*module);
        let removed = remove_raw_section(module, name);
        if !removed {
            break;
        }
        proof {
            lemma_remove_first_remove_name(before, name@);
            lemma_remove_first_len(before, name@);
        }
    }
    proof {
        lemma_remove_name_id(module_customs(*module), name@);
    }
}

/// Applies an edit request to a parsed module: removes every custom section
/// whose name the request mentions, then appends one section per distinct
/// requested name, later entries winning over earlier ones with the same
/// name.  Only the custom-section collection is touched.
pub fn apply_edits(module: &mut walrus::Module, sections: &Vec<CustomSection>)
    ensures
        module_core(*final(module)) == module_core(*old(module)),
        module_customs(*final(module)) == apply_edits_spec(
            module_customs(*old(module)),
            edits_model(sections@),
        ),
{
    let ghost cs0 = module_customs(*module);
    let ghost core0 = module_core(*module);
    let ghost em = edits_model(sections@);
    let n = sections.len();
    proof {
        assert(em.take(0int) =~= Seq::<SectionEntry>::empty());
        crate::sections::lemma_strip_empty_edits(cs0);
    }
    let mut i: usize = 0;
    while i < n
        invariant
            n == sections.len(),
            i <= n,
            em == edits_model(sections@),
            module_core(*module) == core0,
            module_customs(*module) == strip_edited(cs0, em.take(i as int)),
        decreases n - i,
    {
        remove_all_named(module, sections[i].name.as_str());
        proof {
            assert(em[i as int] == sec_model(sections@[i as int]));
            assert(em.take(i as int + 1) =~= em.take(i as int).push(em[i as int]));
            lemma_strip_push(cs0, em.take(i as int), em[i as int]);
        }
        i += 1;
    }
    proof {
        assert(em.take(0int) =~= Seq::<SectionEntry>::empty());
        assert(em.take(n as int) =~= em);
    }
    let ghost base = strip_edited(cs0, em);
    let mut j: usize = 0;
    while j < n
        invariant
            n == sections.len(),
            j <= n,
            em == edits_model(sections@),
            module_core(*module) == core0,
            base == strip_edited(cs0, em),
            module_customs(*module) == base + dedup_last(em.take(j as int)),
        decreases n - j,
    {
        let ghost d = dedup_last(em.take(j as int));
        let name = sections[j].name.as_str();
        proof {
            assert(em[j as int] == sec_model(sections@[j as int]));
            lemma_index_has_name(em, j as int);
            lemma_strip_count(cs0, em, name@);
            lemma_count_zero_iff_not_has(base, name@);
            lemma_has_name_concat(base, d, name@);
        }
        let removed = remove_raw_section(module, name);
        proof {
            if removed {
                lemma_remove_first_concat(base, d, name@);
                lemma_dedup_count(em.take(j as int), name@);
                lemma_count_zero_iff_not_has(d, name@);
                lemma_remove_first_unique(d, name@);
            } else {
                lemma_count_zero_iff_not_has(d, name@);
                lemma_remove_name_id(d, name@);
            }
            assert(module_customs(*module) == base + remove_name(d, name@));
        }
        let data = sections[j].data.as_str().as_bytes_vec();
        add_raw_section(module, name, data);
        proof {
            assert(em.take(j as int + 1) =~= em.take(j as int).push(em[j as int]));
            assert(em.take(j as int + 1).drop_last() =~= em.take(j as int));
            assert(em.take(j as int + 1).last() == em[j as int]);
            assert(dedup_last(em.take(j as int + 1)) == remove_name(d, name@).push(
                em[j as int],
            ));
            assert((base + remove_name(d, name@)).push(em[j as int]) =~= base + remove_name(
                d,
                name@,
            ).push(em[j as int]));
        }
        j += 1;
    }
    proof {
        assert(em.take(n as int) =~= em);
    }
}

/// What the whole pipeline emits for a buffer and an edit request, when it
/// succeeds: the parsed module's custom sections with the edits applied,
/// serialized around the untouched rest of the module.
pub open spec fn pipeline_output_of(bytes: Seq<u8>, edits: Seq<SectionEntry>) -> Option<Seq<u8>> {
    match parse_result_of(bytes, false) {
        Some(parsed) => Some(wasm_emit(apply_edits_spec(parsed.0, edits), parsed.1)),
        None => None,
    }
}

/// The full pipeline: classifies the buffer, inflates it when gzip, parses
/// it with name-section and producer-section generation disabled, replaces
/// or appends the requested custom sections, and emits the result.  Fails
/// fast with the stage's error on invalid, corrupt or malformed input.
pub fn add_custom_sections(bytes: &[u8], custom_sections: Vec<CustomSection>) -> (r: Result<
    Vec<u8>,
    Error,
>)
    ensures
        (r is Ok) == (parse_result_of(bytes@, false) is Some),
        r matches Ok(out) ==> Some(out@) == pipeline_output_of(
            bytes@,
            edits_model(custom_sections@),
        ),
        classify_spec(bytes@) is Invalid ==> (r matches Err(e) && e is InputFormat),
        classify_spec(bytes@) is Gzip && gunzip_of(bytes@) is None ==> (r matches Err(e)
            && e is Decompression),
        (raw_input_of(bytes@) matches Some(raw) && wasm_parse(raw, false) is None) ==> (
        r matches Err(e) && e is Parse),
{
    let mut module = match parse_wasm(bytes, false) {
        Ok(m) => m,
        Err(e) => {
            return Err(e);
        },
    };
    apply_edits(&mut module, &custom_sections);
    Ok(emit_module(module))
}

/// Gzip path equivalence: a raw WebAssembly buffer and any gzip stream that
/// inflates to exactly that buffer drive the pipeline to the same outcome,
/// byte for byte, for every edit request.
pub proof fn lemma_gzip_path_equivalence(raw: Seq<u8>, zipped: Seq<u8>, edits: Seq<SectionEntry>)
    requires
        classify_spec(raw) is Raw,
        classify_spec(zipped) is Gzip,
        gunzip_of(zipped) == Some(raw),
    ensures
        pipeline_output_of(zipped, edits) == pipeline_output_of(raw, edits),
{
}

/// A no-op rewrite: with an empty edit request the pipeline emits the parsed
/// module with its custom-section list exactly as parsed — non-custom
/// sections are invariant under every edit, custom sections under an empty
/// one.
pub proof fn lemma_noop_edit_preserves_sections(bytes: Seq<u8>)
    requires
        parse_result_of(bytes, false) is Some,
    ensures
        parse_result_of(bytes, false) matches Some(parsed) && pipeline_output_of(
            bytes,
            Seq::empty(),
        ) == Some(wasm_emit(parsed.0, parsed.1)),
{
    let parsed = choose|p: (Seq<SectionEntry>, Seq<u8>)| parse_result_of(bytes, false) == Some(p);
    lemma_empty_edit_identity(parsed.0);
}

} // verus!
