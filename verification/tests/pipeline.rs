//! End-to-end tests of the module-rewriting pipeline, run against the real
//! walrus and libflate crates.

use wasm_sections::wasm_utils::add_custom_sections;
use wasm_sections::wasm_utils::classify;
use wasm_sections::wasm_utils::decompress;
use wasm_sections::wasm_utils::parse_wasm;
use wasm_sections::wasm_utils::Classification;
use wasm_sections::wasm_utils::CustomSection;
use wasm_sections::wasm_utils::Error;

/// The smallest valid module: magic bytes and version, nothing else.
const EMPTY_WASM: [u8; 8] = [0x00, 0x61, 0x73, 0x6d, 0x01, 0x00, 0x00, 0x00];

fn section(name: &str, data: &str) -> CustomSection {
    CustomSection { name: name.to_string(), data: data.to_string() }
}

fn gzip(bytes: &[u8]) -> Vec<u8> {
    let mut encoder = libflate::gzip::Encoder::new(Vec::new()).unwrap();
    std::io::Write::write_all(&mut encoder, bytes).unwrap();
    encoder.finish().into_result().unwrap()
}

/// The (name, data) pairs of a binary's custom sections, via walrus itself.
fn customs_of(bytes: &[u8]) -> Vec<(String, Vec<u8>)> {
    let module = walrus::ModuleConfig::new().parse(bytes).unwrap();
    let indices = walrus::IdsToIndices::default();
    module
        .customs
        .iter()
        .map(|(_, s)| (s.name().to_string(), s.data(&indices).to_vec()))
        .collect()
}

#[test]
fn classify_raw_gzip_invalid() {
    assert_eq!(classify(&EMPTY_WASM), Classification::Raw);
    assert_eq!(classify(&[0x00, 0x61, 0x73, 0x6d]), Classification::Raw);
    assert_eq!(classify(&[0x1f, 0x8b, 0x08]), Classification::Gzip);
    assert_eq!(classify(&gzip(&EMPTY_WASM)), Classification::Gzip);
    assert_eq!(classify(&[]), Classification::Invalid);
    assert_eq!(classify(&[0x00, 0x61, 0x73]), Classification::Invalid);
    assert_eq!(classify(b"hello world"), Classification::Invalid);
}

#[test]
fn invalid_prefix_is_input_format_error() {
    let r = add_custom_sections(b"hello world", vec![]);
    assert!(matches!(r, Err(Error::InputFormat)));
    let r = add_custom_sections(&[], vec![section("a", "b")]);
    assert!(matches!(r, Err(Error::InputFormat)));
    let r = add_custom_sections(&[0x00, 0x61, 0x73], vec![]);
    assert!(matches!(r, Err(Error::InputFormat)));
}

#[test]
fn empty_edit_preserves_custom_sections() {
    let with_section =
        add_custom_sections(&EMPTY_WASM, vec![section("icp:public foo", "hello")]).unwrap();
    let out = add_custom_sections(&with_section, vec![]).unwrap();
    assert_eq!(customs_of(&out), customs_of(&with_section));
    assert_eq!(
        customs_of(&out),
        vec![("icp:public foo".to_string(), b"hello".to_vec())]
    );
}

#[test]
fn replacement_leaves_exactly_one_section() {
    let with_section =
        add_custom_sections(&EMPTY_WASM, vec![section("icp:public foo", "old data")]).unwrap();
    let out =
        add_custom_sections(&with_section, vec![section("icp:public foo", "new data")]).unwrap();
    let customs = customs_of(&out);
    let matching: Vec<_> = customs.iter().filter(|(n, _)| n == "icp:public foo").collect();
    assert_eq!(matching.len(), 1);
    assert_eq!(matching[0].1, b"new data".to_vec());
}

#[test]
fn last_write_wins_on_duplicate_names() {
    let out = add_custom_sections(
        &EMPTY_WASM,
        vec![section("icp:public foo", "first"), section("icp:public foo", "second")],
    )
    .unwrap();
    let customs = customs_of(&out);
    let matching: Vec<_> = customs.iter().filter(|(n, _)| n == "icp:public foo").collect();
    assert_eq!(matching.len(), 1);
    assert_eq!(matching[0].1, b"second".to_vec());
}

#[test]
fn unedited_sections_are_untouched() {
    let with_two = add_custom_sections(
        &EMPTY_WASM,
        vec![section("icp:public a", "one"), section("icp:private b", "two")],
    )
    .unwrap();
    let out = add_custom_sections(&with_two, vec![section("icp:public a", "three")]).unwrap();
    let customs = customs_of(&out);
    assert!(customs.contains(&("icp:private b".to_string(), b"two".to_vec())));
    assert!(customs.contains(&("icp:public a".to_string(), b"three".to_vec())));
    assert_eq!(customs.len(), 2);
}

#[test]
fn gzip_path_matches_raw_path() {
    let base =
        add_custom_sections(&EMPTY_WASM, vec![section("icp:public foo", "payload")]).unwrap();
    let edits = vec![section("icp:public foo", "updated"), section("icp:extra", "more")];
    let from_raw = add_custom_sections(&base, edits.clone()).unwrap();
    let from_gzip = add_custom_sections(&gzip(&base), edits).unwrap();
    assert_eq!(from_raw, from_gzip);
}

#[test]
fn corrupt_gzip_is_decompression_error() {
    let r = add_custom_sections(&[0x1f, 0x8b, 0x08], vec![]);
    assert!(matches!(r, Err(Error::Decompression(_))));

    let mut truncated = gzip(&EMPTY_WASM);
    truncated.truncate(truncated.len() - 5);
    let r = add_custom_sections(&truncated, vec![]);
    assert!(matches!(r, Err(Error::Decompression(_))));
}

#[test]
fn truncated_wasm_is_parse_error() {
    let r = add_custom_sections(&[0x00, 0x61, 0x73, 0x6d], vec![]);
    assert!(matches!(r, Err(Error::Parse(_))));

    let r = add_custom_sections(&[0x00, 0x61, 0x73, 0x6d, 0xff, 0xff, 0xff, 0xff], vec![]);
    assert!(matches!(r, Err(Error::Parse(_))));
}

#[test]
fn decompress_inverts_gzip() {
    let payload = b"some bytes to compress".to_vec();
    let out = decompress(&gzip(&payload)).unwrap();
    assert_eq!(out, payload);
}

#[test]
fn decompress_rejects_truncated_stream() {
    let mut truncated = gzip(b"payload");
    truncated.truncate(truncated.len() - 3);
    let r = decompress(&truncated);
    assert!(matches!(r, Err(Error::Decompression(_))));
}

#[test]
fn parse_wasm_accepts_raw_and_gzip() {
    assert!(parse_wasm(&EMPTY_WASM, false).is_ok());
    assert!(parse_wasm(&gzip(&EMPTY_WASM), false).is_ok());
    assert!(matches!(parse_wasm(b"not wasm", false), Err(Error::InputFormat)));
}

#[test]
fn gzip_of_garbage_is_parse_error() {
    let r = add_custom_sections(&gzip(b"not a module"), vec![]);
    assert!(matches!(r, Err(Error::Parse(_))));
}

#[test]
fn error_messages_name_the_stage() {
    assert_eq!(
        Error::InputFormat.message(),
        "input format error: input must be either gzipped or uncompressed WASM"
    );
    assert_eq!(
        Error::Decompression("unexpected EOF".to_string()).message(),
        "decompression error: unexpected EOF"
    );
    assert_eq!(
        Error::Parse("bad section".to_string()).message(),
        "WASM parse error: bad section"
    );
}

#[test]
fn emitted_binary_is_raw_wasm() {
    let out = add_custom_sections(&gzip(&EMPTY_WASM), vec![section("a", "b")]).unwrap();
    assert_eq!(classify(&out), Classification::Raw);
}
