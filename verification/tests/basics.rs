use lanzaboote::bytes::{decimal, push_le, read_le, same_bytes};
use lanzaboote::cmdline::mangle_stub_cmdline;
use lanzaboote::digest::{hex_string, sha256};
use lanzaboote::json::JsonValue;
use lanzaboote::text::{chars_of, same_text, string_of, trim_end_nul};
use lanzaboote::ucs2::{
    bytes_of_units, decode_ascii, encode, encode_with_nul, join_path, normalize, sort_paths,
};

#[test]
fn little_endian_numbers_round_trip() {
    let mut bytes = Vec::new();
    push_le(&mut bytes, 0x0102_0304, 4);
    push_le(&mut bytes, 0x0506, 2);
    assert_eq!(bytes, vec![4, 3, 2, 1, 6, 5]);
    assert_eq!(read_le(&bytes[0..4]), 0x0102_0304);
    assert_eq!(read_le(&[0xff; 8]), u64::MAX);
    assert_eq!(read_le(&[]), 0);
}

#[test]
fn numbers_are_written_in_decimal() {
    assert_eq!(decimal(0), b"0".to_vec());
    assert_eq!(decimal(4_294_967_295), b"4294967295".to_vec());
}

#[test]
fn bytes_and_texts_are_compared() {
    assert!(same_bytes(b"ab", b"ab"));
    assert!(!same_bytes(b"ab", b"a"));
    assert!(!same_bytes(b"ab", b"ac"));
    assert!(same_text("\u{e4}", "\u{e4}"));
    assert!(!same_text("a", "\u{e4}"));
    assert_eq!(chars_of("a\u{e4}"), vec!['a', '\u{e4}']);
    assert_eq!(string_of(&['x', '\u{20ac}']), "x\u{20ac}");
    assert_eq!(trim_end_nul("a\0b\0\0"), "a\0b");
}

#[test]
fn sha256_of_known_inputs() {
    assert_eq!(
        hex_string(&sha256(b"")),
        "e3b0c44298fc1c149afbf4c8996fb92427ae41e4649b934ca495991b7852b855"
    );
    assert_eq!(
        hex_string(&sha256(b"abc")),
        "ba7816bf8f01cfea414140de5dae2223b00361a396177a9cb410ff61f20015ad"
    );
}

#[test]
fn digests_are_written_in_lower_case() {
    assert_eq!(hex_string(&[0x00, 0x9a, 0xbc, 0xff]), "009abcff");
    assert_eq!(hex_string(&[]), "");
}

#[test]
fn texts_become_ucs2() {
    assert_eq!(encode("a\u{20ac}"), Some(vec![0x61, 0x20ac]));
    assert_eq!(encode_with_nul(""), Some(vec![0]));
    assert_eq!(encode("a\0"), None);
    assert_eq!(encode("\u{10000}"), None);
    assert_eq!(bytes_of_units(&[0x0102, 0x61]), vec![2, 1, 0x61, 0]);
    assert_eq!(decode_ascii(&[0x61, 0x7f]), Some("a\u{7f}".to_string()));
    assert_eq!(decode_ascii(&[0x80]), None);
}

#[test]
fn firmware_paths_use_backslashes() {
    assert_eq!(normalize(&[0x2f, 0x61]), vec![0x5c, 0x61]);
    assert_eq!(join_path(&[0x61], &[0x62]), vec![0x61, 0x5c, 0x62]);
}

#[test]
fn paths_are_sorted_by_their_units() {
    let sorted = sort_paths(vec![vec![2], vec![1, 5], vec![], vec![1], vec![2]]);
    assert_eq!(
        sorted,
        vec![vec![], vec![1], vec![1, 5], vec![2], vec![2]]
    );
}

#[test]
fn mangling_twice_changes_nothing() {
    let once = mangle_stub_cmdline("\u{1} a\u{7f}b \u{a0}");
    assert_eq!(once, "a b \u{a0}");
    assert_eq!(mangle_stub_cmdline(&once), once);
}

#[test]
fn documents_are_parsed() {
    let value = JsonValue::parse(b"{\"b\":[null,true,\"x\"],\"a\":1}").unwrap();
    match value {
        JsonValue::Object(members) => {
            assert_eq!(members.len(), 2);
            assert_eq!(members[0].0, "a");
            assert!(matches!(&members[0].1, JsonValue::Unsigned(1)));
            match &members[1].1 {
                JsonValue::Array(values) => {
                    assert!(matches!(values[0], JsonValue::Null));
                    assert!(matches!(values[1], JsonValue::Bool(true)));
                    assert!(matches!(&values[2], JsonValue::Text(text) if text == "x"));
                }
                other => panic!("unexpected {other:?}"),
            }
        }
        other => panic!("unexpected {other:?}"),
    }
    assert!(JsonValue::parse(b"").is_none());
}

#[test]
fn numbers_are_told_apart() {
    assert!(matches!(
        JsonValue::parse(b"18446744073709551615"),
        Some(JsonValue::Unsigned(u64::MAX))
    ));
    assert!(matches!(
        JsonValue::parse(b"-9223372036854775808"),
        Some(JsonValue::Negative(i64::MIN))
    ));
    assert!(matches!(
        JsonValue::parse(b"1.0"),
        Some(JsonValue::Float(_))
    ));
    assert!(matches!(
        JsonValue::parse(b"18446744073709551616"),
        Some(JsonValue::Float(_))
    ));
}
