use lanzaboote::gc::{
    collect_digest_strings, collect_record_digests, gc, is_removed, looks_like_digest,
    read_event_log_digests, records_are_in_log, variant_is_in_log, DigestSet, GcStep, ProcessOutput,
};
use lanzaboote::json::JsonValue;
use lanzaboote::path::UnixPath;
use lanzaboote::pcrlock::GcArgs;

fn digest(c: char) -> String {
    c.to_string().repeat(64)
}

fn parse(text: &str) -> JsonValue {
    JsonValue::parse(text.as_bytes()).unwrap()
}

fn text(value: &str) -> JsonValue {
    JsonValue::Text(value.to_string())
}

#[test]
fn digests_are_recognised_by_shape() {
    for n in [40, 64, 96, 128] {
        assert!(looks_like_digest(&"aF0".repeat(50)[..n]));
    }
    assert!(!looks_like_digest(&"a".repeat(63)));
    assert!(!looks_like_digest(""));
    assert!(!looks_like_digest(&"g".repeat(64)));
    assert!(!looks_like_digest(&"\u{e4}".repeat(32)));
    assert!(!looks_like_digest(&"\u{e4}".repeat(64)));
}

#[test]
fn digest_sets_behave_like_sets() {
    let mut set = DigestSet::new();
    assert!(set.is_empty());
    set.insert("a".to_string());
    set.insert("a".to_string());
    assert!(set.contains("a"));
    assert!(!set.contains("b"));
    assert!(!set.is_empty());
    let mut larger = DigestSet::new();
    larger.insert("b".to_string());
    assert!(!set.is_subset(&larger));
    larger.insert("a".to_string());
    assert!(set.is_subset(&larger));
    assert!(!larger.is_subset(&set));
}

#[test]
fn all_digest_strings_are_collected() {
    let upper = digest('A');
    let value = JsonValue::Array(vec![
        text(&upper),
        text("short"),
        JsonValue::Object(vec![
            (digest('b'), JsonValue::Null),
            ("x".to_string(), text(&digest('c'))),
        ]),
        JsonValue::Bool(true),
        JsonValue::Unsigned(7),
        JsonValue::Negative(-7),
        JsonValue::Float(serde_json::Number::from_f64(0.5).unwrap()),
    ]);
    let mut digests = DigestSet::new();
    collect_digest_strings(&value, &mut digests);
    assert!(digests.contains(&digest('a')));
    assert!(digests.contains(&digest('c')));
    assert!(!digests.contains(&upper));
    assert!(!digests.contains(&digest('b')));
}

#[test]
fn only_digest_members_are_records() {
    let value = JsonValue::Object(vec![
        ("digest".to_string(), text(&digest('A'))),
        ("other".to_string(), text(&digest('b'))),
        (
            "more".to_string(),
            JsonValue::Array(vec![JsonValue::Object(vec![(
                "digest".to_string(),
                text(&digest('c')),
            )])]),
        ),
    ]);
    let mut digests = DigestSet::new();
    collect_record_digests(&value, &mut digests);
    assert!(digests.contains(&digest('a')));
    assert!(!digests.contains(&digest('b')));
    assert!(digests.contains(&digest('c')));
    let mut none = DigestSet::new();
    collect_record_digests(&text(&digest('a')), &mut none);
    assert!(none.is_empty());
}

#[test]
fn event_log_is_read_from_json() {
    let log = format!("[{{\"digests\":{{\"sha256\":\"{}\"}}}}]", digest('D'));
    let digests = read_event_log_digests(Some(ProcessOutput {
        success: true,
        stdout: log.as_bytes(),
    }))
    .unwrap();
    assert!(digests.contains(&digest('d')));
    assert!(read_event_log_digests(None).is_none());
    assert!(read_event_log_digests(Some(ProcessOutput {
        success: false,
        stdout: log.as_bytes(),
    }))
    .is_none());
    assert!(read_event_log_digests(Some(ProcessOutput {
        success: true,
        stdout: b"no json",
    }))
    .is_none());
}

#[test]
fn variants_are_held_against_the_log() {
    let mut log = DigestSet::new();
    log.insert(digest('a'));
    log.insert(digest('b'));
    let variant = |c: char| {
        format!(
            "{{\"records\":[{{\"pcr\":11,\"digests\":[{{\"hashAlg\":\"sha256\",\"digest\":\"{}\"}}]}}]}}",
            digest(c)
        )
    };
    assert!(variant_is_in_log(Some(variant('a').as_bytes()), &log));
    assert!(variant_is_in_log(Some(variant('B').as_bytes()), &log));
    assert!(!variant_is_in_log(Some(variant('c').as_bytes()), &log));
    assert!(!variant_is_in_log(Some(b"{\"records\":[]}"), &log));
    assert!(!variant_is_in_log(Some(b"{"), &log));
    assert!(!variant_is_in_log(None, &log));
    assert!(records_are_in_log(&parse(&variant('a')), &log));
    assert!(!records_are_in_log(&parse("[]"), &log));
}

#[test]
fn obsolete_variants_are_removed() {
    let args = GcArgs {
        systemd: UnixPath::new(b"/systemd"),
        pcrlock: UnixPath::new(b"/pcrlock"),
        keep: vec!["kept".to_string(), "b.c".to_string()],
    };
    let log = DigestSet::new();
    assert_eq!(gc(&args, b"kept.pcrlock", Some(&log)), GcStep::Retain);
    assert_eq!(gc(&args, b"b.c.pcrlock", None), GcStep::Retain);
    assert_eq!(gc(&args, b"old.pcrlock", Some(&log)), GcStep::Examine);
    assert_eq!(gc(&args, b"old.pcrlock", None), GcStep::Remove);
    assert_eq!(gc(&args, b"old.txt", None), GcStep::Retain);
    assert_eq!(gc(&args, b"old", None), GcStep::Retain);
    assert_eq!(gc(&args, b".pcrlock", None), GcStep::Retain);
    assert_eq!(gc(&args, b"\xff.pcrlock", None), GcStep::Retain);
    assert_eq!(gc(&args, b"..pcrlock", None), GcStep::Remove);
}

#[test]
fn only_obsolete_files_are_gone() {
    let args = GcArgs {
        systemd: UnixPath::new(b"/systemd"),
        pcrlock: UnixPath::new(b"/pcrlock"),
        keep: vec!["kept".to_string()],
    };
    let mut log = DigestSet::new();
    log.insert(digest('a'));
    let variant = |c: char| format!("{{\"records\":[{{\"digest\":\"{}\"}}]}}", digest(c));
    let booted = variant('A');
    let other = variant('b');
    let gone = |name: &[u8], log: Option<&DigestSet>, contents: Option<&str>| {
        is_removed(&args, name, log, contents.map(|text| text.as_bytes()))
    };
    assert!(!gone(b"old.pcrlock", Some(&log), Some(&booted)));
    assert!(gone(b"old.pcrlock", Some(&log), Some(&other)));
    assert!(gone(b"old.pcrlock", Some(&log), Some("no json")));
    assert!(gone(b"old.pcrlock", Some(&log), None));
    assert!(gone(b"old.pcrlock", None, Some(&booted)));
    assert!(!gone(b"kept.pcrlock", Some(&log), Some(&other)));
    assert!(!gone(b"kept.pcrlock", None, None));
    assert!(!gone(b"old.txt", Some(&log), Some(&other)));
}
