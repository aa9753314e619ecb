use anki_sound_adder::manifest::{manifest_text, order_manifest, parse_manifest};
use anki_sound_adder::text::{
    decimal_string, ends_with, join_fields, join_path, signed_decimal_string, split_fields,
    starts_with,
};

fn pair(k: &str, v: &str) -> (String, String) {
    (k.to_string(), v.to_string())
}

#[test]
fn decimal_of_small_and_large_numbers() {
    assert_eq!(decimal_string(0), "0");
    assert_eq!(decimal_string(7), "7");
    assert_eq!(decimal_string(1234), "1234");
    assert_eq!(decimal_string(u64::MAX), u64::MAX.to_string());
}

#[test]
fn signed_decimal_matches_to_string() {
    assert_eq!(signed_decimal_string(-42), "-42");
    assert_eq!(signed_decimal_string(1342697561419), "1342697561419");
    assert_eq!(signed_decimal_string(i64::MIN), i64::MIN.to_string());
    assert_eq!(signed_decimal_string(0), "0");
}

#[test]
fn prefix_and_suffix_checks() {
    assert!(starts_with("[sound:a.mp3]", "[sound:"));
    assert!(!starts_with("[soun", "[sound:"));
    assert!(ends_with("collection.anki21", ".anki21"));
    assert!(!ends_with("collection.anki21", ".anki2"));
}

#[test]
fn fields_split_and_join_round_trip() {
    let stored = "front\u{1f}back\u{1f}\u{1f}[sound:x.mp3]";
    let fields = split_fields(stored);
    assert_eq!(fields, vec!["front", "back", "", "[sound:x.mp3]"]);
    assert_eq!(join_fields(&fields), stored);
    assert_eq!(split_fields(""), vec![""]);
}

#[test]
fn path_join_adds_one_separator() {
    assert_eq!(join_path("/tmp/work", "media"), "/tmp/work/media");
    assert_eq!(join_path("/tmp/work/", "0"), "/tmp/work/0");
}

#[test]
fn path_join_in_empty_dir_is_the_name() {
    assert_eq!(join_path("", "a"), "a");
}

#[test]
fn manifest_text_is_a_json_object() {
    let text = manifest_text(&vec![pair("0", "a.mp3"), pair("1", "b.mp3")]).unwrap();
    assert_eq!(text, "{\"0\":\"a.mp3\",\"1\":\"b.mp3\"}");
    let empty = manifest_text(&vec![]).unwrap();
    assert_eq!(empty, "{}");
}

#[test]
fn manifest_parses_object_of_strings() {
    let parsed = parse_manifest(&b"{\"1\": \"b.mp3\", \"0\": \"a.mp3\"}".to_vec()).unwrap();
    assert_eq!(parsed.len(), 2);
    assert!(parsed.contains(&pair("0", "a.mp3")));
    assert!(parsed.contains(&pair("1", "b.mp3")));
}

#[test]
fn malformed_manifest_is_none() {
    assert_eq!(parse_manifest(&b"not json".to_vec()), None);
    assert_eq!(parse_manifest(&b"{\"0\": 5}".to_vec()), None);
    assert_eq!(parse_manifest(&b"[\"a\"]".to_vec()), None);
}

#[test]
fn manifest_ordered_by_numeric_index() {
    let mut members = Vec::new();
    for i in (0..12).rev() {
        members.push(pair(&i.to_string(), &format!("m{}.mp3", i)));
    }
    members.sort();
    let ordered = order_manifest(members);
    for (i, (k, v)) in ordered.iter().enumerate() {
        assert_eq!(*k, i.to_string());
        assert_eq!(*v, format!("m{}.mp3", i));
    }
}

#[test]
fn manifest_with_gap_keeps_given_order() {
    let members = vec![pair("5", "x.mp3"), pair("0", "y.mp3")];
    assert_eq!(order_manifest(members.clone()), members);
}
