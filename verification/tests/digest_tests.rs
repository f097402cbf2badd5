use cloudapi_installr::digest::{
    canonical_form, fingerprint, frame_canonical, hash_extension_state, is_marker_stale,
    needs_update,
};
use cloudapi_installr::model::{ExtensionState, ExtensionStatus};

fn foo(version: &str) -> ExtensionState {
    let mut state = ExtensionState::stamped("u-1", "foo", version, "2024-01-01T00:00:00+00:00".to_string());
    state.set_publisher("acme");
    state
}

const FOO_1_0_0: &str = "66f24bd4d2dc90c5751266a66d19a5563ba2ec65a181047c39ca063957f7377c";
const FOO_1_1_0: &str = "a54f9f7b04d567c917a4644147066c6b3d00592315f69d3a255ef9c0e25a4a43";

#[test]
fn canonical_form_is_the_compact_json_object() {
    assert_eq!(
        canonical_form(&foo("1.0.0")).unwrap(),
        "{\"uid\":\"u-1\",\"id\":\"foo\",\"publisher\":\"acme\",\"version\":\"1.0.0\",\"config\":null,\"status\":\"not_installed\",\"modified_at\":\"2024-01-01T00:00:00+00:00\"}"
    );
}

#[test]
fn canonical_form_escapes_text() {
    let mut state = ExtensionState::stamped("u\"1", "a\\b", "1\n0", "t\t\u{fc}".to_string());
    state.set_config("{\"k\":\"v\"}");
    state.set_status(ExtensionStatus::Installed);
    assert_eq!(
        canonical_form(&state).unwrap(),
        "{\"uid\":\"u\\\"1\",\"id\":\"a\\\\b\",\"publisher\":null,\"version\":\"1\\n0\",\"config\":\"{\\\"k\\\":\\\"v\\\"}\",\"status\":\"installed\",\"modified_at\":\"t\\t\u{fc}\"}"
    );
    assert_eq!(
        hash_extension_state(&state).unwrap(),
        "73b18040babe227f5378861cadefa5f8b0dba4e7fec0a3ebf6086f405dafec82"
    );
}

#[test]
fn frame_puts_the_values_in_field_order() {
    assert_eq!(
        frame_canonical("1", "2", "3", "4", "5", "6", "7"),
        "{\"uid\":1,\"id\":2,\"publisher\":3,\"version\":4,\"config\":5,\"status\":6,\"modified_at\":7}"
    );
}

#[test]
fn fingerprint_is_sha256_in_lowercase_hex() {
    assert_eq!(fingerprint(""), "e3b0c44298fc1c149afbf4c8996fb92427ae41e4649b934ca495991b7852b855");
    assert_eq!(fingerprint("abc"), "ba7816bf8f01cfea414140de5dae2223b00361a396177a9cb410ff61f20015ad");
}

#[test]
fn hash_of_an_extension_is_the_fingerprint_of_its_canonical_form() {
    assert_eq!(hash_extension_state(&foo("1.0.0")).unwrap(), FOO_1_0_0);
    assert_eq!(hash_extension_state(&foo("1.1.0")).unwrap(), FOO_1_1_0);
}

#[test]
fn hash_is_stable() {
    let state = foo("1.0.0");
    let first = hash_extension_state(&state).unwrap();
    let second = hash_extension_state(&state).unwrap();
    let third = hash_extension_state(&state.duplicate()).unwrap();
    assert_eq!(first, second);
    assert_eq!(first, third);
    assert_eq!(first.len(), 64);
}

#[test]
fn hash_changes_with_every_field() {
    let base = hash_extension_state(&foo("1.0.0")).unwrap();
    let mut changed = foo("1.0.0");
    changed.uid = "u-2".to_string();
    assert_ne!(hash_extension_state(&changed).unwrap(), base);
    let mut changed = foo("1.0.0");
    changed.id = "bar".to_string();
    assert_ne!(hash_extension_state(&changed).unwrap(), base);
    let mut changed = foo("1.0.0");
    changed.publisher = None;
    assert_ne!(hash_extension_state(&changed).unwrap(), base);
    let mut changed = foo("1.0.0");
    changed.version = "1.0.1".to_string();
    assert_ne!(hash_extension_state(&changed).unwrap(), base);
    let mut changed = foo("1.0.0");
    changed.set_config("");
    assert_ne!(hash_extension_state(&changed).unwrap(), base);
    let mut changed = foo("1.0.0");
    changed.set_status(ExtensionStatus::Installed);
    assert_ne!(hash_extension_state(&changed).unwrap(), base);
    let mut changed = foo("1.0.0");
    changed.modified_at = "2024-01-01T00:00:01+00:00".to_string();
    assert_ne!(hash_extension_state(&changed).unwrap(), base);
}

#[test]
fn marker_is_stale_unless_it_holds_the_fingerprint() {
    assert!(is_marker_stale(None, FOO_1_0_0));
    assert!(!is_marker_stale(Some(FOO_1_0_0), FOO_1_0_0));
    assert!(is_marker_stale(Some(FOO_1_1_0), FOO_1_0_0));
    assert!(is_marker_stale(Some(""), FOO_1_0_0));
}

#[test]
fn marker_is_compared_without_surrounding_whitespace() {
    let padded = format!("  {}\r\n", FOO_1_0_0);
    assert!(!is_marker_stale(Some(&padded), FOO_1_0_0));
    let nbsp = format!("\u{a0}{}\u{3000}", FOO_1_0_0);
    assert!(!is_marker_stale(Some(&nbsp), FOO_1_0_0));
    let inner = format!("{} {}", &FOO_1_0_0[..32], &FOO_1_0_0[32..]);
    assert!(is_marker_stale(Some(&inner), FOO_1_0_0));
}

#[test]
fn extension_without_marker_needs_update() {
    assert_eq!(needs_update(&foo("1.0.0"), None), Ok(true));
}

#[test]
fn extension_with_matching_marker_is_up_to_date() {
    assert_eq!(needs_update(&foo("1.0.0"), Some(FOO_1_0_0)), Ok(false));
    assert_eq!(needs_update(&foo("1.0.0"), Some(&format!("{}\n", FOO_1_0_0))), Ok(false));
}

#[test]
fn extension_with_other_marker_needs_update() {
    assert_eq!(needs_update(&foo("1.1.0"), Some(FOO_1_0_0)), Ok(true));
}

#[test]
fn inactive_extension_never_needs_update() {
    for status in [ExtensionStatus::Uninstalling, ExtensionStatus::Uninstalled, ExtensionStatus::Disabled] {
        let mut state = foo("1.0.0");
        state.set_status(status);
        assert_eq!(needs_update(&state, None), Ok(false));
        assert_eq!(needs_update(&state, Some("stale")), Ok(false));
    }
}

fn canonical_uid(uid: &str) -> String {
    let state = ExtensionState::stamped(uid, "i", "v", "m".to_string());
    let text = canonical_form(&state).unwrap();
    let rest = ",\"id\":\"i\",\"publisher\":null,\"version\":\"v\",\"config\":null,\"status\":\"not_installed\",\"modified_at\":\"m\"}";
    assert!(text.starts_with("{\"uid\":"));
    assert!(text.ends_with(rest));
    text["{\"uid\":".len()..text.len() - rest.len()].to_string()
}

#[test]
fn control_characters_are_escaped() {
    for n in 0u32..0x20 {
        let c = char::from_u32(n).unwrap();
        let expected = match n {
            0x08 => "\"\\b\"".to_string(),
            0x09 => "\"\\t\"".to_string(),
            0x0a => "\"\\n\"".to_string(),
            0x0c => "\"\\f\"".to_string(),
            0x0d => "\"\\r\"".to_string(),
            _ => format!("\"\\u{:04x}\"", n),
        };
        assert_eq!(canonical_uid(&c.to_string()), expected);
    }
}

#[test]
fn quote_and_backslash_are_escaped_and_nothing_else_is() {
    assert_eq!(canonical_uid("\""), "\"\\\"\"");
    assert_eq!(canonical_uid("\\"), "\"\\\\\"");
    assert_eq!(canonical_uid(""), "\"\"");
    for n in 0x20u32..0x80 {
        let c = char::from_u32(n).unwrap();
        if c != '"' && c != '\\' {
            assert_eq!(canonical_uid(&c.to_string()), format!("\"{}\"", c));
        }
    }
    for c in ['\u{7f}', '\u{80}', '\u{9f}', '\u{a0}', '\u{e9}', '\u{2028}', '\u{2029}', '\u{fffd}', '\u{1f600}'] {
        assert_eq!(canonical_uid(&c.to_string()), format!("\"{}\"", c));
    }
    assert_eq!(canonical_uid("a\"b\\c\nd/e"), "\"a\\\"b\\\\c\\nd/e\"");
}

#[test]
fn every_whitespace_character_is_trimmed_from_a_marker() {
    let whitespace = [
        0x09u32, 0x0a, 0x0b, 0x0c, 0x0d, 0x20, 0x85, 0xa0, 0x1680, 0x2000, 0x2001, 0x2002, 0x2003,
        0x2004, 0x2005, 0x2006, 0x2007, 0x2008, 0x2009, 0x200a, 0x2028, 0x2029, 0x202f, 0x205f,
        0x3000,
    ];
    for n in whitespace {
        let c = char::from_u32(n).unwrap();
        let marker = format!("{}{}{}{}", c, c, FOO_1_0_0, c);
        assert!(!is_marker_stale(Some(&marker), FOO_1_0_0), "U+{:04X}", n);
    }
    for n in [0x00u32, 0x08, 0x0e, 0x1f, 0x7f, 0x84, 0x86, 0x9f, 0xa1, 0x180e, 0x200b, 0x200c, 0x2060, 0x3001, 0xfeff] {
        let c = char::from_u32(n).unwrap();
        let before = format!("{}{}", c, FOO_1_0_0);
        let after = format!("{}{}", FOO_1_0_0, c);
        assert!(is_marker_stale(Some(&before), FOO_1_0_0), "U+{:04X}", n);
        assert!(is_marker_stale(Some(&after), FOO_1_0_0), "U+{:04X}", n);
    }
}
