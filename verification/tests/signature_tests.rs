use mince::module_name::ModuleName;
use mince::signature::{is_signature_text_exec, signature_pattern_exec, Signature, SignatureError};

fn chars(s: &str) -> Vec<char> {
    s.chars().collect()
}

fn pattern(s: &str) -> String {
    signature_pattern_exec(&chars(s)).into_iter().collect()
}

#[test]
fn format_accepts_pairs_and_wildcards() {
    assert!(is_signature_text_exec(&chars("FF 0D ?? ?? ?? ?? E8 ?? ?? ?? ?? 5E 5D")));
    assert!(is_signature_text_exec(&chars("ff")));
    assert!(is_signature_text_exec(&chars("a?\t?b\nCC")));
}

#[test]
fn format_rejects_malformed_texts() {
    assert!(!is_signature_text_exec(&chars("")));
    assert!(!is_signature_text_exec(&chars("F")));
    assert!(!is_signature_text_exec(&chars("FF ")));
    assert!(!is_signature_text_exec(&chars("FF  0D")));
    assert!(!is_signature_text_exec(&chars("FG")));
    assert!(!is_signature_text_exec(&chars("FF-0D")));
    assert!(!is_signature_text_exec(&chars("FFF 0D")));
}

#[test]
fn pattern_groups_wildcard_runs() {
    assert_eq!(
        pattern("FF 0D ?? ?? ?? ?? E8 ?? ?? ?? ?? 5E 5D"),
        r"(?s-u:\xFF\x0D(....)\xE8(....)\x5E\x5D)"
    );
    assert_eq!(pattern("?? ??"), "(?s-u:(..))");
    assert_eq!(pattern("ab ?? cd"), r"(?s-u:\xAB(.)\xCD)");
}

#[test]
fn pattern_is_case_and_space_insensitive() {
    assert_eq!(pattern("ab\tcd ?? ef"), pattern("AB CD ?? EF"));
}

#[test]
fn new_accepts_the_client_signatures() {
    let sig = Signature::new(ModuleName::Client, "FF 05 ?? ?? ?? ?? 85 DB 74 0D 8B 13");
    assert!(sig.is_ok());
    assert_eq!(sig.unwrap().module(), ModuleName::Client);
}

#[test]
fn new_reports_wrong_format_with_the_text() {
    match Signature::new(ModuleName::Engine, "FF 0") {
        Err(SignatureError::WrongFormat(text)) => assert_eq!(text, "FF 0"),
        _ => panic!("expected a format error"),
    }
}

#[test]
fn new_reports_a_pattern_the_regex_engine_refuses() {
    // "?A" passes the text format but is neither a byte nor a wildcard.
    match Signature::new(ModuleName::Client, "?A FF") {
        Err(SignatureError::InvalidPattern(_)) => {}
        _ => panic!("expected a regex error"),
    }
}

#[test]
fn captures_find_every_match_with_its_groups() {
    let sig = Signature::new(ModuleName::Client, "FF 0D ?? ?? E8").unwrap();
    let hay = [0x00u8, 0xFF, 0x0D, 0x01, 0x02, 0xE8, 0x00, 0xFF, 0x0D, 0x03, 0x04, 0xE8];
    let caps = sig.captures(&hay);
    assert_eq!(caps.len(), 2);
    assert_eq!(caps[0], vec![Some((1, 6)), Some((3, 5))]);
    assert_eq!(caps[1], vec![Some((7, 12)), Some((9, 11))]);
}

#[test]
fn wildcards_match_any_byte_including_newlines() {
    let sig = Signature::new(ModuleName::Client, "01 ?? 02").unwrap();
    assert_eq!(sig.captures(&[0x01, 0x0A, 0x02]).len(), 1);
    assert_eq!(sig.captures(&[0x01, 0xFF, 0x02]).len(), 1);
    assert_eq!(sig.captures(&[0x01, 0x02]).len(), 0);
}
