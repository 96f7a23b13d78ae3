use confluence_updater::config::PageConfig;
use confluence_updater::fingerprint::{fingerprint, hash_str, hex_char, hex_encode, Modifiers};

#[test]
fn hash_str_is_the_head_of_the_sha256_digest() {
    // SHA-256("abc") = ba7816bf 8f01cfea ...; SHA-256("") = e3b0c442 98fc1c14 ...
    assert_eq!(hash_str("abc"), "ba7816bf");
    assert_eq!(hash_str(""), "e3b0c442");
    assert_eq!(hash_str("hello world"), "b94d27b9");
}

#[test]
fn fingerprint_covers_source_title_and_modifiers_in_order() {
    let none = Modifiers { read_only: None, superscript: None };
    assert_eq!(fingerprint("a", "bc", &none), "ba7816bf");
    assert_eq!(fingerprint("ab", "c", &none), "ba7816bf");
    let flagged = Modifiers { read_only: Some(true), superscript: Some("v1".to_string()) };
    assert_eq!(fingerprint("src", "title", &flagged), hash_str("srctitletruev1"));
    let open = Modifiers { read_only: Some(false), superscript: None };
    assert_eq!(fingerprint("src", "title", &open), hash_str("srctitlefalse"));
}

#[test]
fn fingerprint_is_the_same_for_the_same_input_and_changes_with_it() {
    let modifiers = Modifiers { read_only: Some(true), superscript: Some("draft".to_string()) };
    let one = fingerprint("# T\n\nbody\n", "T", &modifiers);
    let two = fingerprint("# T\n\nbody\n", "T", &modifiers.clone());
    assert_eq!(one, two);
    assert_eq!(one.len(), 8);
    assert!(one.chars().all(|c| c.is_ascii_digit() || ('a'..='f').contains(&c)));
    assert_ne!(one, fingerprint("# T\n\nbodx\n", "T", &modifiers));
    assert_ne!(one, fingerprint("# T\n\nbody\n", "U", &modifiers));
    let other = Modifiers { read_only: Some(false), superscript: Some("draft".to_string()) };
    assert_ne!(one, fingerprint("# T\n\nbody\n", "T", &other));
}

#[test]
fn calculate_sha_uses_the_settings_of_the_page() {
    let config = PageConfig {
        file_path: "a.md".to_string(),
        page_id: "1".to_string(),
        override_title: None,
        labels: None,
        read_only: Some(true),
        superscript_header: Some("s".to_string()),
    };
    assert_eq!(config.calculate_sha("src", "T"), hash_str("srcTtrues"));
}

#[test]
fn hex_encode_agrees_with_the_hex_crate() {
    let every_byte: Vec<u8> = (0u8..=255).collect();
    assert_eq!(hex_encode(&every_byte), hex::encode(&every_byte));
    assert_eq!(hex_encode(&[]), "");
    assert_eq!(hex_encode(&[0x0f, 0xa0, 0xff]), "0fa0ff");
    assert_eq!(hex_char(0), '0');
    assert_eq!(hex_char(9), '9');
    assert_eq!(hex_char(10), 'a');
    assert_eq!(hex_char(15), 'f');
}
