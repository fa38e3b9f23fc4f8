use noted_core::brain::parse_note;
use noted_core::digest::sha256_hex;
use noted_core::models::{decode_bounded, decode_exact, IdentityHandle, SignArgs};

#[test]
fn sha256_hex_is_the_known_digest() {
    let hex: String = sha256_hex(b"abc").into_iter().collect();
    assert_eq!(
        hex,
        "ba7816bf8f01cfea414140de5dae2223b00361a396177a9cb410ff61f20015ad"
    );
}

#[test]
fn base64_fields_decode_to_their_bytes_and_check_their_length() {
    assert_eq!(decode_exact("AQID", 3, "f").unwrap(), vec![1, 2, 3]);
    assert!(decode_exact("AQID", 4, "f").is_err());
    assert!(decode_exact("not base64!", 3, "f").is_err());
    assert_eq!(decode_bounded("AQI=", 8, "f").unwrap(), vec![1, 2]);
    assert!(decode_bounded("AQID", 2, "f").is_err());
}

#[test]
fn signing_requests_carry_base64_messages() {
    let handle = IdentityHandle::parse("018f47a0-7b80-7000-8000-000000000001".to_owned()).unwrap();
    let args = SignArgs::new(&handle, &[1, 2, 3]).unwrap();
    assert_eq!(args.message_base64, "AQID");
    assert_eq!(args.handle, "018f47a0-7b80-7000-8000-000000000001");
}

#[test]
fn slugs_without_a_title_are_humanized_with_capitals() {
    let note = parse_note("personal", "people/brian-cho.md", "no frontmatter here");
    assert_eq!(note.display_name, "Brian Cho");
}
