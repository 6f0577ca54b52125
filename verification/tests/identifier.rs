use pallet_stream::{
    create_identifier, is_valid_identifier, IdentifierError, STREAM_IDENTIFIER_LENGTH,
    STREAM_IDENTIFIER_PREFIX,
};

#[test]
fn identifier_is_prefix_then_content_in_hex() {
    assert_eq!(create_identifier(&[0xde, 0xad, 0xbe, 0xef], 0x1234), b"1234deadbeef".to_vec());
    assert_eq!(create_identifier(&[0x00, 0x0f, 0xf0, 0xff], 43), b"002b000ff0ff".to_vec());
}

#[test]
fn identifier_of_nothing_is_the_prefix() {
    assert_eq!(create_identifier(&[], 0), b"0000".to_vec());
    assert_eq!(create_identifier(&[], 0xffff), b"ffff".to_vec());
    assert_eq!(create_identifier(&[], STREAM_IDENTIFIER_PREFIX), b"002b".to_vec());
}

#[test]
fn identifier_of_a_hash_has_sixty_eight_characters() {
    let identifier = create_identifier(&[0x5a; 32], STREAM_IDENTIFIER_PREFIX);
    assert_eq!(identifier.len(), 68);
    assert_eq!(identifier.len(), STREAM_IDENTIFIER_LENGTH);
    assert_eq!(&identifier[..4], b"002b");
    assert!(identifier[4..].chunks(2).all(|pair| pair == b"5a"));
}

#[test]
fn identifier_is_the_same_for_the_same_input() {
    let first = create_identifier(&[7u8; 32], 43);
    let second = create_identifier(&[7u8; 32], 43);
    assert_eq!(first, second);
}

#[test]
fn identifiers_differ_with_content_and_with_prefix() {
    let base = create_identifier(&[7u8; 32], 43);
    let mut other = [7u8; 32];
    other[31] = 8;
    assert_ne!(base, create_identifier(&other, 43));
    assert_ne!(base, create_identifier(&[7u8; 32], 44));
    assert_ne!(create_identifier(&[1, 2], 43), create_identifier(&[1, 2, 0], 43));
}

#[test]
fn derived_identifier_is_valid_in_its_namespace() {
    let identifier = create_identifier(&[0xc3; 32], STREAM_IDENTIFIER_PREFIX);
    assert_eq!(is_valid_identifier(&identifier, STREAM_IDENTIFIER_PREFIX), Ok(()));
    assert_eq!(is_valid_identifier(b"002b", 43), Ok(()));
    assert_eq!(is_valid_identifier(b"1234deadbeef", 0x1234), Ok(()));
}

#[test]
fn short_or_odd_text_has_invalid_length() {
    assert_eq!(is_valid_identifier(b"", 43), Err(IdentifierError::InvalidLength));
    assert_eq!(is_valid_identifier(b"002", 43), Err(IdentifierError::InvalidLength));
    assert_eq!(is_valid_identifier(b"002b0", 43), Err(IdentifierError::InvalidLength));
    assert_eq!(is_valid_identifier(b"zz", 43), Err(IdentifierError::InvalidLength));
}

#[test]
fn text_with_other_characters_has_invalid_format() {
    assert_eq!(is_valid_identifier(b"002g", 43), Err(IdentifierError::InvalidFormat));
    assert_eq!(is_valid_identifier(b"002B", 43), Err(IdentifierError::InvalidFormat));
    assert_eq!(is_valid_identifier(b"002b00 0", 43), Err(IdentifierError::InvalidFormat));
    assert_eq!(is_valid_identifier(b"002bDEAD", 43), Err(IdentifierError::InvalidFormat));
    assert_eq!(is_valid_identifier(b"xyzw", 43), Err(IdentifierError::InvalidFormat));
}

#[test]
fn text_of_another_namespace_has_invalid_prefix() {
    let foreign = create_identifier(&[0xc3; 32], 44);
    assert_eq!(is_valid_identifier(&foreign, 43), Err(IdentifierError::InvalidPrefix));
    assert_eq!(is_valid_identifier(b"002c", 43), Err(IdentifierError::InvalidPrefix));
    assert_eq!(is_valid_identifier(b"2b00", 43), Err(IdentifierError::InvalidPrefix));
    assert_eq!(is_valid_identifier(&foreign, 44), Ok(()));
}

#[test]
fn format_is_checked_before_prefix() {
    assert_eq!(is_valid_identifier(b"002czz", 43), Err(IdentifierError::InvalidFormat));
}
