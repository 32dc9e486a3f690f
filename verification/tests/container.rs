use archrypt::container::extract_nonce;
use archrypt::container::Container;
use archrypt::error::ErrorKind;

fn sample() -> Container {
    Container {
        nonce: vec![1, 2, 3, 4, 5, 6, 7, 8, 9, 10, 11, 12],
        wrapped_key: vec![0xAA, 0xBB, 0xCC],
        ciphertext: vec![0x10, 0x20, 0x30, 0x40],
    }
}

#[test]
fn serialize_lays_out_the_fields_in_order() {
    let bytes = sample().serialize().unwrap();
    assert_eq!(
        bytes,
        vec![
            1, 2, 3, 4, 5, 6, 7, 8, 9, 10, 11, 12, 0x00, 0x03, 0xAA, 0xBB, 0xCC, 0x10, 0x20,
            0x30, 0x40
        ]
    );
}

#[test]
fn length_field_is_big_endian() {
    let container = Container {
        nonce: vec![0; 12],
        wrapped_key: vec![7; 258],
        ciphertext: vec![],
    };
    let bytes = container.serialize().unwrap();
    assert_eq!(bytes.len(), 14 + 258);
    assert_eq!(bytes[12], 0x01);
    assert_eq!(bytes[13], 0x02);
}

#[test]
fn parse_recovers_the_fields() {
    let bytes = vec![
        1, 2, 3, 4, 5, 6, 7, 8, 9, 10, 11, 12, 0x00, 0x03, 0xAA, 0xBB, 0xCC, 0x10, 0x20, 0x30,
        0x40,
    ];
    let container = Container::parse(&bytes).unwrap();
    assert_eq!(container.nonce, vec![1, 2, 3, 4, 5, 6, 7, 8, 9, 10, 11, 12]);
    assert_eq!(container.wrapped_key, vec![0xAA, 0xBB, 0xCC]);
    assert_eq!(container.ciphertext, vec![0x10, 0x20, 0x30, 0x40]);
}

#[test]
fn parse_inverts_serialize() {
    let container = Container {
        nonce: (0u8..12).collect(),
        wrapped_key: (0..300).map(|i| (i % 251) as u8).collect(),
        ciphertext: (0..1000).map(|i| (i % 13) as u8).collect(),
    };
    let bytes = container.serialize().unwrap();
    let parsed = Container::parse(&bytes).unwrap();
    assert_eq!(parsed.nonce, container.nonce);
    assert_eq!(parsed.wrapped_key, container.wrapped_key);
    assert_eq!(parsed.ciphertext, container.ciphertext);
    assert_eq!(parsed.serialize().unwrap(), bytes);
}

#[test]
fn empty_wrapped_key_and_ciphertext_are_allowed() {
    let container = Container { nonce: vec![9; 12], wrapped_key: vec![], ciphertext: vec![] };
    let bytes = container.serialize().unwrap();
    assert_eq!(bytes.len(), 14);
    let parsed = Container::parse(&bytes).unwrap();
    assert!(parsed.wrapped_key.is_empty());
    assert!(parsed.ciphertext.is_empty());
}

#[test]
fn parse_rejects_fewer_than_fourteen_bytes() {
    for len in 0..14 {
        let bytes = vec![0u8; len];
        assert_eq!(Container::parse(&bytes).unwrap_err(), ErrorKind::MalformedContainer);
    }
    assert!(Container::parse(&[0u8; 14]).is_ok());
}

#[test]
fn parse_rejects_a_length_field_past_the_end() {
    let mut bytes = vec![0u8; 14];
    bytes[13] = 1;
    assert_eq!(Container::parse(&bytes).unwrap_err(), ErrorKind::MalformedContainer);
    bytes.push(0x55);
    let parsed = Container::parse(&bytes).unwrap();
    assert_eq!(parsed.wrapped_key, vec![0x55]);
    assert!(parsed.ciphertext.is_empty());
    bytes[12] = 0xFF;
    bytes[13] = 0xFF;
    assert_eq!(Container::parse(&bytes).unwrap_err(), ErrorKind::MalformedContainer);
}

#[test]
fn truncating_a_container_into_its_wrapped_key_is_rejected() {
    let bytes = sample().serialize().unwrap();
    for keep in 0..17 {
        assert_eq!(
            Container::parse(&bytes[..keep]).unwrap_err(),
            ErrorKind::MalformedContainer
        );
    }
    assert!(Container::parse(&bytes[..17]).is_ok());
}

#[test]
fn serialize_rejects_a_nonce_of_the_wrong_length() {
    let short = Container { nonce: vec![0; 11], wrapped_key: vec![], ciphertext: vec![] };
    assert_eq!(short.serialize().unwrap_err(), ErrorKind::MalformedContainer);
    let long = Container { nonce: vec![0; 13], wrapped_key: vec![], ciphertext: vec![] };
    assert_eq!(long.serialize().unwrap_err(), ErrorKind::MalformedContainer);
}

#[test]
fn serialize_rejects_a_wrapped_key_beyond_the_length_field() {
    let fits = Container { nonce: vec![0; 12], wrapped_key: vec![1; 65535], ciphertext: vec![] };
    let bytes = fits.serialize().unwrap();
    assert_eq!((bytes[12], bytes[13]), (0xFF, 0xFF));
    let too_long =
        Container { nonce: vec![0; 12], wrapped_key: vec![1; 65536], ciphertext: vec![] };
    assert_eq!(too_long.serialize().unwrap_err(), ErrorKind::MalformedContainer);
}

#[test]
fn extract_nonce_takes_the_first_twelve_bytes() {
    let data: Vec<u8> = (100u8..120).collect();
    assert_eq!(extract_nonce(&data).unwrap(), (100u8..112).collect::<Vec<u8>>());
    assert_eq!(extract_nonce(&data[..11]).unwrap_err(), ErrorKind::MalformedContainer);
    assert_eq!(extract_nonce(&data[..12]).unwrap().len(), 12);
}

#[test]
fn every_error_has_its_own_message() {
    let all = [
        ErrorKind::InvalidExtension,
        ErrorKind::InvalidTarget,
        ErrorKind::MalformedContainer,
        ErrorKind::KeyParseError,
        ErrorKind::KeyUnwrapError,
        ErrorKind::AuthenticationFailed,
        ErrorKind::KeyTooSmall,
        ErrorKind::InvalidArchive,
        ErrorKind::ArchiveTooLarge,
        ErrorKind::InvalidIndex,
    ];
    for (i, a) in all.iter().enumerate() {
        assert!(!a.message().is_empty());
        for b in all.iter().skip(i + 1) {
            assert_ne!(a.message(), b.message());
        }
    }
    assert_eq!(ErrorKind::MalformedContainer.message(), "malformed container");
    assert_eq!(ErrorKind::InvalidExtension.message(), "path extension is not \".acrp\"");
}
