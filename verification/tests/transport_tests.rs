use shutterproto::transport::{
    build_shutterheader, decode_frame, encode_frame, parse_shutterheader, CryptoParam,
    NaClSecretBox, Shutterheader, Version, PREFIX_SIZE,
};
use shutterproto::Error;

#[test]
fn frame_has_magic_length_and_body() {
    let f = encode_frame(b"ab");
    assert_eq!(f, vec![0x53, 0x48, 0x54, 0x52, 2, 0, 0, 0, b'a', b'b']);
}

#[test]
fn frame_length_is_little_endian() {
    let body = vec![7u8; 0x0102];
    let f = encode_frame(&body);
    assert_eq!(&f[4..8], &[0x02, 0x01, 0, 0]);
    assert_eq!(f.len(), 0x0102 + PREFIX_SIZE);
}

#[test]
fn frame_roundtrip_with_trailing_bytes() {
    let mut f = encode_frame(&[1, 2, 3]);
    f.extend_from_slice(&[9, 9]);
    assert_eq!(decode_frame(&f), Ok((vec![1, 2, 3], 11)));
}

#[test]
fn frame_roundtrip_empty_body() {
    let f = encode_frame(&[]);
    assert_eq!(decode_frame(&f), Ok((vec![], 8)));
}

#[test]
fn frame_too_short_for_prefix() {
    assert_eq!(decode_frame(&[0x53, 0x48, 0x54, 0x52, 0, 0, 0]), Err(Error::HeaderSize));
    assert_eq!(decode_frame(&[]), Err(Error::HeaderSize));
}

#[test]
fn frame_with_wrong_magic() {
    assert_eq!(decode_frame(&[0x53, 0x48, 0x54, 0x53, 0, 0, 0, 0]), Err(Error::BadMagic));
}

#[test]
fn frame_with_short_body() {
    assert_eq!(decode_frame(&[0x53, 0x48, 0x54, 0x52, 3, 0, 0, 0, 1, 2]), Err(Error::PayloadSize));
    assert_eq!(decode_frame(&[0x53, 0x48, 0x54, 0x52, 0, 0, 0, 1]), Err(Error::PayloadSize));
}

#[test]
fn header_of_session_zero_is_plain() {
    let h = build_shutterheader(0, &[4, 5]);
    assert_eq!(
        h,
        Shutterheader { version: Version::Initial, crypt: CryptoParam::Plain, payload: Some(vec![4, 5]) }
    );
    assert_eq!(parse_shutterheader(&h), Ok(&[4u8, 5][..]));
}

#[test]
fn header_of_other_session_names_it() {
    let h = build_shutterheader(7, &[1]);
    assert_eq!(
        h.crypt,
        CryptoParam::NaClSecretBox(NaClSecretBox { session: 7, nonce: None, mac: None })
    );
    assert_eq!(parse_shutterheader(&h), Ok(&[1u8][..]));
}

#[test]
fn header_with_unknown_version() {
    let h = Shutterheader { version: Version::Other(3), crypt: CryptoParam::Plain, payload: None };
    assert_eq!(parse_shutterheader(&h), Err(Error::UnknownVersion));
}

#[test]
fn header_without_payload() {
    let h = Shutterheader { version: Version::Initial, crypt: CryptoParam::Other(9), payload: None };
    assert_eq!(parse_shutterheader(&h), Err(Error::CommandMissing));
}

#[test]
fn header_with_unknown_crypto() {
    let h = Shutterheader { version: Version::Initial, crypt: CryptoParam::NONE, payload: Some(vec![1]) };
    assert_eq!(parse_shutterheader(&h), Err(Error::UnknownCrypto));
    let h = Shutterheader { version: Version::Initial, crypt: CryptoParam::Other(4), payload: Some(vec![]) };
    assert_eq!(parse_shutterheader(&h), Err(Error::UnknownCrypto));
}

#[test]
fn error_descriptions() {
    assert_eq!(Error::HeaderSize.description(), "Message too short to contain protocol header");
    assert_eq!(Error::BadMagic.description(), "Message does not start with magic number");
    assert_eq!(Error::UnknownCrypto.description(), "Unknown crypto mechanism");
}
