use base64::{engine::general_purpose::URL_SAFE_NO_PAD, Engine};
use eve_mumble_bridge::password::{
    compress_password, decompress_password, MAX_COMPRESSED_BYTES, MAX_JWT_BYTES,
};
use flate2::{write::ZlibEncoder, Compression};
use std::io::Write;

const COMPRESSED_PASSWORD_PREFIX: &str = "z";

#[test]
fn compressed_password_round_trips() {
    let jwt = "header.payload.signature".repeat(16);
    let password = compress_password(&jwt).expect("compress jwt");

    assert!(password.starts_with("z"));
    assert!(password.len() < jwt.len());
    assert_eq!(decompress_password(&password).expect("decompress jwt"), jwt);
}

#[test]
fn raw_password_is_accepted() {
    let jwt = "header.payload.signature";

    assert_eq!(decompress_password(jwt).expect("decompress raw jwt"), jwt);
}

#[test]
fn invalid_password_encoding_is_rejected() {
    let result = decompress_password("z:not-base64!!");

    assert!(result.is_err());
}

#[test]
fn decompression_bomb_is_rejected() {
    let jwt = vec![b'A'; MAX_JWT_BYTES + 1024];
    let mut encoder = ZlibEncoder::new(Vec::new(), Compression::best());
    encoder.write_all(&jwt).expect("write jwt");
    let compressed = encoder.finish().expect("compress jwt");

    assert!(compressed.len() <= MAX_COMPRESSED_BYTES);

    let password = format!("{COMPRESSED_PASSWORD_PREFIX}{}", URL_SAFE_NO_PAD.encode(compressed));
    let error = decompress_password(&password).expect_err("oversized decompressed password");
    assert!(error.message().contains("password is too large"));
}

#[test]
fn invalid_password_compression_is_rejected() {
    let result = decompress_password("z:aGVsbG8=");

    assert!(result.is_err());
}

#[test]
fn compressed_password_is_z_and_base64_of_zlib() {
    let jwt = "a.b.c";
    let mut encoder = ZlibEncoder::new(Vec::new(), Compression::best());
    encoder.write_all(jwt.as_bytes()).unwrap();
    let expected = format!("z{}", URL_SAFE_NO_PAD.encode(encoder.finish().unwrap()));
    assert_eq!(compress_password(jwt).unwrap(), expected);
}

#[test]
fn refusals_are_unauthorized_with_their_reason() {
    let e = decompress_password("z!!").unwrap_err();
    assert_eq!(e.status_code(), 401);
    assert!(e.message().starts_with("invalid password encoding: "));

    let not_zlib = format!("z{}", URL_SAFE_NO_PAD.encode(b"hello"));
    let e = decompress_password(&not_zlib).unwrap_err();
    assert!(e.message().starts_with("invalid password compression: "));

    let big = format!("z{}", URL_SAFE_NO_PAD.encode(vec![7u8; MAX_COMPRESSED_BYTES + 1]));
    assert_eq!(decompress_password(&big).unwrap_err().message(), "password is too large");

    let mut encoder = ZlibEncoder::new(Vec::new(), Compression::best());
    encoder.write_all(&[0xff, 0xfe]).unwrap();
    let bad_utf8 = format!("z{}", URL_SAFE_NO_PAD.encode(encoder.finish().unwrap()));
    let e = decompress_password(&bad_utf8).unwrap_err();
    assert!(e.message().starts_with("invalid password contents: "));
}

#[test]
fn token_at_the_size_limit_round_trips_and_one_past_it_does_not() {
    let at_limit = "x".repeat(MAX_JWT_BYTES);
    let p = compress_password(&at_limit).unwrap();
    assert_eq!(decompress_password(&p).unwrap(), at_limit);

    let past = "x".repeat(MAX_JWT_BYTES + 1);
    let p = compress_password(&past).unwrap();
    assert_eq!(decompress_password(&p).unwrap_err().message(), "password is too large");
}

#[test]
fn empty_and_unicode_tokens_round_trip() {
    for jwt in ["", "z", "ünïcødé.tøkén.✓"] {
        let p = compress_password(jwt).unwrap();
        assert_eq!(decompress_password(&p).unwrap(), jwt);
    }
}
