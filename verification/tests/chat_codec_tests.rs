use std::io::Read;
use std::io::Write;

use base64::engine::general_purpose;
use base64::Engine;
use flate2::read::GzDecoder;

use rusty_lib::chat_codec::{decode_chat_text, encode_chat_text, get_str_from_binary_string, CodecError};

#[test]
fn it_works() {
    let text = "Binary(0x2, H4sIAAAAAAAA/0tMTUkrSwUAABkbnwYAAAA=)";
    let compressed_data = general_purpose::STANDARD
        .decode(get_str_from_binary_string(text).unwrap())
        .map_err(|e| format!("{}", e))
        .unwrap();

    let mut decoder = GzDecoder::new(&compressed_data[..]);
    let mut decompressed_data = vec![];
    decoder.read_to_end(&mut decompressed_data).unwrap();

    let decompressed_text = String::from_utf8(decompressed_data).unwrap();
    assert_eq!(decompressed_text, "aedfve");
}

#[test]
fn known_vector_decodes() {
    let text = "Binary(0x2, H4sIAAAAAAAA/0tMTUkrSwUAABkbnwYAAAA=)";
    assert_eq!(decode_chat_text(text).unwrap(), "aedfve");
}

#[test]
fn round_trip_plain() {
    let s = "How are you doing?";
    assert_eq!(decode_chat_text(&encode_chat_text(s)).unwrap(), s);
}

#[test]
fn round_trip_empty() {
    assert_eq!(decode_chat_text(&encode_chat_text("")).unwrap(), "");
}

#[test]
fn round_trip_multibyte() {
    let s = "caf\u{e9} \u{1F600} \u{4F60}\u{597D}";
    assert_eq!(decode_chat_text(&encode_chat_text(s)).unwrap(), s);
}

#[test]
fn format_rejection() {
    assert_eq!(decode_chat_text("not an envelope"), Err(CodecError::FormatError));
}

#[test]
fn format_rejection_bare_prefix() {
    assert_eq!(decode_chat_text("Binary(0x2, "), Err(CodecError::FormatError));
}

#[test]
fn base64_rejection() {
    assert_eq!(decode_chat_text("Binary(0x2, !!!)"), Err(CodecError::Base64Error));
}

#[test]
fn decompress_rejection() {
    let payload = general_purpose::STANDARD.encode(b"not gzip at all");
    let envelope = format!("Binary(0x2, {})", payload);
    assert_eq!(decode_chat_text(&envelope), Err(CodecError::DecompressError));
}

#[test]
fn encoding_rejection() {
    let mut gz = flate2::write::GzEncoder::new(Vec::new(), flate2::Compression::default());
    gz.write_all(&[0xff, 0xfe, 0x80]).unwrap();
    let bad_utf8_gz = gz.finish().unwrap();
    let payload = general_purpose::STANDARD.encode(&bad_utf8_gz);
    let envelope = format!("Binary(0x2, {})", payload);
    assert_eq!(decode_chat_text(&envelope), Err(CodecError::EncodingError));
}

#[test]
fn envelope_shape() {
    let e = encode_chat_text("hi");
    assert!(e.starts_with("Binary(0x2, "));
    assert!(e.ends_with(')'));
    let payload = get_str_from_binary_string(&e).unwrap();
    assert_eq!(format!("Binary(0x2, {})", payload), e);
}

#[test]
fn strip_rejects_missing_prefix() {
    assert!(get_str_from_binary_string("Binary(0x1, AAAA)").is_err());
}
