//! Compression codec for stored message bodies.
//!
//! A message body is kept at rest as a textual envelope: a fixed literal
//! prefix, the base64 encoding of the gzip-compressed UTF-8 bytes of the
//! text, and a closing parenthesis as terminator.

use vstd::prelude::*;
use vstd::string::*;
use vstd::utf8::*;

verus! {

/// Error kinds of the codec; every failure of `decode_chat_text` is one of
/// these, and each is recoverable by the caller.
#[derive(Clone, Copy, Debug, PartialEq, Eq, Structural)]
pub enum CodecError {
    /// The input does not carry the expected envelope prefix and terminator.
    FormatError,
    /// The embedded text is not valid base64.
    Base64Error,
    /// The decoded bytes are not a valid compression block.
    DecompressError,
    /// The decompressed bytes are not valid UTF-8.
    EncodingError,
}

pub uninterp spec fn gzip_of(data: Seq<u8>) -> Seq<u8>;

pub uninterp spec fn gunzip_of(data: Seq<u8>) -> Option<Seq<u8>>;

pub uninterp spec fn b64_of(data: Seq<u8>) -> Seq<char>;

pub uninterp spec fn b64_decode_of(text: Seq<char>) -> Option<Seq<u8>>;

/// Relies on flate2's `write::GzEncoder` at the default level: the stream it
/// produces depends on the input bytes alone (the header is written with
/// mtime 0 and a fixed operating-system byte), and decompressing that stream
/// yields the input bytes back.
#[verifier::external_body]
fn gzip_compress(data: &[u8]) -> (r: Vec<u8>)
    ensures
        r@ == gzip_of(data@),
        gunzip_of(r@) == Some(data@),
{
    let mut gz = flate2::write::GzEncoder::new(Vec::new(), flate2::Compression::default());
    std::io::Write::write_all(&mut gz, data).expect("writing to an in-memory encoder");
    gz.finish().expect("finishing an in-memory encoder")
}

/// Relies on flate2's `read::GzDecoder`: whether the bytes form a valid gzip
/// stream, and what they decompress to, depend on the bytes alone.
#[verifier::external_body]
fn gzip_decompress(data: &[u8]) -> (r: Result<Vec<u8>, ()>)
    ensures
        (r is Ok) == (gunzip_of(data@) is Some),
        r matches Ok(v) ==> gunzip_of(data@) == Some(v@),
{
    let mut decoder = flate2::read::GzDecoder::new(data);
    let mut out = Vec::new();
    match std::io::Read::read_to_end(&mut decoder, &mut out) {
        Ok(_) => Ok(out),
        Err(_) => Err(()),
    }
}

/// Relies on base64's `STANDARD` engine: what `encode` returns depends on the
/// input bytes alone, and `decode` inverts it.
#[verifier::external_body]
fn b64_encode(data: &[u8]) -> (r: String)
    ensures
        r@ == b64_of(data@),
        b64_decode_of(r@) == Some(data@),
{
    base64::Engine::encode(&base64::engine::general_purpose::STANDARD, data)
}

/// Relies on base64's `STANDARD` engine: whether a text is valid base64, and
/// which bytes it denotes, depend on the text alone.
#[verifier::external_body]
fn b64_decode(text: &str) -> (r: Result<Vec<u8>, ()>)
    ensures
        (r is Ok) == (b64_decode_of(text@) is Some),
        r matches Ok(v) ==> b64_decode_of(text@) == Some(v@),
{
    match base64::Engine::decode(&base64::engine::general_purpose::STANDARD, text) {
        Ok(v) => Ok(v),
        Err(_) => Err(()),
    }
}

/// Relies on `String::from_utf8`: it succeeds exactly on valid UTF-8 input
/// and returns the decoded characters.
#[verifier::external_body]
fn utf8_to_string(bytes: Vec<u8>) -> (r: Result<String, ()>)
    ensures
        (r is Ok) == valid_utf8(bytes@),
        r matches Ok(s) ==> s@ == decode_utf8(bytes@),
{
    match String::from_utf8(bytes) {
        Ok(s) => Ok(s),
        Err(_) => Err(()),
    }
}

/// The fixed prefix every stored envelope begins with.
pub open spec fn envelope_prefix() -> Seq<char> {
    "Binary(0x2, "@
}

/// A well-formed envelope: long enough to carry prefix, payload and
/// terminator, and beginning with the exact prefix.
pub open spec fn wf_envelope(e: Seq<char>) -> bool {
    e.len() >= 13 && e.subrange(0, 12) == envelope_prefix()
}

/// The base64 payload between the prefix and the terminator.
pub open spec fn envelope_payload(e: Seq<char>) -> Seq<char> {
    e.subrange(12, e.len() - 1)
}

/// What `encode_chat_text` returns for a given text.
pub open spec fn encode_spec(text: Seq<char>) -> Seq<char> {
    envelope_prefix() + b64_of(gzip_of(encode_utf8(text))) + ")"@
}

/// What `decode_chat_text` returns for a given envelope: the stages are
/// checked in order, and the first that fails names the error.
pub open spec fn decode_spec(e: Seq<char>) -> Result<Seq<char>, CodecError> {
    if !wf_envelope(e) {
        Err(CodecError::FormatError)
    } else {
        match b64_decode_of(envelope_payload(e)) {
            None => Err(CodecError::Base64Error),
            Some(z) => match gunzip_of(z) {
                None => Err(CodecError::DecompressError),
                Some(bytes) => if !valid_utf8(bytes) {
                    Err(CodecError::EncodingError)
                } else {
                    Ok(decode_utf8(bytes))
                },
            },
        }
    }
}

/// Strip the envelope prefix and terminator, returning the base64 payload.
pub fn get_str_from_binary_string(binary_string: &str) -> (r: Result<String, &'static str>)
    ensures
        r matches Ok(p) ==> wf_envelope(binary_string@) && p@ == envelope_payload(binary_string@),
        r is Err ==> !wf_envelope(binary_string@),
{
    let n = binary_string.unicode_len();
    proof {
        reveal_strlit("Binary(0x2, ");
    }
    if n < 13 {
        return Err("Input string is not a valid binary string");
    }
    let binary_prefix = "Binary(0x2, ";
    let mut i: usize = 0;
    while i < 12
        invariant
            0 <= i <= 12,
            n == binary_string@.len(),
            n >= 13,
            binary_prefix@ == envelope_prefix(),
            binary_prefix@.len() == 12,
            forall|j: int| 0 <= j < i ==> binary_string@[j] == envelope_prefix()[j],
        decreases 12 - i,
    {
        if binary_string.get_char(i) != binary_prefix.get_char(i) {
            return Err("Input string is not a valid binary string");
        }
        i += 1;
    }
    proof {
        assert(binary_string@.subrange(0, 12) =~= envelope_prefix());
    }
    let payload = binary_string.substring_char(12, n - 1);
    Ok(payload.to_owned())
}

/// Encode a message body for storage: gzip the UTF-8 bytes, base64 them, and
/// wrap the result in the envelope. Never fails, and the envelope always
/// decodes back to the input text.
pub fn encode_chat_text(text: &str) -> (r: String)
    ensures
        r@ == encode_spec(text@),
        decode_spec(r@) == Ok::<Seq<char>, CodecError>(text@),
{
    broadcast use vstd::utf8::encode_utf8_valid_utf8, vstd::utf8::encode_utf8_decode_utf8;

    let compressed = gzip_compress(text.as_bytes());
    let b64 = b64_encode(compressed.as_slice());
    let mut out = String::from_str("Binary(0x2, ");
    out.append(b64.as_str());
    out.append(")");
    proof {
        reveal_strlit("Binary(0x2, ");
        reveal_strlit(")");
        assert(out@ =~= encode_spec(text@));
        assert(out@.subrange(0, 12) =~= envelope_prefix());
        assert(envelope_payload(out@) =~= b64@);
    }
    out
}

/// Decode a stored envelope back to the plain message body, naming which
/// stage failed otherwise.
pub fn decode_chat_text(envelope: &str) -> (r: Result<String, CodecError>)
    ensures
        r matches Ok(s) ==> decode_spec(envelope@) == Ok::<Seq<char>, CodecError>(s@),
        r matches Err(e) ==> decode_spec(envelope@) == Err::<Seq<char>, CodecError>(e),
{
    let payload = match get_str_from_binary_string(envelope) {
        Ok(p) => p,
        Err(_) => {
            return Err(CodecError::FormatError);
        },
    };
    let compressed = match b64_decode(payload.as_str()) {
        Ok(z) => z,
        Err(_) => {
            return Err(CodecError::Base64Error);
        },
    };
    let bytes = match gzip_decompress(compressed.as_slice()) {
        Ok(b) => b,
        Err(_) => {
            return Err(CodecError::DecompressError);
        },
    };
    match utf8_to_string(bytes) {
        Ok(s) => Ok(s),
        Err(_) => Err(CodecError::EncodingError),
    }
}

} // verus!
