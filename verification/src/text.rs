//! The built-in formats, raw bytes and UTF-8 text, and the conversions between them.
use std::string::FromUtf8Error;
use vstd::prelude::*;
use vstd::utf8::decode_utf8;
use vstd::utf8::encode_utf8;
use vstd::utf8::valid_utf8;

use crate::transcoder::Data;
use crate::transcoder::DataFormatMeta;
use crate::transcoder::TranscoderError;
use crate::transcoder::TranscoderResult;

verus! {

broadcast use {
    vstd::utf8::encode_utf8_decode_utf8,
    vstd::utf8::encode_utf8_valid_utf8,
    vstd::utf8::decode_utf8_encode_utf8,
};

#[verifier::external_type_specification]
#[verifier::external_body]
pub struct ExFromUtf8Error(FromUtf8Error);

/// The bytes that a decoding error holds (`FromUtf8Error::as_bytes`).
pub uninterp spec fn utf8_error_bytes(e: FromUtf8Error) -> Seq<u8>;

/// std's description of why these bytes are not valid UTF-8: what the `Display` of a
/// `FromUtf8Error` holding them writes.
pub uninterp spec fn utf8_error_text(bytes: Seq<u8>) -> Seq<char>;

/// Calls `String::from_utf8`. As std documents, it succeeds exactly when the bytes are valid
/// UTF-8, and the string then holds the characters those bytes encode; otherwise the error holds
/// the bytes of the attempt (`FromUtf8Error::as_bytes`).
#[verifier::external_body]
fn string_from_utf8(bytes: Vec<u8>) -> (r: Result<String, FromUtf8Error>)
    ensures
        r is Ok <==> valid_utf8(bytes@),
        r matches Ok(s) ==> s@ == decode_utf8(bytes@),
        r matches Err(e) ==> utf8_error_bytes(e) == bytes@,
{
    String::from_utf8(bytes)
}

/// Calls `ToString::to_string` on a decoding error. Its `Display` writes where in its bytes the
/// decoding stopped and why, which `String::from_utf8` worked out from those bytes alone; so the
/// text is a function of the bytes the error holds.
#[verifier::external_body]
fn describe_utf8_error(e: &FromUtf8Error) -> (r: String)
    ensures
        r@ == utf8_error_text(utf8_error_bytes(*e)),
{
    e.to_string()
}

/// Raw bytes.
#[derive(Default, Debug)]
pub struct RawData(pub Vec<u8>);

impl Data for RawData {
    fn data_format_meta() -> (r: &'static DataFormatMeta)
        ensures
            r.name@ == "raw"@,
            r.description@ == "raw bytes"@,
    {
        proof {
            reveal_strlit("raw");
            reveal_strlit("raw bytes");
        }
        &DataFormatMeta { name: "raw", description: "raw bytes" }
    }
}

/// UTF-8 encoded text.
#[derive(Default, Debug)]
pub struct TextData(pub String);

impl Data for TextData {
    fn data_format_meta() -> (r: &'static DataFormatMeta)
        ensures
            r.name@ == "text"@,
            r.description@ == "utf8 encoded string"@,
    {
        proof {
            reveal_strlit("text");
            reveal_strlit("utf8 encoded string");
        }
        &DataFormatMeta { name: "text", description: "utf8 encoded string" }
    }
}

/// The UTF-8 encoding of a text.
fn utf8_bytes(text: &String) -> (r: Vec<u8>)
    ensures
        r@ == encode_utf8(text@),
{
    vstd::slice::slice_to_vec(text.as_str().as_bytes())
}

/// Decodes raw bytes as UTF-8 text. Fails with `Other`, carrying std's description of the
/// decoding error, exactly when the bytes are not valid UTF-8.
pub fn raw_to_text(input: RawData) -> (r: TranscoderResult<TextData>)
    ensures
        r is Ok <==> valid_utf8(input.0@),
        r matches Ok(text) ==> text.0@ == decode_utf8(input.0@),
        r matches Err(e) ==> e matches TranscoderError::Other(message) && message@
            == utf8_error_text(input.0@),
{
    match string_from_utf8(input.0) {
        Ok(data) => Ok(TextData(data)),
        Err(e) => Err(TranscoderError::Other(describe_utf8_error(&e))),
    }
}

/// Encodes text as its UTF-8 bytes; never fails.
pub fn text_to_raw(input: TextData) -> (r: TranscoderResult<RawData>)
    ensures
        r matches Ok(raw) && raw.0@ == encode_utf8(input.0@),
{
    Ok(RawData(utf8_bytes(&input.0)))
}

/// The same conversion as [`text_to_raw`], written as a plain function.
pub fn function_transcoder(input: TextData) -> (r: TranscoderResult<RawData>)
    ensures
        r matches Ok(raw) && raw.0@ == encode_utf8(input.0@),
{
    let data = utf8_bytes(&input.0);
    Ok(RawData(data))
}

/// Encoding text and decoding the bytes gives back the text.
pub proof fn lemma_text_round_trip(text: Seq<char>)
    ensures
        valid_utf8(encode_utf8(text)),
        decode_utf8(encode_utf8(text)) == text,
{
}

/// Decoding valid UTF-8 bytes and encoding the text gives back the bytes.
pub proof fn lemma_bytes_round_trip(bytes: Seq<u8>)
    requires
        valid_utf8(bytes),
    ensures
        encode_utf8(decode_utf8(bytes)) == bytes,
{
}

} // verus!
