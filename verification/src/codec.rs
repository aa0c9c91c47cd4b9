//! Body codecs: encoding and decoding of structured document values.
//!
//! Request and response bodies pass through here as `serde_json::Value`
//! documents; the codec (JSON or the compact binary MessagePack format) is
//! chosen per call.

use vstd::prelude::*;

use crate::Error;
use crate::SerializeFormat;

verus! {

#[verifier::external_type_specification]
#[verifier::external_body]
pub struct ExValue(serde_json::Value);

/// Whether `bytes` are exactly one well-formed JSON document.
/// This is a property of the bytes alone; it is given meaning by the
/// contracts of the decoding functions below.
pub uninterp spec fn json_document(bytes: Seq<u8>) -> bool;

/// Whether `bytes` decode as one MessagePack document.
/// This is a property of the bytes alone; it is given meaning by the
/// contracts of the decoding functions below.
pub uninterp spec fn msgpack_document(bytes: Seq<u8>) -> bool;

/// The JSON encoding of a document value. Serialization is a deterministic
/// function of the value alone; the name is given meaning by the contract
/// of the JSON encoding function below.
pub uninterp spec fn json_bytes_of(value: serde_json::Value) -> Seq<u8>;

/// The MessagePack encoding of a document value, deterministic in the
/// value alone; given meaning by the contract of the MessagePack encoding
/// function below.
pub uninterp spec fn msgpack_bytes_of(value: serde_json::Value) -> Seq<u8>;

/// Relies on `serde_json::from_slice::<Value>`: it succeeds exactly when the
/// input is one well-formed JSON document (a deterministic property of the
/// bytes alone, named `json_document`), and empty input never parses, since
/// it holds no document at all.
#[verifier::external_body]
fn json_decode_raw(bytes: &Vec<u8>) -> (r: Result<serde_json::Value, String>)
    ensures
        r is Ok <==> json_document(bytes@),
        bytes@.len() == 0 ==> r is Err,
{
    serde_json::from_slice::<serde_json::Value>(bytes.as_slice()).map_err(|e| e.to_string())
}

/// Relies on `rmp_serde::from_slice::<Value>`: it succeeds exactly when one
/// MessagePack document can be read from the front of the input (a
/// deterministic property of the bytes alone, named `msgpack_document`;
/// unlike the JSON reader it does not reject trailing bytes), and empty
/// input never decodes, since not even a format marker can be read from
/// it.
#[verifier::external_body]
fn msgpack_decode_raw(bytes: &Vec<u8>) -> (r: Result<serde_json::Value, String>)
    ensures
        r is Ok <==> msgpack_document(bytes@),
        bytes@.len() == 0 ==> r is Err,
{
    rmp_serde::from_slice::<serde_json::Value>(bytes.as_slice()).map_err(|e| e.to_string())
}

/// Relies on `serde_json::to_vec`: serializing a `Value` into an in-memory
/// buffer does not fail — object keys are strings, the numbers a `Value`
/// can hold are finite, and writes to a `Vec` cannot fail — and the bytes
/// it returns are a deterministic function of the value alone, named
/// `json_bytes_of`.
#[verifier::external_body]
fn json_encode_raw(value: &serde_json::Value) -> (r: Result<Vec<u8>, String>)
    ensures
        r is Ok,
        r matches Ok(b) ==> b@ == json_bytes_of(*value),
{
    serde_json::to_vec(value).map_err(|e| e.to_string())
}

/// Relies on `rmp_serde::to_vec`: it returns the MessagePack encoding of
/// the value — a deterministic function of the value alone, named
/// `msgpack_bytes_of` — or an error if the value cannot be encoded.
#[verifier::external_body]
fn msgpack_encode_raw(value: &serde_json::Value) -> (r: Result<Vec<u8>, String>)
    ensures
        r matches Ok(b) ==> b@ == msgpack_bytes_of(*value),
{
    rmp_serde::to_vec(value).map_err(|e| e.to_string())
}

/// Decode a response body with the given codec.
///
/// Succeeds exactly when the bytes form one well-formed document of that
/// codec; every failure is a `DecodeFailure` carrying the codec, and its
/// `eof_at_start` flag is set exactly when the body was zero-length.
pub fn decode_value(bytes: &Vec<u8>, format: SerializeFormat) -> (r: Result<
    serde_json::Value,
    Error,
>)
    ensures
        format == SerializeFormat::Json ==> (r is Ok <==> json_document(bytes@)),
        format == SerializeFormat::MsgPack ==> (r is Ok <==> msgpack_document(bytes@)),
        bytes@.len() == 0 ==> r is Err,
        r matches Err(e) ==> e matches Error::DecodeFailure { codec, eof_at_start, .. }
            && codec == format && eof_at_start == (bytes@.len() == 0),
{
    let empty: bool = bytes.len() == 0;
    let raw = match format {
        SerializeFormat::Json => json_decode_raw(bytes),
        SerializeFormat::MsgPack => msgpack_decode_raw(bytes),
    };
    match raw {
        Ok(v) => Ok(v),
        Err(message) => Err(
            Error::DecodeFailure { codec: format, eof_at_start: empty, message },
        ),
    }
}

/// The chosen codec's encoding of a document value.
pub open spec fn spec_encoding(value: serde_json::Value, format: SerializeFormat) -> Seq<u8> {
    match format {
        SerializeFormat::Json => json_bytes_of(value),
        SerializeFormat::MsgPack => msgpack_bytes_of(value),
    }
}

/// Encode a request body with the given codec.
///
/// The bytes returned are exactly the chosen codec's encoding of the
/// value. JSON encoding of a document value always succeeds; every
/// failure is an `EncodeFailure` carrying the codec.
pub fn encode_value(value: &serde_json::Value, format: SerializeFormat) -> (r: Result<
    Vec<u8>,
    Error,
>)
    ensures
        format == SerializeFormat::Json ==> r is Ok,
        r matches Ok(b) ==> b@ == spec_encoding(*value, format),
        r matches Err(e) ==> e matches Error::EncodeFailure { codec, .. } && codec == format,
{
    let raw = match format {
        SerializeFormat::Json => json_encode_raw(value),
        SerializeFormat::MsgPack => msgpack_encode_raw(value),
    };
    match raw {
        Ok(bytes) => Ok(bytes),
        Err(message) => Err(Error::EncodeFailure { codec: format, message }),
    }
}

} // verus!
