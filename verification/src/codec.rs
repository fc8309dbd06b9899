//! Pluggable serialization codec traits.
//!
//! Every workflow carries a codec that serializes task inputs/outputs to bytes
//! and back. Codecs are implemented by users of the library.
use crate::error::BoxError;
use crate::snapshot_format::CodecId;
use std::sync::Arc;
use vstd::prelude::*;

verus! {

/// Which way a loop goes after an iteration.
#[derive(Debug, Clone, Copy, PartialEq, Eq, Structural)]
pub enum LoopDecision {
    /// Run the body again.
    Again,
    /// Leave the loop.
    Done,
}

/// Encoding of values of one type.
pub trait EncodeValue<T> {
    /// Encode the value into bytes.
    fn encode_value(&self, value: &T) -> Result<Vec<u8>, BoxError>;
}

/// Decoding of values of one type.
pub trait DecodeValue<T> {
    /// Decode a value from bytes.
    fn decode_value(&self, bytes: &[u8]) -> Result<T, BoxError>;
}

/// An encoder that can serialize a value into a byte stream.
pub trait Encoder {
    /// Encode a value into bytes, as the codec encodes values of the type.
    fn encode<T>(&self, value: &T) -> (r: Result<Vec<u8>, BoxError>) where
        Self: EncodeValue<T> + Sized,

        ensures
            call_ensures(<Self as EncodeValue<T>>::encode_value, (self, value), r),
    {
        self.encode_value(value)
    }
}

/// A decoder that can deserialize a value from a byte stream.
pub trait Decoder {
    /// Decode a value from bytes, as the codec decodes values of the type.
    fn decode<T>(&self, bytes: &[u8]) -> (r: Result<T, BoxError>) where
        Self: DecodeValue<T> + Sized,

        ensures
            call_ensures(<Self as DecodeValue<T>>::decode_value, (self, bytes), r),
    {
        self.decode_value(bytes)
    }
}

/// A codec that can serialize and deserialize a value.
pub trait Codec: Encoder + Decoder {

}

impl<U: Encoder + Decoder> Codec for U {

}

/// A codec that names itself in the header of what it wrote.
pub trait CodecIdentity {
    /// The identity of the codec.
    fn codec_id(&self) -> CodecId;
}

/// Byte-level operations that the executor calls without knowing task types.
pub trait EnvelopeCodec {
    /// Decode a routing key from bytes produced by a branch key function.
    fn decode_string(&self, bytes: &[u8]) -> Result<String, BoxError>;

    /// Encode a branch envelope containing the routing key and result bytes.
    fn encode_branch_envelope(&self, key: &str, result_bytes: &[u8]) -> Result<Vec<u8>, BoxError>;

    /// Serialize named branch results for a fork/join.
    fn encode_named_results(&self, results: &Vec<(String, Vec<u8>)>) -> Result<Vec<u8>, BoxError>;
}

impl<C: EncodeValue<T>, T> EncodeValue<T> for Arc<C> {
    fn encode_value(&self, value: &T) -> (r: Result<Vec<u8>, BoxError>)
        ensures
            call_ensures(C::encode_value, (&**self, value), r),
    {
        (**self).encode_value(value)
    }
}

impl<C: DecodeValue<T>, T> DecodeValue<T> for Arc<C> {
    fn decode_value(&self, bytes: &[u8]) -> (r: Result<T, BoxError>)
        ensures
            call_ensures(C::decode_value, (&**self, bytes), r),
    {
        (**self).decode_value(bytes)
    }
}

impl<C: Encoder> Encoder for Arc<C> {

}

impl<C: Decoder> Decoder for Arc<C> {

}

impl<C: EnvelopeCodec> EnvelopeCodec for &C {
    fn decode_string(&self, bytes: &[u8]) -> (r: Result<String, BoxError>)
        ensures
            call_ensures(C::decode_string, (*self, bytes), r),
    {
        (**self).decode_string(bytes)
    }

    fn encode_branch_envelope(&self, key: &str, result_bytes: &[u8]) -> (r: Result<
        Vec<u8>,
        BoxError,
    >)
        ensures
            call_ensures(C::encode_branch_envelope, (*self, key, result_bytes), r),
    {
        (**self).encode_branch_envelope(key, result_bytes)
    }

    fn encode_named_results(&self, results: &Vec<(String, Vec<u8>)>) -> (r: Result<
        Vec<u8>,
        BoxError,
    >)
        ensures
            call_ensures(C::encode_named_results, (*self, results), r),
    {
        (**self).encode_named_results(results)
    }
}

impl<C: EnvelopeCodec> EnvelopeCodec for Arc<C> {
    fn decode_string(&self, bytes: &[u8]) -> (r: Result<String, BoxError>)
        ensures
            call_ensures(C::decode_string, (&**self, bytes), r),
    {
        (**self).decode_string(bytes)
    }

    fn encode_branch_envelope(&self, key: &str, result_bytes: &[u8]) -> (r: Result<
        Vec<u8>,
        BoxError,
    >)
        ensures
            call_ensures(C::encode_branch_envelope, (&**self, key, result_bytes), r),
    {
        (**self).encode_branch_envelope(key, result_bytes)
    }

    fn encode_named_results(&self, results: &Vec<(String, Vec<u8>)>) -> (r: Result<
        Vec<u8>,
        BoxError,
    >)
        ensures
            call_ensures(C::encode_named_results, (&**self, results), r),
    {
        (**self).encode_named_results(results)
    }
}

/// The JSON codec of the snapshot stores.
#[derive(Debug, Clone, Default)]
pub struct JsonCodec;

impl Encoder for JsonCodec {

}

impl Decoder for JsonCodec {

}

impl CodecIdentity for JsonCodec {
    fn codec_id(&self) -> (r: CodecId)
        ensures
            r == CodecId::Json,
    {
        CodecId::Json
    }
}

} // verus!
