//! Errors of the introspection library.
use vstd::prelude::*;
use starknet::providers::ProviderError;
use crate::felt::Felt;

verus! {

/// The error a Starknet provider returns.
#[verifier::external_type_specification]
#[verifier::external_body]
pub struct ExProviderError(ProviderError);

/// The enums whose selectors are read while decoding.
#[derive(Debug, Clone, Copy, PartialEq, Eq, Structural)]
pub enum SelectorContext {
    /// The kind of a Dojo primitive type.
    DojoPrimitive,
    /// The kind of a Dojo type definition.
    DojoTypeDef,
}

/// Failures that are only described in words.
#[derive(Debug, Clone, Copy, PartialEq, Eq, Structural)]
pub enum DecodeMessage {
    /// An array or fixed array definition did not start with a one-element span.
    ExpectedSingletonSpan,
    /// A column name is not ASCII, so it has no selector.
    NonAsciiName,
}

/// Why decoding felts failed.
#[derive(Debug, Clone, Copy, PartialEq, Eq, Structural)]
pub enum DecodeError {
    /// The felts ran out.
    Eof,
    /// A felt did not fit the integer type it was read as.
    ValueOutOfRange(Felt),
    /// A felt is not a Cairo short string.
    InvalidShortString(Felt),
    /// The felts of a byte array are malformed or not UTF-8.
    InvalidByteArray,
    /// A selector names no variant of the enum of this context.
    InvalidEnumSelector(SelectorContext, Felt),
    /// Any other failure.
    Message(DecodeMessage),
}

/// The result of a decoding step.
pub type DecodeResult<T> = Result<T, DecodeError>;

/// Errors of the Dojo introspection calls.
#[derive(Debug)]
pub enum DojoIntrospectError {
    ProviderError(ProviderError),
    InvalidLegacyResponse,
    InvalidSchema,
    DecoderError(DecodeError),
    /// A tag is not of the form `namespace-name`; holds the tag.
    InvalidTagFormat(String),
}

/// The result of a Dojo introspection call.
pub type DojoIntrospectResult<T> = Result<T, DojoIntrospectError>;

/// Errors of reading a Dojo type definition.
#[derive(Debug)]
pub enum DojoSerdeError {
    Decode(DecodeError),
}

/// The result of reading a Dojo type definition.
pub type DojoSerdeResult<T> = Result<T, DojoSerdeError>;

} // verus!
