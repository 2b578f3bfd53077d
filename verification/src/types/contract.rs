//! What the schema of a model contract is, given the replies of its two
//! entry points. The calls themselves are made by the caller.
use vstd::prelude::*;
use starknet::providers::ProviderError;
use crate::dojo_serde::{deserialize_schema, read_schema, DojoSchema, DojoSerde};
use crate::error::DecodeError;
use crate::felt::Felt;
use crate::outside::{entry_point_selector, selector_from_name};

verus! {

/// Why the schema of a model contract could not be fetched.
#[derive(Debug)]
pub enum DojoSchemaFetcherError {
    ProviderError(ProviderError),
    InvalidLegacyResponse,
    InvalidSchema,
}

/// How a call to a contract's entry point failed.
#[derive(Debug)]
pub enum CallFailure {
    /// The contract has no such entry point.
    EntrypointNotFound,
    /// Any other failure of the provider.
    Provider(ProviderError),
}

/// Why a schema could not be had: the calls, or the decoding of the reply.
#[derive(Debug)]
pub enum SchemaError {
    Fetcher(DojoSchemaFetcherError),
    Decode(DecodeError),
}

/// The selector of the `schema` entry point.
pub fn schema_entrypoint_selector() -> (f: Felt)
    ensures
        f@ == entry_point_selector("schema"@),
{
    proof {
        reveal_strlit("schema");
    }
    match selector_from_name("schema") {
        Some(f) => f,
        None => Felt::zero(),
    }
}

/// The selector of the `use_legacy_storage` entry point.
pub fn use_legacy_storage_entrypoint_selector() -> (f: Felt)
    ensures
        f@ == entry_point_selector("use_legacy_storage"@),
{
    proof {
        reveal_strlit("use_legacy_storage");
    }
    match selector_from_name("use_legacy_storage") {
        Some(f) => f,
        None => Felt::zero(),
    }
}

/// Whether a model contract uses the legacy storage, from the reply of its
/// `use_legacy_storage` entry point. A contract without that entry point was
/// deployed before the entry point existed, and so uses the legacy storage;
/// a reply of one felt says it by being one; any other reply is refused.
pub fn is_legacy_from_reply(reply: Result<Vec<Felt>, CallFailure>) -> (r: Result<bool, DojoSchemaFetcherError>)
    ensures
        match reply {
            Ok(felts) => if felts@.len() == 1 {
                r == Ok::<bool, DojoSchemaFetcherError>(felts@[0]@ == 1)
            } else {
                r matches Err(DojoSchemaFetcherError::InvalidLegacyResponse)
            },
            Err(CallFailure::EntrypointNotFound) => r == Ok::<bool, DojoSchemaFetcherError>(true),
            Err(CallFailure::Provider(e)) => r == Err::<bool, DojoSchemaFetcherError>(
                DojoSchemaFetcherError::ProviderError(e),
            ),
        },
{
    match reply {
        Ok(felts) => {
            if felts.len() == 1 {
                Ok(felts[0].is_one())
            } else {
                Err(DojoSchemaFetcherError::InvalidLegacyResponse)
            }
        },
        Err(CallFailure::EntrypointNotFound) => Ok(true),
        Err(CallFailure::Provider(e)) => Err(DojoSchemaFetcherError::ProviderError(e)),
    }
}

/// The schema of a model contract from the replies of its `schema` and
/// `use_legacy_storage` entry points: a failure of the second comes first,
/// then one of the first; otherwise the schema is read from the reply, in the
/// legacy layout when the contract uses the legacy storage.
pub fn schema_from_replies(
    schema_reply: Result<Vec<Felt>, ProviderError>,
    legacy_reply: Result<Vec<Felt>, CallFailure>,
) -> (r: Result<DojoSchema, SchemaError>)
    ensures
        match legacy_reply {
            Ok(felts) if felts@.len() != 1 => r matches Err(
                SchemaError::Fetcher(DojoSchemaFetcherError::InvalidLegacyResponse),
            ),
            Err(CallFailure::Provider(e)) => r == Err::<DojoSchema, SchemaError>(
                SchemaError::Fetcher(DojoSchemaFetcherError::ProviderError(e)),
            ),
            _ => {
                let legacy = match legacy_reply {
                    Ok(felts) => felts@[0]@ == 1,
                    Err(_) => true,
                };
                match schema_reply {
                    Err(e) => r == Err::<DojoSchema, SchemaError>(
                        SchemaError::Fetcher(DojoSchemaFetcherError::ProviderError(e)),
                    ),
                    Ok(felts) => match read_schema(felts@, legacy).0 {
                        Ok(s) => r matches Ok(t) && t.view() == s,
                        Err(e) => r == Err::<DojoSchema, SchemaError>(SchemaError::Decode(e)),
                    },
                }
            },
        },
{
    let legacy = match is_legacy_from_reply(legacy_reply) {
        Ok(b) => b,
        Err(e) => return Err(SchemaError::Fetcher(e)),
    };
    let felts = match schema_reply {
        Ok(felts) => felts,
        Err(e) => return Err(SchemaError::Fetcher(DojoSchemaFetcherError::ProviderError(e))),
    };
    let mut ds = DojoSerde::new_from_source(felts, legacy);
    match deserialize_schema(&mut ds) {
        Ok(s) => Ok(s),
        Err(e) => Err(SchemaError::Decode(e)),
    }
}

} // verus!
