use dojo_introspect::error::DecodeError;
use dojo_introspect::felt::Felt;
use dojo_introspect::types::contract::{
    is_legacy_from_reply, schema_entrypoint_selector, schema_from_replies,
    use_legacy_storage_entrypoint_selector, CallFailure, DojoSchemaFetcherError, SchemaError,
};
use dojo_introspect::typedef::TypeDef;
use starknet::providers::ProviderError;
use starknet_types_core::felt::Felt as StarkFelt;

fn from_stark(x: StarkFelt) -> Felt {
    let b = x.to_bytes_be();
    let high = u128::from_be_bytes(b[..16].try_into().unwrap());
    let low = u128::from_be_bytes(b[16..].try_into().unwrap());
    Felt::from_parts(high, low).unwrap()
}

fn ss(s: &str) -> Felt {
    from_stark(starknet::core::utils::cairo_short_string_to_felt(s).unwrap())
}

fn n(v: u128) -> Felt {
    Felt::from_u128(v)
}

fn schema_felts() -> Vec<Felt> {
    vec![
        ss("M"), n(0), n(1),
        ss("dir"), n(0),
        n(2), ss("Dir"), n(0), n(1), ss("Left"), n(3), n(0),
    ]
}

fn first_selector(r: Result<dojo_introspect::dojo_serde::DojoSchema, SchemaError>) -> Felt {
    let s = r.unwrap();
    match &s.columns[0].type_def {
        TypeDef::Enum(e) => e.variants[0].0,
        other => panic!("unexpected {:?}", other),
    }
}

#[test]
fn entry_point_selectors() {
    assert_eq!(schema_entrypoint_selector(), from_stark(starknet::core::utils::get_selector_from_name("schema").unwrap()));
    assert_eq!(
        use_legacy_storage_entrypoint_selector(),
        from_stark(starknet::core::utils::get_selector_from_name("use_legacy_storage").unwrap())
    );
}

#[test]
fn legacy_storage_from_the_reply() {
    assert!(is_legacy_from_reply(Ok(vec![n(1)])).unwrap());
    assert!(!is_legacy_from_reply(Ok(vec![n(0)])).unwrap());
    assert!(!is_legacy_from_reply(Ok(vec![n(2)])).unwrap());
    assert!(is_legacy_from_reply(Err(CallFailure::EntrypointNotFound)).unwrap());
    assert!(matches!(
        is_legacy_from_reply(Ok(vec![])),
        Err(DojoSchemaFetcherError::InvalidLegacyResponse)
    ));
    assert!(matches!(
        is_legacy_from_reply(Ok(vec![n(1), n(1)])),
        Err(DojoSchemaFetcherError::InvalidLegacyResponse)
    ));
    assert!(matches!(
        is_legacy_from_reply(Err(CallFailure::Provider(ProviderError::RateLimited))),
        Err(DojoSchemaFetcherError::ProviderError(ProviderError::RateLimited))
    ));
}

#[test]
fn schema_in_the_layout_of_the_storage() {
    assert_eq!(first_selector(schema_from_replies(Ok(schema_felts()), Ok(vec![n(0)]))), n(1));
    assert_eq!(first_selector(schema_from_replies(Ok(schema_felts()), Ok(vec![n(1)]))), n(0));
    assert_eq!(
        first_selector(schema_from_replies(Ok(schema_felts()), Err(CallFailure::EntrypointNotFound))),
        n(0)
    );
}

#[test]
fn schema_failures_in_order() {
    let r = schema_from_replies(Err(ProviderError::RateLimited), Ok(vec![]));
    assert!(matches!(r, Err(SchemaError::Fetcher(DojoSchemaFetcherError::InvalidLegacyResponse))));
    let r = schema_from_replies(
        Ok(schema_felts()),
        Err(CallFailure::Provider(ProviderError::StarknetError(starknet::core::types::StarknetError::ContractNotFound))),
    );
    assert!(matches!(r, Err(SchemaError::Fetcher(DojoSchemaFetcherError::ProviderError(_)))));
    let r = schema_from_replies(Err(ProviderError::RateLimited), Ok(vec![n(1)]));
    assert!(matches!(
        r,
        Err(SchemaError::Fetcher(DojoSchemaFetcherError::ProviderError(ProviderError::RateLimited)))
    ));
    let r = schema_from_replies(Ok(vec![ss("M")]), Ok(vec![n(1)]));
    assert!(matches!(r, Err(SchemaError::Decode(DecodeError::Eof))));
}
