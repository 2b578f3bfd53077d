use cainome_cairo_serde::{ByteArray, CairoSerde};
use dojo_introspect::error::DojoIntrospectError;
use dojo_introspect::felt::Felt;
use dojo_introspect::selector::{
    compute_bytearray_hash, compute_selector_from_dojo_tag, compute_selector_from_namespace_and_name,
    split_tag, TAG_SEPARATOR,
};
use dojo_introspect::utils::selector as tooling;
use starknet_types_core::felt::Felt as StarkFelt;
use num_traits::ToPrimitive;

fn from_stark(x: StarkFelt) -> Felt {
    let b = x.to_bytes_be();
    let high = u128::from_be_bytes(b[..16].try_into().unwrap());
    let low = u128::from_be_bytes(b[16..].try_into().unwrap());
    Felt::from_parts(high, low).unwrap()
}

fn expected_bytearray_hash(s: &str) -> Felt {
    let ba = ByteArray::from_string(s).unwrap();
    from_stark(starknet_crypto::poseidon_hash_many(&ByteArray::cairo_serialize(&ba)))
}

fn expected_selector(namespace: &str, name: &str) -> Felt {
    let a = ByteArray::from_string(namespace).unwrap();
    let b = ByteArray::from_string(name).unwrap();
    let ha = starknet_crypto::poseidon_hash_many(&ByteArray::cairo_serialize(&a));
    let hb = starknet_crypto::poseidon_hash_many(&ByteArray::cairo_serialize(&b));
    from_stark(starknet_crypto::poseidon_hash_many(&[ha, hb]))
}

#[test]
fn felt_integer_conversions_at_their_bounds() {
    assert_eq!(Felt::from_u128(255).to_u8(), Some(255u8));
    assert_eq!(Felt::from_u128(256).to_u8(), None);
    assert_eq!(Felt::from_u128(65535).to_u16(), Some(65535u16));
    assert_eq!(Felt::from_u128(65536).to_u16(), None);
    assert_eq!(Felt::from_u128(u32::MAX as u128).to_u32(), Some(u32::MAX));
    assert_eq!(Felt::from_u128(u32::MAX as u128 + 1).to_u32(), None);
    assert_eq!(Felt::from_u128(u64::MAX as u128).to_u64(), Some(u64::MAX));
    assert_eq!(Felt::from_u128(u64::MAX as u128 + 1).to_u64(), None);
    assert_eq!(Felt::from_u128(u128::MAX).to_u128(), Some(u128::MAX));
    assert_eq!(Felt::from_limbs(1, 0).to_u128(), None);
    assert_eq!(Felt::from_u128(127).to_i8(), Some(127i8));
    assert_eq!(Felt::from_u128(128).to_i8(), None);
    assert_eq!(Felt::from_u128(i16::MAX as u128).to_i16(), Some(i16::MAX));
    assert_eq!(Felt::from_u128(i32::MAX as u128 + 1).to_i32(), None);
    assert_eq!(Felt::from_u128(i64::MAX as u128).to_i64(), Some(i64::MAX));
    assert_eq!(Felt::from_u128(i128::MAX as u128).to_i128(), Some(i128::MAX));
    assert_eq!(Felt::from_u128(i128::MAX as u128 + 1).to_i128(), None);
    assert_eq!(Felt::from_u128(7).to_usize(), Some(7usize));
}

#[test]
fn felt_conversions_agree_with_num_traits() {
    for v in [0u128, 1, 127, 128, 255, 256, 65535, 70000, u64::MAX as u128, u128::MAX] {
        let ours = Felt::from_u128(v);
        let theirs = StarkFelt::from(v);
        assert_eq!(ours.to_u8(), theirs.to_u8());
        assert_eq!(ours.to_u16(), theirs.to_u16());
        assert_eq!(ours.to_u32(), theirs.to_u32());
        assert_eq!(ours.to_u64(), theirs.to_u64());
        assert_eq!(ours.to_u128(), theirs.to_u128());
        assert_eq!(ours.to_i8(), theirs.to_i8());
        assert_eq!(ours.to_i16(), theirs.to_i16());
        assert_eq!(ours.to_i32(), theirs.to_i32());
        assert_eq!(ours.to_i64(), theirs.to_i64());
        assert_eq!(ours.to_i128(), theirs.to_i128());
    }
}

#[test]
fn felt_parts_refuse_values_from_the_prime_on() {
    let prime_high: u128 = 0x0800_0000_0000_0011_0000_0000_0000_0000;
    assert!(Felt::from_parts(prime_high, 0).is_some());
    assert!(Felt::from_parts(prime_high, 1).is_none());
    assert!(Felt::from_parts(u128::MAX, 0).is_none());
    let f = Felt::from_parts(3, 4).unwrap();
    assert_eq!((f.high(), f.low()), (3, 4));
    assert!(Felt::zero().is_zero());
    assert!(Felt::one().is_one());
    assert!(!Felt::one().is_zero());
}

#[test]
fn felt_fits_31_bytes_at_the_bound() {
    assert!(Felt::from_limbs(0x00ff_ffff_ffff_ffff_ffff_ffff_ffff_ffff, u128::MAX).fits_31_bytes());
    assert!(!Felt::from_limbs(0x0100_0000_0000_0000_0000_0000_0000_0000, 0).fits_31_bytes());
}

#[test]
fn split_tag_splits_on_the_only_separator() {
    assert_eq!(TAG_SEPARATOR, '-');
    let (ns, name) = split_tag("dojo_starter-Position").unwrap();
    assert_eq!((ns, name), ("dojo_starter", "Position"));
    let (ns, name) = split_tag("-").unwrap();
    assert_eq!((ns, name), ("", ""));
}

#[test]
fn split_tag_refuses_other_tags() {
    for tag in ["Position", "a-b-c", ""] {
        match split_tag(tag) {
            Err(DojoIntrospectError::InvalidTagFormat(t)) => assert_eq!(t, tag),
            other => panic!("unexpected {:?}", other),
        }
    }
}

#[test]
fn bytearray_hash_matches_poseidon_of_the_serialization() {
    for s in ["", "dojo", "a text that is longer than thirty-one bytes in all"] {
        assert_eq!(compute_bytearray_hash(s), expected_bytearray_hash(s));
    }
}

#[test]
fn selector_of_namespace_and_name() {
    assert_eq!(
        compute_selector_from_namespace_and_name("dojo_starter", "Moves"),
        expected_selector("dojo_starter", "Moves")
    );
    assert_ne!(
        compute_selector_from_namespace_and_name("dojo_starter", "Moves"),
        compute_selector_from_namespace_and_name("Moves", "dojo_starter")
    );
}

#[test]
fn selector_of_a_tag_is_that_of_its_parts() {
    let f = compute_selector_from_dojo_tag("ns-Model").unwrap();
    assert_eq!(f, compute_selector_from_namespace_and_name("ns", "Model"));
    assert_eq!(f, expected_selector("ns", "Model"));
    match compute_selector_from_dojo_tag("nodash") {
        Err(DojoIntrospectError::InvalidTagFormat(t)) => assert_eq!(t, "nodash"),
        other => panic!("unexpected {:?}", other),
    }
}

#[test]
fn tooling_selectors_agree_with_the_library() {
    assert_eq!(tooling::TAG_SEPARATOR, '-');
    assert_eq!(tooling::compute_bytearray_hash("abc"), compute_bytearray_hash("abc"));
    assert_eq!(
        tooling::compute_selector_from_dojo_tag("ns-Model"),
        compute_selector_from_namespace_and_name("ns", "Model")
    );
    assert_eq!(
        tooling::compute_selector_from_namespace_and_name("a", "b"),
        expected_selector("a", "b")
    );
    let (ns, name) = tooling::split_tag("ns-Model").unwrap();
    assert_eq!((ns.as_str(), name.as_str()), ("ns", "Model"));
    assert_eq!(tooling::split_tag("a-b-c"), Err(tooling::UnexpectedTag));
}

#[test]
fn a_split_tag_glues_back() {
    for tag in ["ns-Model", "-x", "a-", "dojo_starter-Position"] {
        let (ns, name) = split_tag(tag).unwrap();
        assert_eq!(format!("{}-{}", ns, name), tag);
        assert!(!ns.contains('-') && !name.contains('-'));
    }
}
