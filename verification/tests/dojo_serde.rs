use dojo_introspect::dojo_serde::{
    deserialize_column_def, deserialize_schema, deserialize_type_def, dojo_deserialize_primitive,
    CairoDeserialize, DojoSchema, DojoSerde,
};
use dojo_introspect::error::{DecodeError, DecodeMessage, SelectorContext};
use dojo_introspect::felt::Felt;
use dojo_introspect::typedef::{ColumnDef, EnumDef, PrimaryTypeDef, TypeDef};
use starknet_types_core::felt::Felt as StarkFelt;

fn from_stark(x: StarkFelt) -> Felt {
    let b = x.to_bytes_be();
    let high = u128::from_be_bytes(b[..16].try_into().unwrap());
    let low = u128::from_be_bytes(b[16..].try_into().unwrap());
    Felt::from_parts(high, low).unwrap()
}

fn ss(s: &str) -> Felt {
    from_stark(starknet::core::utils::cairo_short_string_to_felt(s).unwrap())
}

fn n(v: u128) -> Felt {
    Felt::from_u128(v)
}

/// An enum `Dir { Left: (), Right: () }` as the world serializes it.
fn dir_enum() -> Vec<Felt> {
    vec![n(2), ss("Dir"), n(0), n(2), ss("Left"), n(3), n(0), ss("Right"), n(3), n(0)]
}

fn selectors(e: &EnumDef) -> Vec<u128> {
    e.variants.iter().map(|(s, _)| s.to_u128().unwrap()).collect()
}

#[test]
fn primitive_kinds_are_read_by_their_short_string() {
    assert!(matches!(dojo_deserialize_primitive(ss("u8")), Ok(TypeDef::U8)));
    assert!(matches!(dojo_deserialize_primitive(ss("bool")), Ok(TypeDef::Bool)));
    assert!(matches!(dojo_deserialize_primitive(ss("u256")), Ok(TypeDef::U256)));
    assert!(matches!(dojo_deserialize_primitive(ss("i128")), Ok(TypeDef::I128)));
    assert!(matches!(dojo_deserialize_primitive(ss("felt252")), Ok(TypeDef::Felt252)));
    assert!(matches!(dojo_deserialize_primitive(ss("ClassHash")), Ok(TypeDef::ClassHash)));
    assert!(matches!(
        dojo_deserialize_primitive(ss("starknet::ContractAddress")),
        Ok(TypeDef::ContractAddress)
    ));
    assert!(matches!(dojo_deserialize_primitive(ss("starknet::EthAddress")), Ok(TypeDef::EthAddress)));
}

#[test]
fn unknown_primitive_kind_is_an_invalid_selector() {
    let kind = ss("u512");
    assert_eq!(
        dojo_deserialize_primitive(kind).unwrap_err(),
        DecodeError::InvalidEnumSelector(SelectorContext::DojoPrimitive, kind)
    );
}

#[test]
fn type_def_of_each_kind() {
    let felts = vec![n(0), ss("u32")];
    let mut ds = DojoSerde::from_slice(&felts, false);
    assert!(matches!(deserialize_type_def(&mut ds), Ok(TypeDef::U32)));
    assert_eq!(ds.position(), 2);

    let felts = vec![n(5)];
    assert!(matches!(deserialize_type_def(&mut DojoSerde::from_slice(&felts, false)), Ok(TypeDef::Utf8String)));

    let felts = vec![n(3), n(0)];
    assert!(matches!(deserialize_type_def(&mut DojoSerde::from_slice(&felts, false)), Ok(TypeDef::Unit)));

    let felts = vec![n(3), n(2), n(0), ss("u8"), n(5)];
    match deserialize_type_def(&mut DojoSerde::from_slice(&felts, false)) {
        Ok(TypeDef::Tuple(t)) => {
            assert_eq!(t.elements.len(), 2);
            assert!(matches!(t.elements[0], TypeDef::U8));
            assert!(matches!(t.elements[1], TypeDef::Utf8String));
        }
        other => panic!("unexpected {:?}", other),
    }

    let felts = vec![n(4), n(1), n(0), ss("u16")];
    match deserialize_type_def(&mut DojoSerde::from_slice(&felts, false)) {
        Ok(TypeDef::Array(a)) => assert!(matches!(*a.type_def, TypeDef::U16)),
        other => panic!("unexpected {:?}", other),
    }

    let felts = vec![n(6), n(1), n(0), ss("felt252"), n(4)];
    match deserialize_type_def(&mut DojoSerde::from_slice(&felts, false)) {
        Ok(TypeDef::FixedArray(a)) => {
            assert!(matches!(*a.type_def, TypeDef::Felt252));
            assert_eq!(a.size, 4);
        }
        other => panic!("unexpected {:?}", other),
    }

    let felts = vec![n(1), ss("Vec2"), n(1), ss("key"), n(2), ss("x"), n(0), n(0), ss("u32"), ss("y"), n(0), n(0), ss("u32")];
    match deserialize_type_def(&mut DojoSerde::from_slice(&felts, false)) {
        Ok(TypeDef::Struct(s)) => {
            assert_eq!(s.name, "Vec2");
            assert_eq!(s.attributes.len(), 1);
            assert_eq!(s.attributes[0].name, "key");
            assert!(s.attributes[0].data.is_empty());
            let names: Vec<&str> = s.members.iter().map(|m| m.name.as_str()).collect();
            assert_eq!(names, vec!["x", "y"]);
            assert!(matches!(s.members[1].type_def, TypeDef::U32));
        }
        other => panic!("unexpected {:?}", other),
    }
}

#[test]
fn enum_variants_start_at_one_outside_the_legacy_layout() {
    let felts = dir_enum();
    match deserialize_type_def(&mut DojoSerde::from_slice(&felts, false)) {
        Ok(TypeDef::Enum(e)) => {
            assert_eq!(e.name, "Dir");
            assert_eq!(selectors(&e), vec![1, 2]);
            assert_eq!(e.variants[0].1.name, "Left");
            assert!(e.variants[0].1.attributes.is_empty());
            assert!(matches!(e.variants[1].1.type_def, TypeDef::Unit));
        }
        other => panic!("unexpected {:?}", other),
    }
}

#[test]
fn enum_variants_start_at_zero_in_the_legacy_layout() {
    let felts = dir_enum();
    match <TypeDef as CairoDeserialize>::deserialize(&mut DojoSerde::from_slice(&felts, true)) {
        Ok(TypeDef::Enum(e)) => assert_eq!(selectors(&e), vec![0, 1]),
        other => panic!("unexpected {:?}", other),
    }
}

fn column(name: &str, attrs: &[&str], ty: Vec<Felt>) -> Vec<Felt> {
    let mut v = vec![ss(name), n(attrs.len() as u128)];
    v.extend(attrs.iter().map(|a| ss(a)));
    v.extend(ty);
    v
}

#[test]
fn key_columns_keep_the_legacy_layout() {
    let felts = column("dir", &["key"], dir_enum());
    let mut ds = DojoSerde::from_slice(&felts, false);
    let c: ColumnDef = deserialize_column_def(&mut ds).unwrap();
    assert!(!ds.is_legacy_mode());
    assert_eq!(c.name, "dir");
    assert_eq!(c.id, from_stark(starknet::core::utils::get_selector_from_name("dir").unwrap()));
    match &c.type_def {
        TypeDef::Enum(e) => assert_eq!(selectors(e), vec![0, 1]),
        other => panic!("unexpected {:?}", other),
    }
}

#[test]
fn value_columns_follow_the_model_layout() {
    let felts = column("dir", &[], dir_enum());
    let c = <ColumnDef as CairoDeserialize>::deserialize(&mut DojoSerde::from_slice(&felts, false)).unwrap();
    match &c.type_def {
        TypeDef::Enum(e) => assert_eq!(selectors(e), vec![1, 2]),
        other => panic!("unexpected {:?}", other),
    }
    let c = deserialize_column_def(&mut DojoSerde::from_slice(&felts, true)).unwrap();
    match &c.type_def {
        TypeDef::Enum(e) => assert_eq!(selectors(e), vec![0, 1]),
        other => panic!("unexpected {:?}", other),
    }
}

fn moves_schema() -> Vec<Felt> {
    let mut v = vec![ss("Moves"), n(0), n(2)];
    v.extend(column("player", &["key"], vec![n(0), ss("ContractAddress")]));
    v.extend(column("remaining", &[], vec![n(0), ss("u8")]));
    v
}

#[test]
fn schema_and_its_table() {
    let felts = moves_schema();
    let mut ds = DojoSerde::from_slice(&felts, false);
    let schema: DojoSchema = deserialize_schema(&mut ds).unwrap();
    assert_eq!(ds.position(), felts.len());
    assert_eq!(schema.name, "Moves");
    assert_eq!(schema.columns.len(), 2);
    assert_eq!(schema.columns[0].attributes[0].name, "key");
    assert!(matches!(schema.columns[1].type_def, TypeDef::U8));

    let table = schema.to_table_schema("dojo_starter", "Moves");
    assert_eq!(table.name, "dojo_starter-Moves");
    assert_eq!(
        table.id,
        dojo_introspect::selector::compute_selector_from_namespace_and_name("dojo_starter", "Moves")
    );
    assert_eq!(table.primary.name, "entity_id");
    assert!(table.primary.attributes.is_empty());
    assert_eq!(table.primary.type_def, PrimaryTypeDef::Felt252);
    assert_eq!(table.columns.len(), 2);
    assert_eq!(table.columns[1].name, "remaining");
}

#[test]
fn decode_errors() {
    let empty: Vec<Felt> = vec![];
    assert_eq!(deserialize_type_def(&mut DojoSerde::from_slice(&empty, false)).unwrap_err(), DecodeError::Eof);

    let big = Felt::from_u128(u32::MAX as u128 + 1);
    assert_eq!(
        deserialize_type_def(&mut DojoSerde::from_slice(&[big], false)).unwrap_err(),
        DecodeError::ValueOutOfRange(big)
    );

    assert_eq!(
        deserialize_type_def(&mut DojoSerde::from_slice(&[n(7)], false)).unwrap_err(),
        DecodeError::InvalidEnumSelector(SelectorContext::DojoTypeDef, n(7))
    );

    let felts = vec![n(4), n(2), n(0), ss("u8")];
    assert_eq!(
        deserialize_type_def(&mut DojoSerde::from_slice(&felts, false)).unwrap_err(),
        DecodeError::Message(DecodeMessage::ExpectedSingletonSpan)
    );

    // A zero byte after the first nonzero one is no short string.
    let bad = n(0x610062);
    let felts = vec![n(1), bad, n(0), n(0)];
    assert_eq!(
        deserialize_type_def(&mut DojoSerde::from_slice(&felts, false)).unwrap_err(),
        DecodeError::InvalidShortString(bad)
    );

    // A column name with a byte above 0x7f is not ASCII.
    let felts = vec![n(0xe9), n(0), n(5)];
    assert_eq!(
        deserialize_column_def(&mut DojoSerde::from_slice(&felts, false)).unwrap_err(),
        DecodeError::Message(DecodeMessage::NonAsciiName)
    );
}

#[test]
fn reader_basics() {
    let felts = vec![n(7), ss("abc"), n(2), n(10), n(11)];
    let mut ds = DojoSerde::from_slice(&felts, true);
    assert!(ds.is_legacy_mode());
    assert_eq!(ds.next_u32().unwrap(), 7);
    assert_eq!(ds.next_short_string().unwrap(), "abc");
    assert_eq!(ds.next_array().unwrap(), vec![n(10), n(11)]);
    assert_eq!(ds.next().unwrap_err(), DecodeError::Eof);
    ds.set_legacy(false);
    assert!(!ds.is_legacy_mode());
}

#[test]
fn strings_are_read_as_byte_arrays() {
    // "hello" as a byte array: no full word, pending word 'hello' of 5 bytes.
    let felts = vec![n(0), ss("hello"), n(5), n(9)];
    let mut ds = DojoSerde::new_from_source(felts, false);
    assert_eq!(ds.next_string().unwrap(), "hello");
    assert_eq!(ds.next().unwrap(), n(9));
    // Only the last bytes of the pending word, as many as its length, count.
    let felts = vec![n(0), ss("hello"), n(2)];
    let mut ds = DojoSerde::new_from_source(felts, false);
    assert_eq!(ds.next_string().unwrap(), "lo");
    // Bytes that are not UTF-8 are refused, and nothing is read.
    let felts = vec![n(0), n(0xff), n(1)];
    let mut ds = DojoSerde::new_from_source(felts, false);
    assert_eq!(ds.next_string().unwrap_err(), DecodeError::InvalidByteArray);
    assert_eq!(ds.position(), 0);
}

#[test]
fn table_name_is_a_tag_of_the_table_selector() {
    let felts = moves_schema();
    let schema = deserialize_schema(&mut DojoSerde::from_slice(&felts, false)).unwrap();
    let table = schema.to_table_schema("dojo_starter", "Moves");
    let (ns, name) = dojo_introspect::selector::split_tag(&table.name).unwrap();
    assert_eq!((ns, name), ("dojo_starter", "Moves"));
    assert_eq!(dojo_introspect::selector::compute_selector_from_dojo_tag(&table.name).unwrap(), table.id);
}
