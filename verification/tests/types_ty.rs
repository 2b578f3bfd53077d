use std::collections::VecDeque;
use dojo_introspect::felt::Felt;
use dojo_introspect::types::parsed::{Parse, Parsed, U256};
use dojo_introspect::types::ty::{
    deserialize_primitive, deserialize_ty, parse_ty, DojoEnum, DojoMember, DojoPrimitive, DojoStruct,
    DojoTy, DojoTySerde, DojoVariant,
};
use starknet_types_core::felt::Felt as StarkFelt;

fn from_stark(x: StarkFelt) -> Felt {
    let b = x.to_bytes_be();
    let high = u128::from_be_bytes(b[..16].try_into().unwrap());
    let low = u128::from_be_bytes(b[16..].try_into().unwrap());
    Felt::from_parts(high, low).unwrap()
}

fn ss(s: &str) -> Felt {
    from_stark(starknet::core::utils::cairo_short_string_to_felt(s).unwrap())
}

fn n(v: u128) -> Felt {
    Felt::from_u128(v)
}

fn q(v: Vec<Felt>) -> VecDeque<Felt> {
    v.into_iter().collect()
}

#[test]
fn primitive_kinds_are_compared_as_decimal_text() {
    // The kind felt is written in decimal before it is compared with the
    // names of the primitives, so no short string matches one.
    let mut data = q(vec![ss("u8"), n(1)]);
    assert!(deserialize_primitive(&mut data).is_none());
    assert_eq!(data.len(), 1);
    let mut data = q(vec![n(0), ss("bool")]);
    assert!(<DojoTy as DojoTySerde>::deserialize(&mut data, false).is_none());
}

#[test]
fn struct_of_byte_array_and_unit_members() {
    let felts = vec![n(1), n(77), n(1), n(9), n(2), n(100), n(0), n(5), n(101), n(1), n(8), n(3), n(0), n(42)];
    let mut data = q(felts);
    match deserialize_ty(&mut data, false) {
        Some(DojoTy::Struct(s)) => {
            assert_eq!(s.name, n(77));
            assert_eq!(s.attrs, vec![n(9)]);
            assert_eq!(s.children.len(), 2);
            assert_eq!(s.children[0].name, n(100));
            assert!(matches!(s.children[0].ty, DojoTy::ByteArray));
            assert_eq!(s.children[1].attrs, vec![n(8)]);
            assert!(matches!(s.children[1].ty, DojoTy::Unit));
        }
        _ => panic!("expected a struct"),
    }
    assert_eq!(data, q(vec![n(42)]));
}

#[test]
fn enum_variants_by_layout() {
    let felts = vec![n(2), n(7), n(0), n(2), n(11), n(5), n(12), n(3), n(0)];
    match deserialize_ty(&mut q(felts.clone()), false) {
        Some(DojoTy::Enum(e)) => {
            let sels: Vec<Felt> = e.variants.iter().map(|(s, _)| *s).collect();
            assert_eq!(sels, vec![n(1), n(2)]);
            assert_eq!(e.variants[0].1.name, "11");
            assert_eq!(e.variants[1].1.name, "12");
        }
        _ => panic!("expected an enum"),
    }
    match <DojoEnum as DojoTySerde>::deserialize(&mut q(felts[1..].to_vec()), true) {
        Some(e) => {
            let sels: Vec<Felt> = e.variants.iter().map(|(s, _)| *s).collect();
            assert_eq!(sels, vec![n(0), n(1)]);
        }
        None => panic!("expected an enum"),
    }
}

#[test]
fn arrays_tuples_and_unknown_kinds() {
    match deserialize_ty(&mut q(vec![n(4), n(1), n(5)]), false) {
        Some(DojoTy::Array(t)) => assert!(matches!(*t, DojoTy::ByteArray)),
        _ => panic!("expected an array"),
    }
    match deserialize_ty(&mut q(vec![n(6), n(1), n(5), n(3)]), false) {
        Some(DojoTy::FixedArray((t, size))) => {
            assert!(matches!(*t, DojoTy::ByteArray));
            assert_eq!(size, 3);
        }
        _ => panic!("expected a fixed array"),
    }
    match deserialize_ty(&mut q(vec![n(3), n(2), n(5), n(3), n(0)]), false) {
        Some(DojoTy::Tuple(ts)) => assert_eq!(ts.len(), 2),
        _ => panic!("expected a tuple"),
    }
    assert!(matches!(deserialize_ty(&mut q(vec![n(3), n(0)]), false), Some(DojoTy::Unit)));
    assert!(deserialize_ty(&mut q(vec![n(9)]), false).is_none());
    assert!(deserialize_ty(&mut q(vec![]), false).is_none());
    let member = <DojoMember as DojoTySerde>::deserialize(&mut q(vec![n(4), n(0), n(5)]), false).unwrap();
    assert_eq!(member.name, n(4));
    let variant = <DojoVariant as DojoTySerde>::deserialize(&mut q(vec![n(300), n(5)]), false).unwrap();
    assert_eq!(variant.name, "300");
    let st = <DojoStruct as DojoTySerde>::deserialize(&mut q(vec![n(1), n(0), n(0)]), false).unwrap();
    assert!(st.children.is_empty());
}

#[test]
fn primitive_values() {
    let mut data = q(vec![n(5), n(256), n(0), n(3), n(1), n(2)]);
    assert!(matches!(DojoPrimitive::U8.parse(&mut data), Some(Parsed::U8(5))));
    assert!(DojoPrimitive::U8.parse(&mut data).is_none());
    assert!(matches!(DojoPrimitive::Bool.parse(&mut data), Some(Parsed::Bool(false))));
    assert!(matches!(DojoPrimitive::Bool.parse(&mut data), Some(Parsed::Bool(true))));
    match DojoPrimitive::U256.parse(&mut data) {
        Some(Parsed::U256(v)) => assert_eq!(v, U256 { low: 1, high: 2 }),
        other => panic!("unexpected {:?}", other),
    }
    assert!(data.is_empty());
    let mut data = q(vec![n(127), n(128), n(9)]);
    assert!(matches!(DojoPrimitive::I8.parse(&mut data), Some(Parsed::I8(127))));
    assert!(DojoPrimitive::I8.parse(&mut data).is_none());
    assert!(matches!(DojoPrimitive::ContractAddress.parse(&mut data), Some(Parsed::ContractAddress(f)) if f == n(9)));
}

#[test]
fn struct_and_enum_values() {
    let position = DojoStruct {
        name: n(10),
        attrs: vec![n(1)],
        children: vec![
            DojoMember { name: n(20), attrs: vec![], ty: DojoTy::Primitive(DojoPrimitive::U32) },
            DojoMember { name: n(21), attrs: vec![], ty: DojoTy::Primitive(DojoPrimitive::U32) },
        ],
    };
    let mut data = q(vec![n(3), n(4), n(99)]);
    let v = position.parse(&mut data).unwrap();
    assert_eq!(v.name, "10");
    assert_eq!(v.attrs, vec!["1".to_string()]);
    assert_eq!(v.children[1].name, "21");
    assert!(matches!(v.children[1].value, Parsed::U32(4)));
    assert_eq!(data, q(vec![n(99)]));

    let dir = DojoEnum {
        name: n(30),
        attrs: vec![],
        variants: vec![
            (n(1), DojoVariant { name: "Left".to_string(), ty: DojoTy::Unit }),
            (n(2), DojoVariant { name: "Right".to_string(), ty: DojoTy::Primitive(DojoPrimitive::U8) }),
        ],
    };
    let e = dir.parse(&mut q(vec![n(2), n(7)])).unwrap();
    assert_eq!(e.name, "30");
    assert_eq!(e.variant, "Right");
    assert!(matches!(e.value, Parsed::U8(7)));
    assert!(dir.parse(&mut q(vec![n(0)])).is_none());
}

#[test]
fn byte_array_array_and_tuple_values() {
    // "hi" as a byte array.
    let mut data = q(vec![n(0), ss("hi"), n(2), n(8)]);
    match parse_ty(&DojoTy::ByteArray, &mut data) {
        Some(Parsed::ByteArray(s)) => assert_eq!(s, "hi"),
        other => panic!("unexpected {:?}", other),
    }
    assert_eq!(data, q(vec![n(8)]));

    let arr = DojoTy::Array(Box::new(DojoTy::Primitive(DojoPrimitive::U16)));
    match arr.parse(&mut q(vec![n(2), n(5), n(6)])) {
        Some(Parsed::Array(items)) => {
            assert_eq!(items.len(), 2);
            assert!(matches!(items[1], Parsed::U16(6)));
        }
        other => panic!("unexpected {:?}", other),
    }
    assert!(arr.parse(&mut q(vec![n(3), n(5), n(6)])).is_none());

    let fixed = DojoTy::FixedArray((Box::new(DojoTy::Primitive(DojoPrimitive::Felt252)), 2));
    assert!(matches!(fixed.parse(&mut q(vec![n(5), n(6)])), Some(Parsed::FixedArray(v)) if v.len() == 2));

    let tuple = DojoTy::Tuple(vec![DojoTy::Unit, DojoTy::Primitive(DojoPrimitive::I16)]);
    match tuple.parse(&mut q(vec![n(3)])) {
        Some(Parsed::Tuple(v)) => {
            assert!(matches!(v[0], Parsed::Unit));
            assert!(matches!(v[1], Parsed::I16(3)));
        }
        other => panic!("unexpected {:?}", other),
    }
}

#[test]
fn nested_enums_shift_with_the_layout() {
    // A struct with one member whose type is an enum of one unit variant.
    let felts = vec![n(1), n(70), n(0), n(1), n(71), n(0), n(2), n(72), n(0), n(1), n(73), n(3), n(0), n(99)];
    let key = |legacy: bool| {
        let mut data = q(felts.clone());
        let ty = deserialize_ty(&mut data, legacy).unwrap();
        assert_eq!(data, q(vec![n(99)]));
        match ty {
            DojoTy::Struct(s) => match &s.children[0].ty {
                DojoTy::Enum(e) => {
                    assert_eq!(e.variants[0].1.name, "73");
                    e.variants[0].0
                }
                _ => panic!("expected an enum member"),
            },
            _ => panic!("expected a struct"),
        }
    };
    assert_eq!(key(true), n(0));
    assert_eq!(key(false), n(1));
}

#[test]
fn a_full_word_that_is_not_utf8_fails_before_the_pending_length_is_used() {
    // One full word ending in the byte 0xff, then a pending length of 33.
    let mut data = q(vec![n(1), n(0xff), n(0), n(33), n(7)]);
    assert!(parse_ty(&DojoTy::ByteArray, &mut data).is_none());
    assert_eq!(data, q(vec![n(7)]));
    // With a pending length that fits, the same word still fails.
    let mut data = q(vec![n(1), n(0xff), n(0), n(0)]);
    assert!(parse_ty(&DojoTy::ByteArray, &mut data).is_none());
}
