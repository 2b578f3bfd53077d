use dojo_introspect::codec::byte_array_readable_exec;
use dojo_introspect::events::texts_readable_exec;
use dojo_introspect::world_events::two_texts_readable_exec;
use dojo_introspect::dojo_serde::DojoSerde;
use dojo_introspect::error::DecodeError;
use dojo_introspect::events as world;
use dojo_introspect::events::CairoEvent;
use dojo_introspect::felt::Felt;
use dojo_introspect::typedef::TypeDef;
use dojo_introspect::types::events as typed;
use dojo_introspect::world_events::{self as plain, DojoEvent};
use starknet_types_core::felt::Felt as StarkFelt;

fn from_stark(x: StarkFelt) -> Felt {
    let b = x.to_bytes_be();
    let high = u128::from_be_bytes(b[..16].try_into().unwrap());
    let low = u128::from_be_bytes(b[16..].try_into().unwrap());
    Felt::from_parts(high, low).unwrap()
}

fn ss(s: &str) -> Felt {
    from_stark(starknet::core::utils::cairo_short_string_to_felt(s).unwrap())
}

fn n(v: u128) -> Felt {
    Felt::from_u128(v)
}

/// A short text as a serialized byte array.
fn text(s: &str) -> Vec<Felt> {
    vec![n(0), ss(s), n(s.len() as u128)]
}

fn name_keys() -> Vec<Felt> {
    let mut k = text("Position");
    k.extend(text("dojo_starter"));
    k
}

#[test]
fn event_selectors_are_those_of_their_names() {
    let sel = |s: &str| from_stark(starknet::core::utils::get_selector_from_name(s).unwrap());
    assert_eq!(plain::ModelRegistered::selector(), sel("ModelRegistered"));
    assert_eq!(plain::ModelWithSchemaRegistered::selector(), sel("ModelWithSchemaRegistered"));
    assert_eq!(plain::ModelUpgraded::selector(), sel("ModelUpgraded"));
    assert_eq!(plain::EventRegistered::selector(), sel("EventRegistered"));
    assert_eq!(plain::EventUpgraded::selector(), sel("EventUpgraded"));
    assert_eq!(plain::StoreSetRecord::selector(), sel("StoreSetRecord"));
    assert_eq!(plain::StoreUpdateRecord::selector(), sel("StoreUpdateRecord"));
    assert_eq!(plain::StoreUpdateMember::selector(), sel("StoreUpdateMember"));
    assert_eq!(plain::StoreDelRecord::selector(), sel("StoreDelRecord"));
    assert_eq!(plain::EventEmitted::selector(), sel("EventEmitted"));
}

#[test]
fn registration_reads_all_of_keys_and_data() {
    let e = plain::ModelRegistered::new(name_keys(), vec![n(1), n(2)]).unwrap();
    assert_eq!((e.name.as_str(), e.namespace.as_str()), ("Position", "dojo_starter"));
    assert_eq!((e.class_hash, e.address), (n(1), n(2)));
    assert!(plain::ModelRegistered::new(name_keys(), vec![n(1), n(2), n(3)]).is_none());
    let mut keys = name_keys();
    keys.push(n(0));
    assert!(plain::ModelRegistered::new(keys, vec![n(1), n(2)]).is_none());
    assert!(plain::EventRegistered::new(name_keys(), vec![n(1)]).is_none());
}

#[test]
fn registration_with_schema_takes_the_schema_array() {
    let e = plain::ModelWithSchemaRegistered::new(name_keys(), vec![n(2), n(7), n(8)]).unwrap();
    assert_eq!(e.schema, vec![n(7), n(8)]);
    assert!(plain::ModelWithSchemaRegistered::new(name_keys(), vec![n(2), n(7)]).is_none());
    assert!(plain::ModelWithSchemaRegistered::new(name_keys(), vec![n(1), n(7), n(8)]).is_none());
}

#[test]
fn upgrades_and_records() {
    let u = plain::ModelUpgraded::new(vec![n(9)], vec![n(1), n(2), n(3)]).unwrap();
    assert_eq!((u.selector, u.class_hash, u.address, u.prev_address), (n(9), n(1), n(2), n(3)));
    assert!(plain::EventUpgraded::new(vec![n(9)], vec![n(1), n(2)]).is_none());

    let r = plain::StoreSetRecord::new(vec![n(9), n(4)], vec![n(2), n(10), n(11), n(1), n(12)]).unwrap();
    assert_eq!((r.selector, r.entity_id), (n(9), n(4)));
    assert_eq!((r.keys, r.values), (vec![n(10), n(11)], vec![n(12)]));
    assert!(plain::StoreSetRecord::new(vec![n(9), n(4)], vec![n(0), n(0), n(5)]).is_none());

    let u = plain::StoreUpdateRecord::new(vec![n(9), n(4)], vec![n(1), n(12)]).unwrap();
    assert_eq!(u.values, vec![n(12)]);
    let m = plain::StoreUpdateMember::new(vec![n(9), n(4), n(6)], vec![n(0)]).unwrap();
    assert_eq!(m.member_selector, n(6));
    assert!(m.values.is_empty());
    assert!(plain::StoreUpdateMember::new(vec![n(9), n(4)], vec![n(0)]).is_none());

    let d = plain::StoreDelRecord::new(vec![n(9), n(4)], vec![]).unwrap();
    assert_eq!(d.entity_id, n(4));
    assert!(plain::StoreDelRecord::new(vec![n(9), n(4)], vec![n(0)]).is_none());

    let e = plain::EventEmitted::new(vec![n(9), n(5)], vec![n(1), n(1), n(1), n(2)]).unwrap();
    assert_eq!((e.system_address, e.keys, e.values), (n(5), vec![n(1)], vec![n(2)]));
}

#[test]
fn cairo_events_leave_trailing_felts_unread() {
    let mut keys_felts = name_keys();
    keys_felts.push(n(77));
    let mut keys = DojoSerde::from_slice(&keys_felts, false);
    let mut data = DojoSerde::from_slice(&[n(1), n(2), n(3)], false);
    let e = world::ModelRegistered::deserialize_event(&mut keys, &mut data).unwrap();
    assert_eq!(e.namespace, "dojo_starter");
    assert_eq!(keys.next().unwrap(), n(77));
    assert_eq!(data.next().unwrap(), n(3));
    assert_eq!(world::ModelRegistered::event_name(), "ModelRegistered");

    let mut keys = DojoSerde::from_slice(&[n(9)], false);
    let mut data = DojoSerde::from_slice(&[n(1), n(2)], false);
    assert_eq!(
        world::ModelUpgraded::deserialize_event(&mut keys, &mut data).unwrap_err(),
        DecodeError::Eof
    );

    let mut keys = DojoSerde::from_slice(&[n(9), n(4)], false);
    let mut data = DojoSerde::from_slice(&[n(1), n(12), n(3)], false);
    let u = world::StoreUpdateRecord::deserialize_event(&mut keys, &mut data).unwrap();
    assert_eq!(u.values, vec![n(12)]);
}

/// A schema with one column `dir` holding the enum `Dir { Left, Right }`.
fn schema_felts() -> Vec<Felt> {
    vec![
        ss("M"), n(0), n(1),
        ss("dir"), n(0),
        n(2), ss("Dir"), n(0), n(2), ss("Left"), n(3), n(0), ss("Right"), n(3), n(0),
    ]
}

#[test]
fn registered_schemas_are_read_as_legacy() {
    let mut keys = DojoSerde::from_slice(&name_keys(), false);
    let mut data = DojoSerde::from_slice(&schema_felts(), false);
    let e = world::ModelWithSchemaRegistered::deserialize_event(&mut keys, &mut data).unwrap();
    assert!(!data.is_legacy_mode());
    assert_eq!(e.schema.name, "M");
    match &e.schema.columns[0].type_def {
        TypeDef::Enum(en) => {
            assert_eq!(en.variants[0].0, n(0));
            assert_eq!(en.variants[1].0, n(1));
        }
        other => panic!("unexpected {:?}", other),
    }
    assert_eq!(world::ModelWithSchemaRegistered::event_name(), "ModelWithSchemaRegistered");
}

#[test]
fn typed_registration_reads_a_type_definition() {
    let mut keys = DojoSerde::from_slice(&name_keys(), false);
    let felts = vec![n(0), ss("u8")];
    let mut data = DojoSerde::from_slice(&felts, false);
    let e = typed::ModelWithSchemaRegistered::deserialize_event(&mut keys, &mut data).unwrap();
    assert_eq!(e.name, "Position");
    assert!(matches!(e.schema, TypeDef::U8));

    let mut keys = DojoSerde::from_slice(&[n(9), n(4)], false);
    let mut data = DojoSerde::from_slice(&[], false);
    let d = typed::StoreDelRecord::deserialize_event(&mut keys, &mut data).unwrap();
    assert_eq!((d.selector, d.entity_id), (n(9), n(4)));
}

#[test]
fn events_convert_into_the_event_enums() {
    let d = world::StoreDelRecord { selector: n(9), entity_id: n(4) };
    let e: world::DojoEvent = d.into();
    assert!(matches!(e, world::DojoEvent::StoreDelRecord(r) if r.entity_id == n(4)));
    let u = typed::ModelUpgraded { selector: n(1), class_hash: n(2), address: n(3), prev_address: n(4) };
    let e = typed::DojoEvent::from(u);
    assert!(matches!(e, typed::DojoEvent::ModelUpgraded(m) if m.prev_address == n(4)));
}

#[test]
fn readability_of_texts_is_decidable() {
    assert!(two_texts_readable_exec(&name_keys()));
    assert!(texts_readable_exec(&name_keys()));
    assert!(two_texts_readable_exec(&[]));
    // A word count whose bytes overflow what can be allocated.
    let huge = Felt::from_u128(u64::MAX as u128 / 2);
    assert!(!byte_array_readable_exec(&[huge]));
    assert!(!two_texts_readable_exec(&[huge]));
    // A pending length above 32 after a readable first text.
    let mut keys = text("ab");
    keys.extend(vec![n(0), n(1), n(40)]);
    assert!(byte_array_readable_exec(&keys));
    assert!(!two_texts_readable_exec(&keys));
    assert!(!texts_readable_exec(&keys));
}
