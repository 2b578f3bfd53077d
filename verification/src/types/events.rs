//! World events as the types crate reads them: the same layout as
//! [`crate::events`], with the registered schema kept as a type definition.
use vstd::prelude::*;
use crate::dojo_serde::{deserialize_type_def, read_string, read_type_def, DojoSerde};
use crate::error::{DecodeError, DecodeResult};
use crate::events::{
    read_key_pair, read_keys_and_array, read_keys_and_two_arrays, read_member_update_fields,
    read_record_fields, read_registered, read_registered_fields, read_three_keys_and_array,
    read_two_keys, read_update_fields, read_upgraded, read_upgraded_fields, texts_readable,
    CairoEvent, EventRead,
};
use crate::felt::Felt;
use crate::typedef::{TypeDef, TypeDefView};

verus! {

/// A world event of any kind.
#[derive(Debug)]
pub enum DojoEvent {
    ModelRegistered(ModelRegistered),
    ModelWithSchemaRegistered(ModelWithSchemaRegistered),
    ModelUpgraded(ModelUpgraded),
    EventRegistered(EventRegistered),
    EventUpgraded(EventUpgraded),
    StoreSetRecord(StoreSetRecord),
    StoreUpdateRecord(StoreUpdateRecord),
    StoreUpdateMember(StoreUpdateMember),
    StoreDelRecord(StoreDelRecord),
    EventEmitted(EventEmitted),
}

/// The serde that world events are read with.
pub struct DojoEventSerde;

/// A model was registered.
#[derive(Debug)]
pub struct ModelRegistered {
    pub name: String,
    pub namespace: String,
    pub class_hash: Felt,
    pub address: Felt,
}

impl CairoEvent for ModelRegistered {
    open spec fn readable(keys: Seq<Felt>, data: Seq<Felt>) -> bool {
        texts_readable(keys)
    }

    fn event_name() -> (n: &'static str)
        ensures
            n@ == "ModelRegistered"@,
    {
        "ModelRegistered"
    }

    fn deserialize_event(keys: &mut DojoSerde, data: &mut DojoSerde) -> (r: DecodeResult<Self>)
        ensures
            final(keys).felts() == read_registered(old(keys).felts(), old(data).felts()).keys,
            final(data).felts() == read_registered(old(keys).felts(), old(data).felts()).data,
            match read_registered(old(keys).felts(), old(data).felts()).result {
                Ok((n, s, c, a)) => r matches Ok(e) && e.name@ == n && e.namespace@ == s && e.class_hash == c && e.address == a,
                Err(err) => r matches Err(f) && f == err,
            },
    {
        let (name, namespace, class_hash, address) = read_registered_fields(keys, data)?;
        Ok(ModelRegistered { name, namespace, class_hash, address })
    }
}

/// An event was registered.
#[derive(Debug)]
pub struct EventRegistered {
    pub name: String,
    pub namespace: String,
    pub class_hash: Felt,
    pub address: Felt,
}

impl CairoEvent for EventRegistered {
    open spec fn readable(keys: Seq<Felt>, data: Seq<Felt>) -> bool {
        texts_readable(keys)
    }

    fn event_name() -> (n: &'static str)
        ensures
            n@ == "EventRegistered"@,
    {
        "EventRegistered"
    }

    fn deserialize_event(keys: &mut DojoSerde, data: &mut DojoSerde) -> (r: DecodeResult<Self>)
        ensures
            final(keys).felts() == read_registered(old(keys).felts(), old(data).felts()).keys,
            final(data).felts() == read_registered(old(keys).felts(), old(data).felts()).data,
            match read_registered(old(keys).felts(), old(data).felts()).result {
                Ok((n, s, c, a)) => r matches Ok(e) && e.name@ == n && e.namespace@ == s && e.class_hash == c && e.address == a,
                Err(err) => r matches Err(f) && f == err,
            },
    {
        let (name, namespace, class_hash, address) = read_registered_fields(keys, data)?;
        Ok(EventRegistered { name, namespace, class_hash, address })
    }
}

/// A model was upgraded.
#[derive(Debug)]
pub struct ModelUpgraded {
    pub selector: Felt,
    pub class_hash: Felt,
    pub address: Felt,
    pub prev_address: Felt,
}

impl CairoEvent for ModelUpgraded {
    open spec fn readable(keys: Seq<Felt>, data: Seq<Felt>) -> bool {
        true
    }

    fn event_name() -> (n: &'static str)
        ensures
            n@ == "ModelUpgraded"@,
    {
        "ModelUpgraded"
    }

    fn deserialize_event(keys: &mut DojoSerde, data: &mut DojoSerde) -> (r: DecodeResult<Self>)
        ensures
            final(keys).felts() == read_upgraded(old(keys).felts(), old(data).felts()).keys,
            final(data).felts() == read_upgraded(old(keys).felts(), old(data).felts()).data,
            match read_upgraded(old(keys).felts(), old(data).felts()).result {
                Ok((s, c, a, p)) => r matches Ok(e) && e.selector == s && e.class_hash == c && e.address == a && e.prev_address == p,
                Err(err) => r matches Err(f) && f == err,
            },
    {
        let (selector, class_hash, address, prev_address) = read_upgraded_fields(keys, data)?;
        Ok(ModelUpgraded { selector, class_hash, address, prev_address })
    }
}

/// An event was upgraded.
#[derive(Debug)]
pub struct EventUpgraded {
    pub selector: Felt,
    pub class_hash: Felt,
    pub address: Felt,
    pub prev_address: Felt,
}

impl CairoEvent for EventUpgraded {
    open spec fn readable(keys: Seq<Felt>, data: Seq<Felt>) -> bool {
        true
    }

    fn event_name() -> (n: &'static str)
        ensures
            n@ == "EventUpgraded"@,
    {
        "EventUpgraded"
    }

    fn deserialize_event(keys: &mut DojoSerde, data: &mut DojoSerde) -> (r: DecodeResult<Self>)
        ensures
            final(keys).felts() == read_upgraded(old(keys).felts(), old(data).felts()).keys,
            final(data).felts() == read_upgraded(old(keys).felts(), old(data).felts()).data,
            match read_upgraded(old(keys).felts(), old(data).felts()).result {
                Ok((s, c, a, p)) => r matches Ok(e) && e.selector == s && e.class_hash == c && e.address == a && e.prev_address == p,
                Err(err) => r matches Err(f) && f == err,
            },
    {
        let (selector, class_hash, address, prev_address) = read_upgraded_fields(keys, data)?;
        Ok(EventUpgraded { selector, class_hash, address, prev_address })
    }
}

/// A record was set.
#[derive(Debug)]
pub struct StoreSetRecord {
    pub selector: Felt,
    pub entity_id: Felt,
    pub keys: Vec<Felt>,
    pub values: Vec<Felt>,
}

impl CairoEvent for StoreSetRecord {
    open spec fn readable(keys: Seq<Felt>, data: Seq<Felt>) -> bool {
        true
    }

    fn event_name() -> (n: &'static str)
        ensures
            n@ == "StoreSetRecord"@,
    {
        "StoreSetRecord"
    }

    fn deserialize_event(keys: &mut DojoSerde, data: &mut DojoSerde) -> (r: DecodeResult<Self>)
        ensures
            final(keys).felts() == read_keys_and_two_arrays(old(keys).felts(), old(data).felts()).keys,
            final(data).felts() == read_keys_and_two_arrays(old(keys).felts(), old(data).felts()).data,
            match read_keys_and_two_arrays(old(keys).felts(), old(data).felts()).result {
                Ok((a, b, x, y)) => r matches Ok(e) && e.selector == a && e.entity_id == b && e.keys@ == x && e.values@ == y,
                Err(err) => r matches Err(f) && f == err,
            },
    {
        let (selector, entity_id, record_keys, record_values) = read_record_fields(keys, data)?;
        Ok(StoreSetRecord { selector, entity_id, keys: record_keys, values: record_values })
    }
}

/// A record was updated.
#[derive(Debug)]
pub struct StoreUpdateRecord {
    pub selector: Felt,
    pub entity_id: Felt,
    pub values: Vec<Felt>,
}

impl CairoEvent for StoreUpdateRecord {
    open spec fn readable(keys: Seq<Felt>, data: Seq<Felt>) -> bool {
        true
    }

    fn event_name() -> (n: &'static str)
        ensures
            n@ == "StoreUpdateRecord"@,
    {
        "StoreUpdateRecord"
    }

    fn deserialize_event(keys: &mut DojoSerde, data: &mut DojoSerde) -> (r: DecodeResult<Self>)
        ensures
            final(keys).felts() == read_keys_and_array(old(keys).felts(), old(data).felts()).keys,
            final(data).felts() == read_keys_and_array(old(keys).felts(), old(data).felts()).data,
            match read_keys_and_array(old(keys).felts(), old(data).felts()).result {
                Ok((a, b, x)) => r matches Ok(e) && e.selector == a && e.entity_id == b && e.values@ == x,
                Err(err) => r matches Err(f) && f == err,
            },
    {
        let (selector, entity_id, values) = read_update_fields(keys, data)?;
        Ok(StoreUpdateRecord { selector, entity_id, values })
    }
}

/// A member of a record was updated.
#[derive(Debug)]
pub struct StoreUpdateMember {
    pub selector: Felt,
    pub entity_id: Felt,
    pub member_selector: Felt,
    pub values: Vec<Felt>,
}

impl CairoEvent for StoreUpdateMember {
    open spec fn readable(keys: Seq<Felt>, data: Seq<Felt>) -> bool {
        true
    }

    fn event_name() -> (n: &'static str)
        ensures
            n@ == "StoreUpdateMember"@,
    {
        "StoreUpdateMember"
    }

    fn deserialize_event(keys: &mut DojoSerde, data: &mut DojoSerde) -> (r: DecodeResult<Self>)
        ensures
            final(keys).felts() == read_three_keys_and_array(old(keys).felts(), old(data).felts()).keys,
            final(data).felts() == read_three_keys_and_array(old(keys).felts(), old(data).felts()).data,
            match read_three_keys_and_array(old(keys).felts(), old(data).felts()).result {
                Ok((a, b, c, x)) => r matches Ok(e) && e.selector == a && e.entity_id == b && e.member_selector == c && e.values@ == x,
                Err(err) => r matches Err(f) && f == err,
            },
    {
        let (selector, entity_id, member_selector, values) = read_member_update_fields(keys, data)?;
        Ok(StoreUpdateMember { selector, entity_id, member_selector, values })
    }
}

/// A record was deleted; the data is not read.
#[derive(Debug)]
pub struct StoreDelRecord {
    pub selector: Felt,
    pub entity_id: Felt,
}

impl CairoEvent for StoreDelRecord {
    open spec fn readable(keys: Seq<Felt>, data: Seq<Felt>) -> bool {
        true
    }

    fn event_name() -> (n: &'static str)
        ensures
            n@ == "StoreDelRecord"@,
    {
        "StoreDelRecord"
    }

    fn deserialize_event(keys: &mut DojoSerde, data: &mut DojoSerde) -> (r: DecodeResult<Self>)
        ensures
            final(keys).felts() == read_two_keys(old(keys).felts()).1,
            final(data).felts() == old(data).felts(),
            match read_two_keys(old(keys).felts()).0 {
                Ok((a, b)) => r matches Ok(e) && e.selector == a && e.entity_id == b,
                Err(err) => r matches Err(f) && f == err,
            },
    {
        let (selector, entity_id) = read_key_pair(keys)?;
        Ok(StoreDelRecord { selector, entity_id })
    }
}

/// A custom event was emitted.
#[derive(Debug)]
pub struct EventEmitted {
    pub selector: Felt,
    pub system_address: Felt,
    pub keys: Vec<Felt>,
    pub values: Vec<Felt>,
}

impl CairoEvent for EventEmitted {
    open spec fn readable(keys: Seq<Felt>, data: Seq<Felt>) -> bool {
        true
    }

    fn event_name() -> (n: &'static str)
        ensures
            n@ == "EventEmitted"@,
    {
        "EventEmitted"
    }

    fn deserialize_event(keys: &mut DojoSerde, data: &mut DojoSerde) -> (r: DecodeResult<Self>)
        ensures
            final(keys).felts() == read_keys_and_two_arrays(old(keys).felts(), old(data).felts()).keys,
            final(data).felts() == read_keys_and_two_arrays(old(keys).felts(), old(data).felts()).data,
            match read_keys_and_two_arrays(old(keys).felts(), old(data).felts()).result {
                Ok((a, b, x, y)) => r matches Ok(e) && e.selector == a && e.system_address == b && e.keys@ == x && e.values@ == y,
                Err(err) => r matches Err(f) && f == err,
            },
    {
        let (selector, system_address, event_keys, event_values) = read_record_fields(keys, data)?;
        Ok(EventEmitted { selector, system_address, keys: event_keys, values: event_values })
    }
}

/// A model was registered together with its schema.
#[derive(Debug)]
pub struct ModelWithSchemaRegistered {
    pub name: String,
    pub namespace: String,
    pub schema: TypeDef,
}

/// Name and namespace texts from the keys, and a type definition read as legacy from the data.
pub open spec fn read_type_def_registered(keys: Seq<Felt>, data: Seq<Felt>) -> EventRead<(Seq<char>, Seq<char>, TypeDefView)> {
    match read_string(keys) {
        (Err(e), k1) => EventRead { result: Err(e), keys: k1, data },
        (Ok(name), k1) => match read_string(k1) {
            (Err(e), k2) => EventRead { result: Err(e), keys: k2, data },
            (Ok(namespace), k2) => match read_type_def(data, true) {
                (Err(e), d1) => EventRead { result: Err(e), keys: k2, data: d1 },
                (Ok(t), d1) => EventRead { result: Ok((name, namespace, t)), keys: k2, data: d1 },
            },
        },
    }
}

impl CairoEvent for ModelWithSchemaRegistered {
    open spec fn readable(keys: Seq<Felt>, data: Seq<Felt>) -> bool {
        texts_readable(keys)
    }

    fn event_name() -> (n: &'static str)
        ensures
            n@ == "ModelWithSchemaRegistered"@,
    {
        "ModelWithSchemaRegistered"
    }

    /// The schema is read as legacy, and the data source's mode is kept.
    fn deserialize_event(keys: &mut DojoSerde, data: &mut DojoSerde) -> (r: DecodeResult<Self>)
        ensures
            final(keys).felts() == read_type_def_registered(old(keys).felts(), old(data).felts()).keys,
            final(data).felts() == read_type_def_registered(old(keys).felts(), old(data).felts()).data,
            match read_type_def_registered(old(keys).felts(), old(data).felts()).result {
                Ok((n, s, v)) => r matches Ok(e) && e.name@ == n && e.namespace@ == s && e.schema.view() == v,
                Err(err) => r matches Err(f) && f == err,
            },
            final(data).is_legacy() == old(data).is_legacy(),
    {
        let name = keys.next_string()?;
        let namespace = keys.next_string()?;
        let mode = data.is_legacy_mode();
        data.set_legacy(true);
        let read = deserialize_type_def(data);
        data.set_legacy(mode);
        let schema = read?;
        Ok(ModelWithSchemaRegistered { name, namespace, schema })
    }
}


// ---------------------------------------------------------------------------
// Each event is a `DojoEvent`.
// ---------------------------------------------------------------------------
impl From<ModelRegistered> for DojoEvent {
    fn from(value: ModelRegistered) -> (r: DojoEvent) {
        DojoEvent::ModelRegistered(value)
    }
}

impl vstd::std_specs::convert::FromSpecImpl<ModelRegistered> for DojoEvent {
    open spec fn obeys_from_spec() -> bool {
        true
    }

    open spec fn from_spec(v: ModelRegistered) -> DojoEvent {
        DojoEvent::ModelRegistered(v)
    }
}

impl From<ModelWithSchemaRegistered> for DojoEvent {
    fn from(value: ModelWithSchemaRegistered) -> (r: DojoEvent) {
        DojoEvent::ModelWithSchemaRegistered(value)
    }
}

impl vstd::std_specs::convert::FromSpecImpl<ModelWithSchemaRegistered> for DojoEvent {
    open spec fn obeys_from_spec() -> bool {
        true
    }

    open spec fn from_spec(v: ModelWithSchemaRegistered) -> DojoEvent {
        DojoEvent::ModelWithSchemaRegistered(v)
    }
}

impl From<ModelUpgraded> for DojoEvent {
    fn from(value: ModelUpgraded) -> (r: DojoEvent) {
        DojoEvent::ModelUpgraded(value)
    }
}

impl vstd::std_specs::convert::FromSpecImpl<ModelUpgraded> for DojoEvent {
    open spec fn obeys_from_spec() -> bool {
        true
    }

    open spec fn from_spec(v: ModelUpgraded) -> DojoEvent {
        DojoEvent::ModelUpgraded(v)
    }
}

impl From<EventRegistered> for DojoEvent {
    fn from(value: EventRegistered) -> (r: DojoEvent) {
        DojoEvent::EventRegistered(value)
    }
}

impl vstd::std_specs::convert::FromSpecImpl<EventRegistered> for DojoEvent {
    open spec fn obeys_from_spec() -> bool {
        true
    }

    open spec fn from_spec(v: EventRegistered) -> DojoEvent {
        DojoEvent::EventRegistered(v)
    }
}

impl From<EventUpgraded> for DojoEvent {
    fn from(value: EventUpgraded) -> (r: DojoEvent) {
        DojoEvent::EventUpgraded(value)
    }
}

impl vstd::std_specs::convert::FromSpecImpl<EventUpgraded> for DojoEvent {
    open spec fn obeys_from_spec() -> bool {
        true
    }

    open spec fn from_spec(v: EventUpgraded) -> DojoEvent {
        DojoEvent::EventUpgraded(v)
    }
}

impl From<StoreSetRecord> for DojoEvent {
    fn from(value: StoreSetRecord) -> (r: DojoEvent) {
        DojoEvent::StoreSetRecord(value)
    }
}

impl vstd::std_specs::convert::FromSpecImpl<StoreSetRecord> for DojoEvent {
    open spec fn obeys_from_spec() -> bool {
        true
    }

    open spec fn from_spec(v: StoreSetRecord) -> DojoEvent {
        DojoEvent::StoreSetRecord(v)
    }
}

impl From<StoreUpdateRecord> for DojoEvent {
    fn from(value: StoreUpdateRecord) -> (r: DojoEvent) {
        DojoEvent::StoreUpdateRecord(value)
    }
}

impl vstd::std_specs::convert::FromSpecImpl<StoreUpdateRecord> for DojoEvent {
    open spec fn obeys_from_spec() -> bool {
        true
    }

    open spec fn from_spec(v: StoreUpdateRecord) -> DojoEvent {
        DojoEvent::StoreUpdateRecord(v)
    }
}

impl From<StoreUpdateMember> for DojoEvent {
    fn from(value: StoreUpdateMember) -> (r: DojoEvent) {
        DojoEvent::StoreUpdateMember(value)
    }
}

impl vstd::std_specs::convert::FromSpecImpl<StoreUpdateMember> for DojoEvent {
    open spec fn obeys_from_spec() -> bool {
        true
    }

    open spec fn from_spec(v: StoreUpdateMember) -> DojoEvent {
        DojoEvent::StoreUpdateMember(v)
    }
}

impl From<StoreDelRecord> for DojoEvent {
    fn from(value: StoreDelRecord) -> (r: DojoEvent) {
        DojoEvent::StoreDelRecord(value)
    }
}

impl vstd::std_specs::convert::FromSpecImpl<StoreDelRecord> for DojoEvent {
    open spec fn obeys_from_spec() -> bool {
        true
    }

    open spec fn from_spec(v: StoreDelRecord) -> DojoEvent {
        DojoEvent::StoreDelRecord(v)
    }
}

impl From<EventEmitted> for DojoEvent {
    fn from(value: EventEmitted) -> (r: DojoEvent) {
        DojoEvent::EventEmitted(value)
    }
}

impl vstd::std_specs::convert::FromSpecImpl<EventEmitted> for DojoEvent {
    open spec fn obeys_from_spec() -> bool {
        true
    }

    open spec fn from_spec(v: EventEmitted) -> DojoEvent {
        DojoEvent::EventEmitted(v)
    }
}

} // verus!
