//! World events read from the keys and data of a Starknet event through
//! Cairo serde; trailing felts are left unread.
use vstd::prelude::*;
use crate::codec::{byte_array_readable, byte_array_text, byte_array_width};
use crate::dojo_serde::{
    deserialize_schema, read_felt, read_felt_list, read_schema, read_string, DojoSchema,
    DojoSchemaView, DojoSerde,
};
use crate::error::{DecodeError, DecodeResult};
use crate::felt::Felt;

verus! {

/// A world event of any kind.
#[derive(Debug)]
pub enum DojoEvent {
    ModelRegistered(ModelRegistered),
    ModelWithSchemaRegistered(ModelWithSchemaRegistered),
    ModelUpgraded(ModelUpgraded),
    EventRegistered(EventRegistered),
    EventUpgraded(EventUpgraded),
    StoreSetRecord(StoreSetRecord),
    StoreUpdateRecord(StoreUpdateRecord),
    StoreUpdateMember(StoreUpdateMember),
    StoreDelRecord(StoreDelRecord),
    EventEmitted(EventEmitted),
}

/// The serde that world events are read with.
pub struct DojoEventSerde;

/// An event read from a key source and a data source.
pub trait CairoEvent: Sized {
    /// Reading these keys and data does not panic.
    spec fn readable(keys: Seq<Felt>, data: Seq<Felt>) -> bool;

    /// The event's name.
    fn event_name() -> &'static str;

    fn deserialize_event(keys: &mut DojoSerde, data: &mut DojoSerde) -> DecodeResult<Self>
        requires
            Self::readable(old(keys).felts(), old(data).felts()),
    ;
}

/// Reading two texts from `keys` does not overrun the byte-array reader.
pub open spec fn texts_readable(keys: Seq<Felt>) -> bool {
    &&& byte_array_readable(keys)
    &&& read_string(keys).0 is Ok ==> byte_array_readable(read_string(keys).1)
}

/// Whether reading two texts from `keys` stays within what the byte-array
/// reader allocates or slices: the condition under which the registration
/// events can be read.
pub fn texts_readable_exec(keys: &[Felt]) -> (b: bool)
    ensures
        b == texts_readable(keys@),
{
    crate::world_events::two_texts_readable_exec(keys)
}

/// The outcome of reading an event: its fields or the first error, and the
/// keys and data left.
pub struct EventRead<T> {
    pub result: Result<T, DecodeError>,
    pub keys: Seq<Felt>,
    pub data: Seq<Felt>,
}

/// Name and namespace texts from the keys, class hash and address from the data.
pub open spec fn read_registered(keys: Seq<Felt>, data: Seq<Felt>) -> EventRead<(Seq<char>, Seq<char>, Felt, Felt)> {
    match read_string(keys) {
        (Err(e), k1) => EventRead { result: Err(e), keys: k1, data },
        (Ok(name), k1) => match read_string(k1) {
            (Err(e), k2) => EventRead { result: Err(e), keys: k2, data },
            (Ok(namespace), k2) => match read_felt(data) {
                (Err(e), d1) => EventRead { result: Err(e), keys: k2, data: d1 },
                (Ok(class_hash), d1) => match read_felt(d1) {
                    (Err(e), d2) => EventRead { result: Err(e), keys: k2, data: d2 },
                    (Ok(address), d2) => EventRead {
                        result: Ok((name, namespace, class_hash, address)),
                        keys: k2,
                        data: d2,
                    },
                },
            },
        },
    }
}

/// Name and namespace texts from the keys, and a schema read as legacy from the data.
pub open spec fn read_schema_registered(keys: Seq<Felt>, data: Seq<Felt>) -> EventRead<(Seq<char>, Seq<char>, DojoSchemaView)> {
    match read_string(keys) {
        (Err(e), k1) => EventRead { result: Err(e), keys: k1, data },
        (Ok(name), k1) => match read_string(k1) {
            (Err(e), k2) => EventRead { result: Err(e), keys: k2, data },
            (Ok(namespace), k2) => match read_schema(data, true) {
                (Err(e), d1) => EventRead { result: Err(e), keys: k2, data: d1 },
                (Ok(schema), d1) => EventRead { result: Ok((name, namespace, schema)), keys: k2, data: d1 },
            },
        },
    }
}

/// The selector from the keys, class hash, address and previous address from the data.
pub open spec fn read_upgraded(keys: Seq<Felt>, data: Seq<Felt>) -> EventRead<(Felt, Felt, Felt, Felt)> {
    match read_felt(keys) {
        (Err(e), k1) => EventRead { result: Err(e), keys: k1, data },
        (Ok(selector), k1) => match read_felt(data) {
            (Err(e), d1) => EventRead { result: Err(e), keys: k1, data: d1 },
            (Ok(class_hash), d1) => match read_felt(d1) {
                (Err(e), d2) => EventRead { result: Err(e), keys: k1, data: d2 },
                (Ok(address), d2) => match read_felt(d2) {
                    (Err(e), d3) => EventRead { result: Err(e), keys: k1, data: d3 },
                    (Ok(prev), d3) => EventRead {
                        result: Ok((selector, class_hash, address, prev)),
                        keys: k1,
                        data: d3,
                    },
                },
            },
        },
    }
}

/// Two felts from the keys.
pub open spec fn read_two_keys(keys: Seq<Felt>) -> (Result<(Felt, Felt), DecodeError>, Seq<Felt>) {
    match read_felt(keys) {
        (Err(e), k1) => (Err(e), k1),
        (Ok(a), k1) => match read_felt(k1) {
            (Err(e), k2) => (Err(e), k2),
            (Ok(b), k2) => (Ok((a, b)), k2),
        },
    }
}

/// Two felts from the keys, then two felt arrays from the data.
pub open spec fn read_keys_and_two_arrays(keys: Seq<Felt>, data: Seq<Felt>) -> EventRead<(Felt, Felt, Seq<Felt>, Seq<Felt>)> {
    match read_two_keys(keys) {
        (Err(e), k1) => EventRead { result: Err(e), keys: k1, data },
        (Ok((a, b)), k1) => match read_felt_list(data) {
            (Err(e), d1) => EventRead { result: Err(e), keys: k1, data: d1 },
            (Ok(x), d1) => match read_felt_list(d1) {
                (Err(e), d2) => EventRead { result: Err(e), keys: k1, data: d2 },
                (Ok(y), d2) => EventRead { result: Ok((a, b, x, y)), keys: k1, data: d2 },
            },
        },
    }
}

/// Two felts from the keys, then one felt array from the data.
pub open spec fn read_keys_and_array(keys: Seq<Felt>, data: Seq<Felt>) -> EventRead<(Felt, Felt, Seq<Felt>)> {
    match read_two_keys(keys) {
        (Err(e), k1) => EventRead { result: Err(e), keys: k1, data },
        (Ok((a, b)), k1) => match read_felt_list(data) {
            (Err(e), d1) => EventRead { result: Err(e), keys: k1, data: d1 },
            (Ok(x), d1) => EventRead { result: Ok((a, b, x)), keys: k1, data: d1 },
        },
    }
}

/// Three felts from the keys, then one felt array from the data.
pub open spec fn read_three_keys_and_array(keys: Seq<Felt>, data: Seq<Felt>) -> EventRead<(Felt, Felt, Felt, Seq<Felt>)> {
    match read_two_keys(keys) {
        (Err(e), k1) => EventRead { result: Err(e), keys: k1, data },
        (Ok((a, b)), k1) => match read_felt(k1) {
            (Err(e), k2) => EventRead { result: Err(e), keys: k2, data },
            (Ok(c), k2) => match read_felt_list(data) {
                (Err(e), d1) => EventRead { result: Err(e), keys: k2, data: d1 },
                (Ok(x), d1) => EventRead { result: Ok((a, b, c, x)), keys: k2, data: d1 },
            },
        },
    }
}

/// Reads name, namespace, class hash and address.
pub fn read_registered_fields(keys: &mut DojoSerde, data: &mut DojoSerde) -> (r: DecodeResult<(String, String, Felt, Felt)>)
    requires
        texts_readable(old(keys).felts()),
    ensures
        final(keys).felts() == read_registered(old(keys).felts(), old(data).felts()).keys,
        final(data).felts() == read_registered(old(keys).felts(), old(data).felts()).data,
        final(keys).is_legacy() == old(keys).is_legacy(),
        final(data).is_legacy() == old(data).is_legacy(),
        match read_registered(old(keys).felts(), old(data).felts()).result {
            Ok((n, s, c, a)) => r matches Ok((x, y, z, w)) && x@ == n && y@ == s && z == c && w == a,
            Err(e) => r matches Err(f) && f == e,
        },
{
    let name = keys.next_string()?;
    let namespace = keys.next_string()?;
    let class_hash = data.next()?;
    let address = data.next()?;
    Ok((name, namespace, class_hash, address))
}

/// Reads a selector, class hash, address and previous address.
pub fn read_upgraded_fields(keys: &mut DojoSerde, data: &mut DojoSerde) -> (r: DecodeResult<(Felt, Felt, Felt, Felt)>)
    ensures
        final(keys).felts() == read_upgraded(old(keys).felts(), old(data).felts()).keys,
        final(data).felts() == read_upgraded(old(keys).felts(), old(data).felts()).data,
        final(keys).is_legacy() == old(keys).is_legacy(),
        final(data).is_legacy() == old(data).is_legacy(),
        match read_upgraded(old(keys).felts(), old(data).felts()).result {
            Ok(t) => r == Ok::<(Felt, Felt, Felt, Felt), DecodeError>(t),
            Err(e) => r matches Err(f) && f == e,
        },
{
    let selector = keys.next()?;
    let class_hash = data.next()?;
    let address = data.next()?;
    let prev_address = data.next()?;
    Ok((selector, class_hash, address, prev_address))
}

/// Reads two key felts and two felt arrays.
pub fn read_record_fields(keys: &mut DojoSerde, data: &mut DojoSerde) -> (r: DecodeResult<(Felt, Felt, Vec<Felt>, Vec<Felt>)>)
    ensures
        final(keys).felts() == read_keys_and_two_arrays(old(keys).felts(), old(data).felts()).keys,
        final(data).felts() == read_keys_and_two_arrays(old(keys).felts(), old(data).felts()).data,
        final(keys).is_legacy() == old(keys).is_legacy(),
        final(data).is_legacy() == old(data).is_legacy(),
        match read_keys_and_two_arrays(old(keys).felts(), old(data).felts()).result {
            Ok((a, b, x, y)) => r matches Ok((p, q, u, v)) && p == a && q == b && u@ == x && v@ == y,
            Err(e) => r matches Err(f) && f == e,
        },
{
    let selector = keys.next()?;
    let entity_id = keys.next()?;
    let record_keys = data.next_array()?;
    let record_values = data.next_array()?;
    Ok((selector, entity_id, record_keys, record_values))
}

/// Reads two key felts and one felt array.
pub fn read_update_fields(keys: &mut DojoSerde, data: &mut DojoSerde) -> (r: DecodeResult<(Felt, Felt, Vec<Felt>)>)
    ensures
        final(keys).felts() == read_keys_and_array(old(keys).felts(), old(data).felts()).keys,
        final(data).felts() == read_keys_and_array(old(keys).felts(), old(data).felts()).data,
        final(keys).is_legacy() == old(keys).is_legacy(),
        final(data).is_legacy() == old(data).is_legacy(),
        match read_keys_and_array(old(keys).felts(), old(data).felts()).result {
            Ok((a, b, x)) => r matches Ok((p, q, u)) && p == a && q == b && u@ == x,
            Err(e) => r matches Err(f) && f == e,
        },
{
    let selector = keys.next()?;
    let entity_id = keys.next()?;
    let values = data.next_array()?;
    Ok((selector, entity_id, values))
}

/// Reads three key felts and one felt array.
pub fn read_member_update_fields(keys: &mut DojoSerde, data: &mut DojoSerde) -> (r: DecodeResult<(Felt, Felt, Felt, Vec<Felt>)>)
    ensures
        final(keys).felts() == read_three_keys_and_array(old(keys).felts(), old(data).felts()).keys,
        final(data).felts() == read_three_keys_and_array(old(keys).felts(), old(data).felts()).data,
        final(keys).is_legacy() == old(keys).is_legacy(),
        final(data).is_legacy() == old(data).is_legacy(),
        match read_three_keys_and_array(old(keys).felts(), old(data).felts()).result {
            Ok((a, b, c, x)) => r matches Ok((p, q, s, u)) && p == a && q == b && s == c && u@ == x,
            Err(e) => r matches Err(f) && f == e,
        },
{
    let selector = keys.next()?;
    let entity_id = keys.next()?;
    let member_selector = keys.next()?;
    let values = data.next_array()?;
    Ok((selector, entity_id, member_selector, values))
}

/// Reads two key felts.
pub fn read_key_pair(keys: &mut DojoSerde) -> (r: DecodeResult<(Felt, Felt)>)
    ensures
        final(keys).felts() == read_two_keys(old(keys).felts()).1,
        final(keys).is_legacy() == old(keys).is_legacy(),
        r == read_two_keys(old(keys).felts()).0,
{
    let selector = keys.next()?;
    let entity_id = keys.next()?;
    Ok((selector, entity_id))
}


/// A model was registered.
#[derive(Debug)]
pub struct ModelRegistered {
    pub name: String,
    pub namespace: String,
    pub class_hash: Felt,
    pub address: Felt,
}

impl CairoEvent for ModelRegistered {
    open spec fn readable(keys: Seq<Felt>, data: Seq<Felt>) -> bool {
        texts_readable(keys)
    }

    fn event_name() -> (n: &'static str)
        ensures
            n@ == "ModelRegistered"@,
    {
        "ModelRegistered"
    }

    fn deserialize_event(keys: &mut DojoSerde, data: &mut DojoSerde) -> (r: DecodeResult<Self>)
        ensures
            final(keys).felts() == read_registered(old(keys).felts(), old(data).felts()).keys,
            final(data).felts() == read_registered(old(keys).felts(), old(data).felts()).data,
            match read_registered(old(keys).felts(), old(data).felts()).result {
                Ok((n, s, c, a)) => r matches Ok(e) && e.name@ == n && e.namespace@ == s && e.class_hash == c && e.address == a,
                Err(err) => r matches Err(f) && f == err,
            },
    {
        let (name, namespace, class_hash, address) = read_registered_fields(keys, data)?;
        Ok(ModelRegistered { name, namespace, class_hash, address })
    }
}

/// An event was registered.
#[derive(Debug)]
pub struct EventRegistered {
    pub name: String,
    pub namespace: String,
    pub class_hash: Felt,
    pub address: Felt,
}

impl CairoEvent for EventRegistered {
    open spec fn readable(keys: Seq<Felt>, data: Seq<Felt>) -> bool {
        texts_readable(keys)
    }

    fn event_name() -> (n: &'static str)
        ensures
            n@ == "EventRegistered"@,
    {
        "EventRegistered"
    }

    fn deserialize_event(keys: &mut DojoSerde, data: &mut DojoSerde) -> (r: DecodeResult<Self>)
        ensures
            final(keys).felts() == read_registered(old(keys).felts(), old(data).felts()).keys,
            final(data).felts() == read_registered(old(keys).felts(), old(data).felts()).data,
            match read_registered(old(keys).felts(), old(data).felts()).result {
                Ok((n, s, c, a)) => r matches Ok(e) && e.name@ == n && e.namespace@ == s && e.class_hash == c && e.address == a,
                Err(err) => r matches Err(f) && f == err,
            },
    {
        let (name, namespace, class_hash, address) = read_registered_fields(keys, data)?;
        Ok(EventRegistered { name, namespace, class_hash, address })
    }
}

/// A model was upgraded.
#[derive(Debug)]
pub struct ModelUpgraded {
    pub selector: Felt,
    pub class_hash: Felt,
    pub address: Felt,
    pub prev_address: Felt,
}

impl CairoEvent for ModelUpgraded {
    open spec fn readable(keys: Seq<Felt>, data: Seq<Felt>) -> bool {
        true
    }

    fn event_name() -> (n: &'static str)
        ensures
            n@ == "ModelUpgraded"@,
    {
        "ModelUpgraded"
    }

    fn deserialize_event(keys: &mut DojoSerde, data: &mut DojoSerde) -> (r: DecodeResult<Self>)
        ensures
            final(keys).felts() == read_upgraded(old(keys).felts(), old(data).felts()).keys,
            final(data).felts() == read_upgraded(old(keys).felts(), old(data).felts()).data,
            match read_upgraded(old(keys).felts(), old(data).felts()).result {
                Ok((s, c, a, p)) => r matches Ok(e) && e.selector == s && e.class_hash == c && e.address == a && e.prev_address == p,
                Err(err) => r matches Err(f) && f == err,
            },
    {
        let (selector, class_hash, address, prev_address) = read_upgraded_fields(keys, data)?;
        Ok(ModelUpgraded { selector, class_hash, address, prev_address })
    }
}

/// An event was upgraded.
#[derive(Debug)]
pub struct EventUpgraded {
    pub selector: Felt,
    pub class_hash: Felt,
    pub address: Felt,
    pub prev_address: Felt,
}

impl CairoEvent for EventUpgraded {
    open spec fn readable(keys: Seq<Felt>, data: Seq<Felt>) -> bool {
        true
    }

    fn event_name() -> (n: &'static str)
        ensures
            n@ == "EventUpgraded"@,
    {
        "EventUpgraded"
    }

    fn deserialize_event(keys: &mut DojoSerde, data: &mut DojoSerde) -> (r: DecodeResult<Self>)
        ensures
            final(keys).felts() == read_upgraded(old(keys).felts(), old(data).felts()).keys,
            final(data).felts() == read_upgraded(old(keys).felts(), old(data).felts()).data,
            match read_upgraded(old(keys).felts(), old(data).felts()).result {
                Ok((s, c, a, p)) => r matches Ok(e) && e.selector == s && e.class_hash == c && e.address == a && e.prev_address == p,
                Err(err) => r matches Err(f) && f == err,
            },
    {
        let (selector, class_hash, address, prev_address) = read_upgraded_fields(keys, data)?;
        Ok(EventUpgraded { selector, class_hash, address, prev_address })
    }
}

/// A record was set.
#[derive(Debug)]
pub struct StoreSetRecord {
    pub selector: Felt,
    pub entity_id: Felt,
    pub keys: Vec<Felt>,
    pub values: Vec<Felt>,
}

impl CairoEvent for StoreSetRecord {
    open spec fn readable(keys: Seq<Felt>, data: Seq<Felt>) -> bool {
        true
    }

    fn event_name() -> (n: &'static str)
        ensures
            n@ == "StoreSetRecord"@,
    {
        "StoreSetRecord"
    }

    fn deserialize_event(keys: &mut DojoSerde, data: &mut DojoSerde) -> (r: DecodeResult<Self>)
        ensures
            final(keys).felts() == read_keys_and_two_arrays(old(keys).felts(), old(data).felts()).keys,
            final(data).felts() == read_keys_and_two_arrays(old(keys).felts(), old(data).felts()).data,
            match read_keys_and_two_arrays(old(keys).felts(), old(data).felts()).result {
                Ok((a, b, x, y)) => r matches Ok(e) && e.selector == a && e.entity_id == b && e.keys@ == x && e.values@ == y,
                Err(err) => r matches Err(f) && f == err,
            },
    {
        let (selector, entity_id, record_keys, record_values) = read_record_fields(keys, data)?;
        Ok(StoreSetRecord { selector, entity_id, keys: record_keys, values: record_values })
    }
}

/// A record was updated.
#[derive(Debug)]
pub struct StoreUpdateRecord {
    pub selector: Felt,
    pub entity_id: Felt,
    pub values: Vec<Felt>,
}

impl CairoEvent for StoreUpdateRecord {
    open spec fn readable(keys: Seq<Felt>, data: Seq<Felt>) -> bool {
        true
    }

    fn event_name() -> (n: &'static str)
        ensures
            n@ == "StoreUpdateRecord"@,
    {
        "StoreUpdateRecord"
    }

    fn deserialize_event(keys: &mut DojoSerde, data: &mut DojoSerde) -> (r: DecodeResult<Self>)
        ensures
            final(keys).felts() == read_keys_and_array(old(keys).felts(), old(data).felts()).keys,
            final(data).felts() == read_keys_and_array(old(keys).felts(), old(data).felts()).data,
            match read_keys_and_array(old(keys).felts(), old(data).felts()).result {
                Ok((a, b, x)) => r matches Ok(e) && e.selector == a && e.entity_id == b && e.values@ == x,
                Err(err) => r matches Err(f) && f == err,
            },
    {
        let (selector, entity_id, values) = read_update_fields(keys, data)?;
        Ok(StoreUpdateRecord { selector, entity_id, values })
    }
}

/// A member of a record was updated.
#[derive(Debug)]
pub struct StoreUpdateMember {
    pub selector: Felt,
    pub entity_id: Felt,
    pub member_selector: Felt,
    pub values: Vec<Felt>,
}

impl CairoEvent for StoreUpdateMember {
    open spec fn readable(keys: Seq<Felt>, data: Seq<Felt>) -> bool {
        true
    }

    fn event_name() -> (n: &'static str)
        ensures
            n@ == "StoreUpdateMember"@,
    {
        "StoreUpdateMember"
    }

    fn deserialize_event(keys: &mut DojoSerde, data: &mut DojoSerde) -> (r: DecodeResult<Self>)
        ensures
            final(keys).felts() == read_three_keys_and_array(old(keys).felts(), old(data).felts()).keys,
            final(data).felts() == read_three_keys_and_array(old(keys).felts(), old(data).felts()).data,
            match read_three_keys_and_array(old(keys).felts(), old(data).felts()).result {
                Ok((a, b, c, x)) => r matches Ok(e) && e.selector == a && e.entity_id == b && e.member_selector == c && e.values@ == x,
                Err(err) => r matches Err(f) && f == err,
            },
    {
        let (selector, entity_id, member_selector, values) = read_member_update_fields(keys, data)?;
        Ok(StoreUpdateMember { selector, entity_id, member_selector, values })
    }
}

/// A record was deleted; the data is not read.
#[derive(Debug)]
pub struct StoreDelRecord {
    pub selector: Felt,
    pub entity_id: Felt,
}

impl CairoEvent for StoreDelRecord {
    open spec fn readable(keys: Seq<Felt>, data: Seq<Felt>) -> bool {
        true
    }

    fn event_name() -> (n: &'static str)
        ensures
            n@ == "StoreDelRecord"@,
    {
        "StoreDelRecord"
    }

    fn deserialize_event(keys: &mut DojoSerde, data: &mut DojoSerde) -> (r: DecodeResult<Self>)
        ensures
            final(keys).felts() == read_two_keys(old(keys).felts()).1,
            final(data).felts() == old(data).felts(),
            match read_two_keys(old(keys).felts()).0 {
                Ok((a, b)) => r matches Ok(e) && e.selector == a && e.entity_id == b,
                Err(err) => r matches Err(f) && f == err,
            },
    {
        let (selector, entity_id) = read_key_pair(keys)?;
        Ok(StoreDelRecord { selector, entity_id })
    }
}

/// A custom event was emitted.
#[derive(Debug)]
pub struct EventEmitted {
    pub selector: Felt,
    pub system_address: Felt,
    pub keys: Vec<Felt>,
    pub values: Vec<Felt>,
}

impl CairoEvent for EventEmitted {
    open spec fn readable(keys: Seq<Felt>, data: Seq<Felt>) -> bool {
        true
    }

    fn event_name() -> (n: &'static str)
        ensures
            n@ == "EventEmitted"@,
    {
        "EventEmitted"
    }

    fn deserialize_event(keys: &mut DojoSerde, data: &mut DojoSerde) -> (r: DecodeResult<Self>)
        ensures
            final(keys).felts() == read_keys_and_two_arrays(old(keys).felts(), old(data).felts()).keys,
            final(data).felts() == read_keys_and_two_arrays(old(keys).felts(), old(data).felts()).data,
            match read_keys_and_two_arrays(old(keys).felts(), old(data).felts()).result {
                Ok((a, b, x, y)) => r matches Ok(e) && e.selector == a && e.system_address == b && e.keys@ == x && e.values@ == y,
                Err(err) => r matches Err(f) && f == err,
            },
    {
        let (selector, system_address, event_keys, event_values) = read_record_fields(keys, data)?;
        Ok(EventEmitted { selector, system_address, keys: event_keys, values: event_values })
    }
}

/// A model was registered together with its schema.
#[derive(Debug)]
pub struct ModelWithSchemaRegistered {
    pub name: String,
    pub namespace: String,
    pub schema: DojoSchema,
}

impl CairoEvent for ModelWithSchemaRegistered {
    open spec fn readable(keys: Seq<Felt>, data: Seq<Felt>) -> bool {
        texts_readable(keys)
    }

    fn event_name() -> (n: &'static str)
        ensures
            n@ == "ModelWithSchemaRegistered"@,
    {
        "ModelWithSchemaRegistered"
    }

    /// The schema is read as legacy, and the data source's mode is kept.
    fn deserialize_event(keys: &mut DojoSerde, data: &mut DojoSerde) -> (r: DecodeResult<Self>)
        ensures
            final(keys).felts() == read_schema_registered(old(keys).felts(), old(data).felts()).keys,
            final(data).felts() == read_schema_registered(old(keys).felts(), old(data).felts()).data,
            match read_schema_registered(old(keys).felts(), old(data).felts()).result {
                Ok((n, s, v)) => r matches Ok(e) && e.name@ == n && e.namespace@ == s && e.schema.view() == v,
                Err(err) => r matches Err(f) && f == err,
            },
            final(data).is_legacy() == old(data).is_legacy(),
    {
        let name = keys.next_string()?;
        let namespace = keys.next_string()?;
        let mode = data.is_legacy_mode();
        data.set_legacy(true);
        let read = deserialize_schema(data);
        data.set_legacy(mode);
        let schema = read?;
        Ok(ModelWithSchemaRegistered { name, namespace, schema })
    }
}


// ---------------------------------------------------------------------------
// Laws of the event layouts.
// ---------------------------------------------------------------------------

/// A felt list is its length, then that many felts.
proof fn lemma_felt_list(d: Seq<Felt>)
    ensures
        read_felt_list(d).0 matches Ok(x) ==> d.len() >= 1 + x.len() && d[0]@ == x.len() && x == d.subrange(
            1,
            1 + x.len() as int,
        ) && read_felt_list(d).1 == d.skip(1 + x.len() as int),
        (d.len() > 0 && d[0]@ <= u32::MAX && d.len() >= 1 + d[0]@) ==> read_felt_list(d).0 is Ok,
{
    if d.len() > 0 && d[0]@ <= u32::MAX {
        let d1 = d.drop_first();
        if d[0]@ <= d1.len() {
            assert(d1.take(d[0]@ as int) =~= d.subrange(1, 1 + d[0]@ as int));
            assert(d1.skip(d[0]@ as int) =~= d.skip(1 + d[0]@ as int));
        }
    }
}

/// An upgrade takes the selector from the keys, then class hash, address and
/// previous address from the data, in that order.
pub proof fn law_upgrade_layout(keys: Seq<Felt>, data: Seq<Felt>)
    ensures
        (read_upgraded(keys, data).result is Ok) == (keys.len() >= 1 && data.len() >= 3),
        read_upgraded(keys, data).result matches Ok((s, c, a, p)) ==> s == keys[0] && c == data[0] && a
            == data[1] && p == data[2] && read_upgraded(keys, data).keys == keys.skip(1)
            && read_upgraded(keys, data).data == data.skip(3),
{
    if keys.len() >= 1 && data.len() >= 3 {
        assert(data.drop_first().drop_first().drop_first() =~= data.skip(3));
        assert(keys.drop_first() =~= keys.skip(1));
    }
}

/// A removal takes the model selector and the entity id from the keys.
pub proof fn law_two_keys_layout(keys: Seq<Felt>)
    ensures
        (read_two_keys(keys).0 is Ok) == (keys.len() >= 2),
        read_two_keys(keys).0 matches Ok((s, e)) ==> s == keys[0] && e == keys[1] && read_two_keys(keys).1
            == keys.skip(2),
{
    if keys.len() >= 2 {
        assert(keys.drop_first().drop_first() =~= keys.skip(2));
    }
}

/// A set record (and an emitted event) takes the selector and a second felt
/// from the keys, then two arrays from the data, each its length followed by
/// its felts: the first array is the record's keys, the second its values.
pub proof fn law_record_layout(keys: Seq<Felt>, data: Seq<Felt>)
    ensures
        read_keys_and_two_arrays(keys, data).result matches Ok((s, e, x, y)) ==> {
            &&& keys.len() >= 2 && s == keys[0] && e == keys[1]
            &&& data.len() >= 2 + x.len() + y.len()
            &&& data[0]@ == x.len() && x == data.subrange(1, 1 + x.len() as int)
            &&& data[1 + x.len() as int]@ == y.len()
            &&& y == data.subrange(2 + x.len() as int, 2 + x.len() + y.len() as int)
            &&& read_keys_and_two_arrays(keys, data).keys == keys.skip(2)
            &&& read_keys_and_two_arrays(keys, data).data == data.skip(2 + x.len() + y.len() as int)
        },
        (keys.len() >= 2 && data.len() > 0 && data[0]@ <= u32::MAX && data.len() >= 2 + data[0]@ && data[1
            + data[0]@ as int]@ <= u32::MAX && data.len() >= 2 + data[0]@ + data[1 + data[0]@ as int]@)
            ==> read_keys_and_two_arrays(keys, data).result is Ok,
{
    law_two_keys_layout(keys);
    lemma_felt_list(data);
    if let (Ok(x), d1) = read_felt_list(data) {
        lemma_felt_list(d1);
        if let (Ok(y), d2) = read_felt_list(d1) {
            assert(d1[0] == data[1 + x.len() as int]);
            assert(d1.subrange(1, 1 + y.len() as int) =~= data.subrange(
                2 + x.len() as int,
                2 + x.len() + y.len() as int,
            ));
            assert(d1.skip(1 + y.len() as int) =~= data.skip(2 + x.len() + y.len() as int));
        }
    }
    if data.len() > 0 && data[0]@ <= u32::MAX && data.len() >= 2 + data[0]@ {
        let d1 = data.skip(1 + data[0]@ as int);
        assert(d1[0] == data[1 + data[0]@ as int]);
        lemma_felt_list(d1);
    }
}

/// An update takes the selector and the entity id from the keys, then one
/// array of values from the data: its length followed by its felts.
pub proof fn law_update_layout(keys: Seq<Felt>, data: Seq<Felt>)
    ensures
        read_keys_and_array(keys, data).result matches Ok((s, e, x)) ==> {
            &&& keys.len() >= 2 && s == keys[0] && e == keys[1]
            &&& data.len() >= 1 + x.len()
            &&& data[0]@ == x.len() && x == data.subrange(1, 1 + x.len() as int)
            &&& read_keys_and_array(keys, data).data == data.skip(1 + x.len() as int)
        },
        (keys.len() >= 2 && data.len() > 0 && data[0]@ <= u32::MAX && data.len() >= 1 + data[0]@)
            ==> read_keys_and_array(keys, data).result is Ok,
{
    law_two_keys_layout(keys);
    lemma_felt_list(data);
}

/// A member update takes the selector, the entity id and the member selector
/// from the keys, then one array of values from the data.
pub proof fn law_member_update_layout(keys: Seq<Felt>, data: Seq<Felt>)
    ensures
        read_three_keys_and_array(keys, data).result matches Ok((s, e, m, x)) ==> {
            &&& keys.len() >= 3 && s == keys[0] && e == keys[1] && m == keys[2]
            &&& data.len() >= 1 + x.len()
            &&& data[0]@ == x.len() && x == data.subrange(1, 1 + x.len() as int)
        },
        (keys.len() >= 3 && data.len() > 0 && data[0]@ <= u32::MAX && data.len() >= 1 + data[0]@)
            ==> read_three_keys_and_array(keys, data).result is Ok,
{
    law_two_keys_layout(keys);
    lemma_felt_list(data);
    if keys.len() >= 3 {
        assert(keys.skip(2)[0] == keys[2]);
    }
}

/// A registration takes the name, then the namespace, as the texts of the
/// two byte arrays at the front of the keys, and the class hash, then the
/// address, from the data.
pub proof fn law_registered_layout(keys: Seq<Felt>, data: Seq<Felt>)
    ensures
        read_registered(keys, data).result matches Ok((n, s, c, a)) ==> {
            &&& byte_array_text(keys) == Some(n)
            &&& byte_array_text(keys.skip(byte_array_width(keys) as int)) == Some(s)
            &&& data.len() >= 2 && c == data[0] && a == data[1]
            &&& read_registered(keys, data).data == data.skip(2)
        },
{
    if data.len() >= 2 {
        assert(data.drop_first().drop_first() =~= data.skip(2));
    }
}

// ---------------------------------------------------------------------------
// Each event is a `DojoEvent`.
// ---------------------------------------------------------------------------
impl From<ModelRegistered> for DojoEvent {
    fn from(value: ModelRegistered) -> (r: DojoEvent) {
        DojoEvent::ModelRegistered(value)
    }
}

impl vstd::std_specs::convert::FromSpecImpl<ModelRegistered> for DojoEvent {
    open spec fn obeys_from_spec() -> bool {
        true
    }

    open spec fn from_spec(v: ModelRegistered) -> DojoEvent {
        DojoEvent::ModelRegistered(v)
    }
}

impl From<ModelWithSchemaRegistered> for DojoEvent {
    fn from(value: ModelWithSchemaRegistered) -> (r: DojoEvent) {
        DojoEvent::ModelWithSchemaRegistered(value)
    }
}

impl vstd::std_specs::convert::FromSpecImpl<ModelWithSchemaRegistered> for DojoEvent {
    open spec fn obeys_from_spec() -> bool {
        true
    }

    open spec fn from_spec(v: ModelWithSchemaRegistered) -> DojoEvent {
        DojoEvent::ModelWithSchemaRegistered(v)
    }
}

impl From<ModelUpgraded> for DojoEvent {
    fn from(value: ModelUpgraded) -> (r: DojoEvent) {
        DojoEvent::ModelUpgraded(value)
    }
}

impl vstd::std_specs::convert::FromSpecImpl<ModelUpgraded> for DojoEvent {
    open spec fn obeys_from_spec() -> bool {
        true
    }

    open spec fn from_spec(v: ModelUpgraded) -> DojoEvent {
        DojoEvent::ModelUpgraded(v)
    }
}

impl From<EventRegistered> for DojoEvent {
    fn from(value: EventRegistered) -> (r: DojoEvent) {
        DojoEvent::EventRegistered(value)
    }
}

impl vstd::std_specs::convert::FromSpecImpl<EventRegistered> for DojoEvent {
    open spec fn obeys_from_spec() -> bool {
        true
    }

    open spec fn from_spec(v: EventRegistered) -> DojoEvent {
        DojoEvent::EventRegistered(v)
    }
}

impl From<EventUpgraded> for DojoEvent {
    fn from(value: EventUpgraded) -> (r: DojoEvent) {
        DojoEvent::EventUpgraded(value)
    }
}

impl vstd::std_specs::convert::FromSpecImpl<EventUpgraded> for DojoEvent {
    open spec fn obeys_from_spec() -> bool {
        true
    }

    open spec fn from_spec(v: EventUpgraded) -> DojoEvent {
        DojoEvent::EventUpgraded(v)
    }
}

impl From<StoreSetRecord> for DojoEvent {
    fn from(value: StoreSetRecord) -> (r: DojoEvent) {
        DojoEvent::StoreSetRecord(value)
    }
}

impl vstd::std_specs::convert::FromSpecImpl<StoreSetRecord> for DojoEvent {
    open spec fn obeys_from_spec() -> bool {
        true
    }

    open spec fn from_spec(v: StoreSetRecord) -> DojoEvent {
        DojoEvent::StoreSetRecord(v)
    }
}

impl From<StoreUpdateRecord> for DojoEvent {
    fn from(value: StoreUpdateRecord) -> (r: DojoEvent) {
        DojoEvent::StoreUpdateRecord(value)
    }
}

impl vstd::std_specs::convert::FromSpecImpl<StoreUpdateRecord> for DojoEvent {
    open spec fn obeys_from_spec() -> bool {
        true
    }

    open spec fn from_spec(v: StoreUpdateRecord) -> DojoEvent {
        DojoEvent::StoreUpdateRecord(v)
    }
}

impl From<StoreUpdateMember> for DojoEvent {
    fn from(value: StoreUpdateMember) -> (r: DojoEvent) {
        DojoEvent::StoreUpdateMember(value)
    }
}

impl vstd::std_specs::convert::FromSpecImpl<StoreUpdateMember> for DojoEvent {
    open spec fn obeys_from_spec() -> bool {
        true
    }

    open spec fn from_spec(v: StoreUpdateMember) -> DojoEvent {
        DojoEvent::StoreUpdateMember(v)
    }
}

impl From<StoreDelRecord> for DojoEvent {
    fn from(value: StoreDelRecord) -> (r: DojoEvent) {
        DojoEvent::StoreDelRecord(value)
    }
}

impl vstd::std_specs::convert::FromSpecImpl<StoreDelRecord> for DojoEvent {
    open spec fn obeys_from_spec() -> bool {
        true
    }

    open spec fn from_spec(v: StoreDelRecord) -> DojoEvent {
        DojoEvent::StoreDelRecord(v)
    }
}

impl From<EventEmitted> for DojoEvent {
    fn from(value: EventEmitted) -> (r: DojoEvent) {
        DojoEvent::EventEmitted(value)
    }
}

impl vstd::std_specs::convert::FromSpecImpl<EventEmitted> for DojoEvent {
    open spec fn obeys_from_spec() -> bool {
        true
    }

    open spec fn from_spec(v: EventEmitted) -> DojoEvent {
        DojoEvent::EventEmitted(v)
    }
}

} // verus!
