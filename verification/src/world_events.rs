//! World events read from the raw keys and data felts of a Starknet event;
//! an event is read only when its keys and data are used up exactly.
use vstd::prelude::*;
use crate::codec::{byte_array_readable, byte_array_readable_exec, byte_array_text, byte_array_width};
use crate::felt::Felt;
use crate::outside::{decode_byte_array, entry_point_selector, selector_from_name};

verus! {

/// A world event of any kind.
pub enum DojoEvents {
    ModelRegistered(ModelRegistered),
    ModelWithSchemaRegistered(ModelWithSchemaRegistered),
    ModelUpgraded(ModelUpgraded),
    EventRegistered(EventRegistered),
    EventUpgraded(EventUpgraded),
    StoreSetRecord(StoreSetRecord),
    StoreUpdateRecord(StoreUpdateRecord),
    StoreUpdateMember(StoreUpdateMember),
    StoreDelRecord(StoreDelRecord),
    EventEmitted(EventEmitted),
}

/// The text of the byte array at the front of `d`, and the felts after it.
pub open spec fn read_text(d: Seq<Felt>) -> Option<(Seq<char>, Seq<Felt>)> {
    match byte_array_text(d) {
        Some(t) => Some((t, d.skip(byte_array_width(d) as int))),
        None => None,
    }
}

/// Reading two texts from `keys` does not overrun the byte-array reader.
pub open spec fn two_texts_readable(keys: Seq<Felt>) -> bool {
    &&& byte_array_readable(keys)
    &&& read_text(keys) matches Some((_, k1)) ==> byte_array_readable(k1)
}

/// Two texts at the front of `keys`, and the felts after them.
pub open spec fn read_two_texts(keys: Seq<Felt>) -> Option<(Seq<char>, Seq<char>, Seq<Felt>)> {
    match read_text(keys) {
        Some((a, k1)) => match read_text(k1) {
            Some((b, k2)) => Some((a, b, k2)),
            None => None,
        },
        None => None,
    }
}

/// A length-prefixed array of felts at the front of `d`, and the felts after it.
pub open spec fn read_felt_array(d: Seq<Felt>) -> Option<(Seq<Felt>, Seq<Felt>)> {
    if d.len() == 0 || d[0]@ > usize::MAX || d.len() < d[0]@ + 1 {
        None
    } else {
        Some((d.subrange(1, d[0]@ + 1int), d.skip(d[0]@ + 1int)))
    }
}

/// The text of the byte array at the front of `data`, with the number of felts it takes.
fn decode_byte_array_to_string(data: &[Felt]) -> (r: Option<(String, usize)>)
    requires
        byte_array_readable(data@),
    ensures
        match read_text(data@) {
            Some((t, rest)) => r matches Some((s, w)) && s@ == t && w <= data@.len()
                && rest == data@.skip(w as int),
            None => r is None,
        },
{
    let s = decode_byte_array(data)?;
    let len = match data[0].to_usize() {
        Some(l) => l,
        None => return None,
    };
    Some((s, len + 3))
}

/// A length-prefixed array of felts at `pos`, with the position after it.
fn read_serialized_felt_array(data: &[Felt], pos: usize) -> (r: Option<(Vec<Felt>, usize)>)
    requires
        pos <= data@.len(),
    ensures
        match read_felt_array(data@.skip(pos as int)) {
            Some((a, rest)) => r matches Some((v, p)) && v@ == a && pos <= p <= data@.len()
                && rest == data@.skip(p as int),
            None => r is None,
        },
{
    if pos == data.len() {
        return None;
    }
    let len = match data[pos].to_usize() {
        Some(l) => l,
        None => return None,
    };
    if data.len() - pos - 1 < len {
        return None;
    }
    let mut out: Vec<Felt> = Vec::new();
    let mut i: usize = 0;
    while i < len
        invariant
            i <= len,
            pos + 1 + len <= data.len(),
            out@ == data@.subrange(pos + 1, pos + 1 + i),
        decreases len - i,
    {
        out.push(data[pos + 1 + i]);
        i += 1;
        proof {
            assert(out@ =~= data@.subrange(pos + 1, pos + 1 + i));
        }
    }
    proof {
        assert(data@.skip(pos as int).subrange(1, len + 1) =~= data@.subrange(pos + 1, pos + 1 + len));
        assert(data@.skip(pos as int).skip(len + 1) =~= data@.skip(pos + 1 + len));
    }
    Some((out, pos + 1 + len))
}

/// Whether reading two texts from `keys` stays within what the byte-array
/// reader allocates or slices: the condition under which the registration
/// events can be read.
pub fn two_texts_readable_exec(keys: &[Felt]) -> (b: bool)
    ensures
        b == two_texts_readable(keys@),
{
    if !byte_array_readable_exec(keys) {
        return false;
    }
    match decode_byte_array_to_string(keys) {
        None => true,
        Some((_, w)) => {
            let tail = &keys[w..keys.len()];
            proof {
                assert(tail@ =~= keys@.skip(w as int));
            }
            byte_array_readable_exec(tail)
        },
    }
}

/// Two texts at the front of `keys`, with the number of felts they take.
fn read_texts(keys: &[Felt]) -> (r: Option<(String, String, usize)>)
    requires
        two_texts_readable(keys@),
    ensures
        match read_two_texts(keys@) {
            Some((a, b, rest)) => r matches Some((x, y, w)) && x@ == a && y@ == b
                && w <= keys@.len() && rest == keys@.skip(w as int),
            None => r is None,
        },
{
    let (name, w1) = decode_byte_array_to_string(keys)?;
    let tail = &keys[w1..keys.len()];
    proof {
        assert(tail@ =~= keys@.skip(w1 as int));
    }
    let (namespace, w2) = decode_byte_array_to_string(tail)?;
    proof {
        assert(tail@.skip(w2 as int) =~= keys@.skip(w1 + w2));
    }
    Some((name, namespace, w1 + w2))
}

/// A world event read from the keys and data of a Starknet event.
pub trait DojoEvent: Sized {
    /// Reading these keys and data does not panic.
    spec fn readable(keys: Seq<Felt>, data: Seq<Felt>) -> bool;

    /// The selector of the event's name.
    fn selector() -> Felt;

    fn new(keys: Vec<Felt>, data: Vec<Felt>) -> Option<Self>
        requires
            Self::readable(keys@, data@),
    ;
}

/// The selector of an event's name, computed as `starknet`'s `selector!` does.
fn event_selector(name: &str) -> (f: Felt)
    requires
        vstd::utf8::is_ascii_chars(name@),
    ensures
        f@ == entry_point_selector(name@),
{
    match selector_from_name(name) {
        Some(f) => f,
        None => Felt::zero(),
    }
}

/// The fields of a registration: name and namespace texts in the keys,
/// class hash and address in the data, and nothing more.
pub open spec fn registered_fields(keys: Seq<Felt>, data: Seq<Felt>) -> Option<(Seq<char>, Seq<char>, Felt, Felt)> {
    match read_two_texts(keys) {
        Some((name, namespace, rest)) => if rest.len() == 0 && data.len() == 2 {
            Some((name, namespace, data[0], data[1]))
        } else {
            None
        },
        None => None,
    }
}

/// The fields of an upgrade: the selector as the only key, then class hash,
/// address and previous address as the only data.
pub open spec fn upgraded_fields(keys: Seq<Felt>, data: Seq<Felt>) -> Option<(Felt, Felt, Felt, Felt)> {
    if keys.len() == 1 && data.len() == 3 {
        Some((keys[0], data[0], data[1], data[2]))
    } else {
        None
    }
}

/// Reads a registration.
fn read_registered(keys: &Vec<Felt>, data: &Vec<Felt>) -> (r: Option<(String, String, Felt, Felt)>)
    requires
        two_texts_readable(keys@),
    ensures
        match registered_fields(keys@, data@) {
            Some((n, s, c, a)) => r matches Some((x, y, z, w)) && x@ == n && y@ == s && z == c && w == a,
            None => r is None,
        },
{
    let (name, namespace, w) = read_texts(keys.as_slice())?;
    if w == keys.len() && data.len() == 2 {
        Some((name, namespace, data[0], data[1]))
    } else {
        None
    }
}

/// Reads an upgrade.
fn read_upgraded(keys: &Vec<Felt>, data: &Vec<Felt>) -> (r: Option<(Felt, Felt, Felt, Felt)>)
    ensures
        r == upgraded_fields(keys@, data@),
{
    if keys.len() == 1 && data.len() == 3 {
        Some((keys[0], data[0], data[1], data[2]))
    } else {
        None
    }
}

/// A model was registered.
pub struct ModelRegistered {
    pub name: String,
    pub namespace: String,
    pub class_hash: Felt,
    pub address: Felt,
}

impl DojoEvent for ModelRegistered {
    open spec fn readable(keys: Seq<Felt>, data: Seq<Felt>) -> bool {
        two_texts_readable(keys)
    }

    fn selector() -> (f: Felt)
        ensures
            f@ == entry_point_selector("ModelRegistered"@),
    {
        proof {
            reveal_strlit("ModelRegistered");
        }
        event_selector("ModelRegistered")
    }

    fn new(keys: Vec<Felt>, data: Vec<Felt>) -> (r: Option<Self>)
        ensures
            match registered_fields(keys@, data@) {
                Some((n, s, c, a)) => r matches Some(e) && e.name@ == n && e.namespace@ == s
                    && e.class_hash == c && e.address == a,
                None => r is None,
            },
    {
        let (name, namespace, class_hash, address) = read_registered(&keys, &data)?;
        Some(ModelRegistered { name, namespace, class_hash, address })
    }
}


/// A model was registered together with its schema felts.
pub struct ModelWithSchemaRegistered {
    pub name: String,
    pub namespace: String,
    pub schema: Vec<Felt>,
}

/// The fields of a registration with schema: name and namespace texts in the
/// keys, a length-prefixed schema array as the whole data.
pub open spec fn schema_registered_fields(keys: Seq<Felt>, data: Seq<Felt>) -> Option<(Seq<char>, Seq<char>, Seq<Felt>)> {
    match read_two_texts(keys) {
        Some((name, namespace, rest)) => match read_felt_array(data) {
            Some((schema, drest)) => if rest.len() == 0 && drest.len() == 0 {
                Some((name, namespace, schema))
            } else {
                None
            },
            None => None,
        },
        None => None,
    }
}

impl DojoEvent for ModelWithSchemaRegistered {
    open spec fn readable(keys: Seq<Felt>, data: Seq<Felt>) -> bool {
        two_texts_readable(keys)
    }

    fn selector() -> (f: Felt)
        ensures
            f@ == entry_point_selector("ModelWithSchemaRegistered"@),
    {
        proof {
            reveal_strlit("ModelWithSchemaRegistered");
        }
        event_selector("ModelWithSchemaRegistered")
    }

    fn new(keys: Vec<Felt>, data: Vec<Felt>) -> (r: Option<Self>)
        ensures
            match schema_registered_fields(keys@, data@) {
                Some((n, s, a)) => r matches Some(e) && e.name@ == n && e.namespace@ == s && e.schema@ == a,
                None => r is None,
            },
    {
        let (name, namespace, w) = read_texts(keys.as_slice())?;
        let (schema, p) = read_serialized_felt_array(data.as_slice(), 0)?;
        proof {
            assert(data@.skip(0) =~= data@);
        }
        if w == keys.len() && p == data.len() {
            Some(ModelWithSchemaRegistered { name, namespace, schema })
        } else {
            None
        }
    }
}

/// A model was upgraded.
pub struct ModelUpgraded {
    pub selector: Felt,
    pub class_hash: Felt,
    pub address: Felt,
    pub prev_address: Felt,
}

impl DojoEvent for ModelUpgraded {
    open spec fn readable(keys: Seq<Felt>, data: Seq<Felt>) -> bool {
        true
    }

    fn selector() -> (f: Felt)
        ensures
            f@ == entry_point_selector("ModelUpgraded"@),
    {
        proof {
            reveal_strlit("ModelUpgraded");
        }
        event_selector("ModelUpgraded")
    }

    fn new(keys: Vec<Felt>, data: Vec<Felt>) -> (r: Option<Self>)
        ensures
            match upgraded_fields(keys@, data@) {
                Some((s, c, a, p)) => r matches Some(e) && e.selector == s && e.class_hash == c
                    && e.address == a && e.prev_address == p,
                None => r is None,
            },
    {
        let (selector, class_hash, address, prev_address) = read_upgraded(&keys, &data)?;
        Some(ModelUpgraded { selector, class_hash, address, prev_address })
    }
}

/// An event was registered.
pub struct EventRegistered {
    pub name: String,
    pub namespace: String,
    pub class_hash: Felt,
    pub address: Felt,
}

impl DojoEvent for EventRegistered {
    open spec fn readable(keys: Seq<Felt>, data: Seq<Felt>) -> bool {
        two_texts_readable(keys)
    }

    fn selector() -> (f: Felt)
        ensures
            f@ == entry_point_selector("EventRegistered"@),
    {
        proof {
            reveal_strlit("EventRegistered");
        }
        event_selector("EventRegistered")
    }

    fn new(keys: Vec<Felt>, data: Vec<Felt>) -> (r: Option<Self>)
        ensures
            match registered_fields(keys@, data@) {
                Some((n, s, c, a)) => r matches Some(e) && e.name@ == n && e.namespace@ == s
                    && e.class_hash == c && e.address == a,
                None => r is None,
            },
    {
        let (name, namespace, class_hash, address) = read_registered(&keys, &data)?;
        Some(EventRegistered { name, namespace, class_hash, address })
    }
}

/// An event was upgraded.
pub struct EventUpgraded {
    pub selector: Felt,
    pub class_hash: Felt,
    pub address: Felt,
    pub prev_address: Felt,
}

impl DojoEvent for EventUpgraded {
    open spec fn readable(keys: Seq<Felt>, data: Seq<Felt>) -> bool {
        true
    }

    fn selector() -> (f: Felt)
        ensures
            f@ == entry_point_selector("EventUpgraded"@),
    {
        proof {
            reveal_strlit("EventUpgraded");
        }
        event_selector("EventUpgraded")
    }

    fn new(keys: Vec<Felt>, data: Vec<Felt>) -> (r: Option<Self>)
        ensures
            match upgraded_fields(keys@, data@) {
                Some((s, c, a, p)) => r matches Some(e) && e.selector == s && e.class_hash == c
                    && e.address == a && e.prev_address == p,
                None => r is None,
            },
    {
        let (selector, class_hash, address, prev_address) = read_upgraded(&keys, &data)?;
        Some(EventUpgraded { selector, class_hash, address, prev_address })
    }
}

/// Two length-prefixed arrays that make up the whole data.
pub open spec fn two_arrays(data: Seq<Felt>) -> Option<(Seq<Felt>, Seq<Felt>)> {
    match read_felt_array(data) {
        Some((a, d1)) => match read_felt_array(d1) {
            Some((b, d2)) => if d2.len() == 0 {
                Some((a, b))
            } else {
                None
            },
            None => None,
        },
        None => None,
    }
}

/// One length-prefixed array that makes up the whole data.
pub open spec fn one_array(data: Seq<Felt>) -> Option<Seq<Felt>> {
    match read_felt_array(data) {
        Some((a, d1)) => if d1.len() == 0 {
            Some(a)
        } else {
            None
        },
        None => None,
    }
}

/// Reads two arrays that make up the whole data.
fn read_two_arrays(data: &Vec<Felt>) -> (r: Option<(Vec<Felt>, Vec<Felt>)>)
    ensures
        match two_arrays(data@) {
            Some((a, b)) => r matches Some((x, y)) && x@ == a && y@ == b,
            None => r is None,
        },
{
    proof {
        assert(data@.skip(0) =~= data@);
    }
    let (a, p) = read_serialized_felt_array(data.as_slice(), 0)?;
    let (b, q) = read_serialized_felt_array(data.as_slice(), p)?;
    if q == data.len() {
        Some((a, b))
    } else {
        None
    }
}

/// Reads one array that makes up the whole data.
fn read_one_array(data: &Vec<Felt>) -> (r: Option<Vec<Felt>>)
    ensures
        match one_array(data@) {
            Some(a) => r matches Some(x) && x@ == a,
            None => r is None,
        },
{
    proof {
        assert(data@.skip(0) =~= data@);
    }
    let (a, p) = read_serialized_felt_array(data.as_slice(), 0)?;
    if p == data.len() {
        Some(a)
    } else {
        None
    }
}

/// A record was set: model selector and entity in the keys, record keys
/// and values as two arrays in the data.
pub struct StoreSetRecord {
    pub selector: Felt,
    pub entity_id: Felt,
    pub keys: Vec<Felt>,
    pub values: Vec<Felt>,
}

impl DojoEvent for StoreSetRecord {
    open spec fn readable(keys: Seq<Felt>, data: Seq<Felt>) -> bool {
        true
    }

    fn selector() -> (f: Felt)
        ensures
            f@ == entry_point_selector("StoreSetRecord"@),
    {
        proof {
            reveal_strlit("StoreSetRecord");
        }
        event_selector("StoreSetRecord")
    }

    fn new(keys: Vec<Felt>, data: Vec<Felt>) -> (r: Option<Self>)
        ensures
            r is Some <==> keys@.len() == 2 && two_arrays(data@) is Some,
            r matches Some(e) ==> e.selector == keys@[0] && e.entity_id == keys@[1]
                && e.keys@ == two_arrays(data@).unwrap().0 && e.values@ == two_arrays(data@).unwrap().1,
    {
        if keys.len() != 2 {
            return None;
        }
        let (record_keys, record_values) = read_two_arrays(&data)?;
        Some(StoreSetRecord { selector: keys[0], entity_id: keys[1], keys: record_keys, values: record_values })
    }
}

/// A record was updated: model selector and entity in the keys, the values
/// as one array in the data.
pub struct StoreUpdateRecord {
    pub selector: Felt,
    pub entity_id: Felt,
    pub values: Vec<Felt>,
}

impl DojoEvent for StoreUpdateRecord {
    open spec fn readable(keys: Seq<Felt>, data: Seq<Felt>) -> bool {
        true
    }

    fn selector() -> (f: Felt)
        ensures
            f@ == entry_point_selector("StoreUpdateRecord"@),
    {
        proof {
            reveal_strlit("StoreUpdateRecord");
        }
        event_selector("StoreUpdateRecord")
    }

    fn new(keys: Vec<Felt>, data: Vec<Felt>) -> (r: Option<Self>)
        ensures
            r is Some <==> keys@.len() == 2 && one_array(data@) is Some,
            r matches Some(e) ==> e.selector == keys@[0] && e.entity_id == keys@[1]
                && e.values@ == one_array(data@).unwrap(),
    {
        if keys.len() != 2 {
            return None;
        }
        let values = read_one_array(&data)?;
        Some(StoreUpdateRecord { selector: keys[0], entity_id: keys[1], values })
    }
}

/// A member of a record was updated: model selector, entity and member
/// selector in the keys, the values as one array in the data.
pub struct StoreUpdateMember {
    pub selector: Felt,
    pub entity_id: Felt,
    pub member_selector: Felt,
    pub values: Vec<Felt>,
}

impl DojoEvent for StoreUpdateMember {
    open spec fn readable(keys: Seq<Felt>, data: Seq<Felt>) -> bool {
        true
    }

    fn selector() -> (f: Felt)
        ensures
            f@ == entry_point_selector("StoreUpdateMember"@),
    {
        proof {
            reveal_strlit("StoreUpdateMember");
        }
        event_selector("StoreUpdateMember")
    }

    fn new(keys: Vec<Felt>, data: Vec<Felt>) -> (r: Option<Self>)
        ensures
            r is Some <==> keys@.len() == 3 && one_array(data@) is Some,
            r matches Some(e) ==> e.selector == keys@[0] && e.entity_id == keys@[1]
                && e.member_selector == keys@[2] && e.values@ == one_array(data@).unwrap(),
    {
        if keys.len() != 3 {
            return None;
        }
        let values = read_one_array(&data)?;
        Some(StoreUpdateMember { selector: keys[0], entity_id: keys[1], member_selector: keys[2], values })
    }
}

/// A record was deleted: model selector and entity are the only keys, and
/// there is no data.
pub struct StoreDelRecord {
    pub selector: Felt,
    pub entity_id: Felt,
}

impl DojoEvent for StoreDelRecord {
    open spec fn readable(keys: Seq<Felt>, data: Seq<Felt>) -> bool {
        true
    }

    fn selector() -> (f: Felt)
        ensures
            f@ == entry_point_selector("StoreDelRecord"@),
    {
        proof {
            reveal_strlit("StoreDelRecord");
        }
        event_selector("StoreDelRecord")
    }

    fn new(keys: Vec<Felt>, data: Vec<Felt>) -> (r: Option<Self>)
        ensures
            r is Some <==> keys@.len() == 2 && data@.len() == 0,
            r matches Some(e) ==> e.selector == keys@[0] && e.entity_id == keys@[1],
    {
        if keys.len() == 2 && data.len() == 0 {
            Some(StoreDelRecord { selector: keys[0], entity_id: keys[1] })
        } else {
            None
        }
    }
}

/// A custom event was emitted: event selector and emitting system in the
/// keys, the event's keys and values as two arrays in the data.
pub struct EventEmitted {
    pub selector: Felt,
    pub system_address: Felt,
    pub keys: Vec<Felt>,
    pub values: Vec<Felt>,
}

impl DojoEvent for EventEmitted {
    open spec fn readable(keys: Seq<Felt>, data: Seq<Felt>) -> bool {
        true
    }

    fn selector() -> (f: Felt)
        ensures
            f@ == entry_point_selector("EventEmitted"@),
    {
        proof {
            reveal_strlit("EventEmitted");
        }
        event_selector("EventEmitted")
    }

    fn new(keys: Vec<Felt>, data: Vec<Felt>) -> (r: Option<Self>)
        ensures
            r is Some <==> keys@.len() == 2 && two_arrays(data@) is Some,
            r matches Some(e) ==> e.selector == keys@[0] && e.system_address == keys@[1]
                && e.keys@ == two_arrays(data@).unwrap().0 && e.values@ == two_arrays(data@).unwrap().1,
    {
        if keys.len() != 2 {
            return None;
        }
        let (event_keys, event_values) = read_two_arrays(&data)?;
        Some(EventEmitted { selector: keys[0], system_address: keys[1], keys: event_keys, values: event_values })
    }
}

/// The data of a set record or an emitted event is exactly two arrays, each
/// its length followed by its felts: the first array, then the second.
pub proof fn law_two_arrays_layout(data: Seq<Felt>, x: Seq<Felt>, y: Seq<Felt>)
    requires
        data.len() <= usize::MAX,
    ensures
        (two_arrays(data) == Some((x, y))) <==> {
            &&& data.len() == 2 + x.len() + y.len()
            &&& data[0]@ == x.len() && data.subrange(1, 1 + x.len() as int) == x
            &&& data[1 + x.len() as int]@ == y.len()
            &&& data.subrange(2 + x.len() as int, data.len() as int) == y
        },
{
    if data.len() == 2 + x.len() + y.len() && data[0]@ == x.len() && data.subrange(1, 1 + x.len() as int) == x
        && data[1 + x.len() as int]@ == y.len() && data.subrange(2 + x.len() as int, data.len() as int) == y {
        let d1 = data.skip(1 + x.len() as int);
        assert(d1[0] == data[1 + x.len() as int]);
        assert(d1.subrange(1, 1 + y.len() as int) =~= y);
        assert(d1.skip(1 + y.len() as int).len() == 0);
    }
    if two_arrays(data) == Some((x, y)) {
        let d1 = data.skip(data[0]@ + 1int);
        assert(d1[0] == data[1 + x.len() as int]);
        assert(d1.subrange(1, d1[0]@ + 1int) =~= data.subrange(2 + x.len() as int, data.len() as int));
    }
}

/// The data of an update is exactly one array: its length followed by its felts.
pub proof fn law_one_array_layout(data: Seq<Felt>, x: Seq<Felt>)
    requires
        data.len() <= usize::MAX,
    ensures
        (one_array(data) == Some(x)) <==> (data.len() == 1 + x.len() && data[0]@ == x.len()
            && data.subrange(1, data.len() as int) == x),
{
}

/// A registration is the name, then the namespace, as the texts of the two
/// byte arrays that make up the keys, and the class hash, then the address,
/// as the only two data felts.
pub proof fn law_registered_fields_layout(keys: Seq<Felt>, data: Seq<Felt>)
    ensures
        registered_fields(keys, data) matches Some((n, s, c, a)) ==> {
            &&& byte_array_text(keys) == Some(n)
            &&& byte_array_text(keys.skip(byte_array_width(keys) as int)) == Some(s)
            &&& data.len() == 2 && c == data[0] && a == data[1]
        },
{
}

} // verus!
