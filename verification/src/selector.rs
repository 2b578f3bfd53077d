//! Selectors of Dojo world elements, computed from their namespace and name.
use vstd::prelude::*;
use vstd::utf8::encode_utf8;
use crate::codec::{byte_array_serialization, split_chars};
use crate::error::{DojoIntrospectError, DojoIntrospectResult};
use crate::felt::Felt;
use crate::outside::{byte_array_felts, poseidon_hash, poseidon_hash_many, split_on};

verus! {

/// The character between the namespace and the name in a tag.
pub const TAG_SEPARATOR: char = '-';

/// The Poseidon hash of the Cairo `ByteArray` serialization of a text.
pub open spec fn bytearray_hash(s: Seq<char>) -> nat {
    poseidon_hash_many(byte_array_serialization(encode_utf8(s)))
}

/// The selector of the element `name` in `namespace`: the Poseidon hash of
/// the two byte-array hashes.
pub open spec fn namespace_name_selector(namespace: Seq<char>, name: Seq<char>) -> nat {
    poseidon_hash_many(seq![bytearray_hash(namespace), bytearray_hash(name)])
}

/// The namespace and name of a tag: the two pieces around its only separator.
pub open spec fn tag_parts(tag: Seq<char>) -> Option<(Seq<char>, Seq<char>)> {
    let parts = split_chars(tag, TAG_SEPARATOR);
    if parts.len() == 2 {
        Some((parts[0], parts[1]))
    } else {
        None
    }
}

/// The Poseidon hash of the byte-array serialization of `value`.
pub fn compute_bytearray_hash(value: &str) -> (h: Felt)
    ensures
        h@ == bytearray_hash(value@),
{
    let felts = byte_array_felts(value);
    poseidon_hash(felts.as_slice())
}

/// The selector of a tag `namespace-name`; any other tag is refused.
pub fn compute_selector_from_dojo_tag(tag: &str) -> (r: DojoIntrospectResult<Felt>)
    ensures
        match tag_parts(tag@) {
            Some((namespace, name)) => r matches Ok(f) && f@ == namespace_name_selector(namespace, name),
            None => r matches Err(DojoIntrospectError::InvalidTagFormat(t)) && t@ == tag@,
        },
{
    match split_tag(tag) {
        Ok((namespace, name)) => Ok(compute_selector_from_namespace_and_name(namespace, name)),
        Err(e) => Err(e),
    }
}

/// The selector of the element `name` in `namespace`.
pub fn compute_selector_from_namespace_and_name(namespace: &str, name: &str) -> (f: Felt)
    ensures
        f@ == namespace_name_selector(namespace@, name@),
{
    let a = compute_bytearray_hash(namespace);
    let b = compute_bytearray_hash(name);
    let pair = [a, b];
    proof {
        assert(crate::codec::felt_values(pair@) =~= seq![a@, b@]);
    }
    poseidon_hash(&pair)
}

/// Gets the namespace and the name of a world element from its tag.
pub fn split_tag(tag: &str) -> (r: DojoIntrospectResult<(&str, &str)>)
    ensures
        match tag_parts(tag@) {
            Some((namespace, name)) => r matches Ok((a, b)) && a@ == namespace && b@ == name,
            None => r matches Err(DojoIntrospectError::InvalidTagFormat(t)) && t@ == tag@,
        },
{
    let parts = split_on(tag, TAG_SEPARATOR);
    proof {
        assert(parts@.map_values(|p: &str| p@).len() == parts@.len());
    }
    if parts.len() == 2 {
        proof {
            assert(parts@.map_values(|p: &str| p@)[0] == parts@[0]@);
            assert(parts@.map_values(|p: &str| p@)[1] == parts@[1]@);
        }
        Ok((parts[0], parts[1]))
    } else {
        Err(DojoIntrospectError::InvalidTagFormat(tag.to_owned()))
    }
}

proof fn lemma_split_len(s: Seq<char>, sep: char)
    ensures
        split_chars(s, sep).len() >= 1,
    decreases s.len(),
{
    if s.len() > 0 {
        lemma_split_len(s.drop_last(), sep);
    }
}

/// Appending text without the separator extends the last piece.
proof fn lemma_split_append(x: Seq<char>, b: Seq<char>, sep: char)
    requires
        !b.contains(sep),
    ensures
        split_chars(x + b, sep).len() == split_chars(x, sep).len(),
        split_chars(x + b, sep) == split_chars(x, sep).update(
            split_chars(x, sep).len() - 1,
            split_chars(x, sep).last() + b,
        ),
    decreases b.len(),
{
    lemma_split_len(x, sep);
    if b.len() == 0 {
        assert(x + b =~= x);
        assert(split_chars(x, sep).last() + b =~= split_chars(x, sep).last());
        assert(split_chars(x, sep).update(split_chars(x, sep).len() - 1, split_chars(x, sep).last())
            =~= split_chars(x, sep));
    } else {
        let b0 = b.drop_last();
        assert(!b0.contains(sep)) by {
            if b0.contains(sep) {
                let i = choose|i: int| 0 <= i < b0.len() && b0[i] == sep;
                assert(b[i] == sep);
            }
        }
        assert(b[b.len() - 1] == b.last());
        lemma_split_append(x, b0, sep);
        assert((x + b).drop_last() =~= x + b0);
        assert((x + b).last() == b.last());
        let px = split_chars(x, sep);
        assert(px.last() + b =~= (px.last() + b0).push(b.last()));
        assert(split_chars(x + b, sep) =~= px.update(px.len() - 1, px.last() + b));
    }
}

/// A tag made of a namespace and a name, neither holding the separator,
/// splits back into them; so its selector is theirs.
pub proof fn law_tag_round_trip(namespace: Seq<char>, name: Seq<char>)
    requires
        !namespace.contains(TAG_SEPARATOR),
        !name.contains(TAG_SEPARATOR),
    ensures
        tag_parts(namespace + "-"@ + name) == Some((namespace, name)),
{
    reveal_strlit("-");
    let x = namespace + "-"@;
    assert(x =~= namespace.push(TAG_SEPARATOR));
    lemma_split_append(Seq::empty(), namespace, TAG_SEPARATOR);
    assert(Seq::<char>::empty() + namespace =~= namespace);
    assert(split_chars(Seq::<char>::empty(), TAG_SEPARATOR).last() + namespace =~= namespace);
    assert(split_chars(namespace, TAG_SEPARATOR) =~= seq![namespace]);
    assert(x.drop_last() =~= namespace);
    assert(split_chars(x, TAG_SEPARATOR) =~= seq![namespace, Seq::empty()]);
    lemma_split_append(x, name, TAG_SEPARATOR);
    assert(Seq::<char>::empty() + name =~= name);
    assert(split_chars(x + name, TAG_SEPARATOR) =~= seq![namespace, name]);
}

/// The pieces joined back with the separator between them.
pub open spec fn join_pieces(parts: Seq<Seq<char>>, sep: char) -> Seq<char>
    decreases parts.len(),
{
    if parts.len() <= 1 {
        if parts.len() == 1 {
            parts[0]
        } else {
            Seq::empty()
        }
    } else {
        join_pieces(parts.drop_last(), sep).push(sep) + parts.last()
    }
}

proof fn lemma_join_extend_last(parts: Seq<Seq<char>>, sep: char, c: char)
    requires
        parts.len() >= 1,
    ensures
        join_pieces(parts.update(parts.len() - 1, parts.last().push(c)), sep) == join_pieces(parts, sep).push(c),
{
    let q = parts.update(parts.len() - 1, parts.last().push(c));
    if parts.len() > 1 {
        assert(q.drop_last() =~= parts.drop_last());
        assert(join_pieces(q, sep) =~= join_pieces(parts, sep).push(c));
    }
}

/// Splitting gives pieces without the separator that join back to the text.
proof fn lemma_split_join(s: Seq<char>, sep: char)
    ensures
        split_chars(s, sep).len() >= 1,
        join_pieces(split_chars(s, sep), sep) == s,
        forall|i: int| 0 <= i < split_chars(s, sep).len() ==> !(#[trigger] split_chars(s, sep)[i]).contains(sep),
    decreases s.len(),
{
    if s.len() > 0 {
        let rest = split_chars(s.drop_last(), sep);
        lemma_split_join(s.drop_last(), sep);
        if s.last() == sep {
            let parts = rest.push(Seq::<char>::empty());
            assert(parts.drop_last() =~= rest);
            assert(join_pieces(parts, sep) =~= s.drop_last().push(sep));
            assert(s.drop_last().push(sep) =~= s);
            assert forall|i: int| 0 <= i < parts.len() implies !(#[trigger] parts[i]).contains(sep) by {
                if i < rest.len() {
                    assert(parts[i] == rest[i]);
                }
            }
        } else {
            lemma_join_extend_last(rest, sep, s.last());
            assert(s.drop_last().push(s.last()) =~= s);
            let parts = rest.update(rest.len() - 1, rest.last().push(s.last()));
            assert forall|i: int| 0 <= i < parts.len() implies !(#[trigger] parts[i]).contains(sep) by {
                if i < rest.len() - 1 {
                    assert(parts[i] == rest[i]);
                } else {
                    let p = rest.last().push(s.last());
                    assert(!rest[rest.len() - 1].contains(sep));
                    if p.contains(sep) {
                        let k = choose|k: int| 0 <= k < p.len() && p[k] == sep;
                        if k < p.len() - 1 {
                            assert(rest.last()[k] == sep);
                        }
                    }
                }
            }
        }
    }
}

/// A tag that splits into a namespace and a name is the two joined by the
/// separator, and neither holds the separator.
pub proof fn law_tag_parts_join(tag: Seq<char>)
    ensures
        tag_parts(tag) matches Some((namespace, name)) ==> tag == namespace + "-"@ + name
            && !namespace.contains(TAG_SEPARATOR) && !name.contains(TAG_SEPARATOR),
{
    reveal_strlit("-");
    lemma_split_join(tag, TAG_SEPARATOR);
    let parts = split_chars(tag, TAG_SEPARATOR);
    if parts.len() == 2 {
        assert(parts.drop_last() =~= seq![parts[0]]);
        assert(join_pieces(parts.drop_last(), TAG_SEPARATOR) == parts[0]);
        assert("-"@ =~= seq![TAG_SEPARATOR]);
        assert(join_pieces(parts, TAG_SEPARATOR) == parts[0].push(TAG_SEPARATOR) + parts[1]);
        assert(parts[0].push(TAG_SEPARATOR) + parts[1] =~= parts[0] + "-"@ + parts[1]);
        assert(!parts[0].contains(TAG_SEPARATOR));
        assert(!parts[1].contains(TAG_SEPARATOR));
    }
}

} // verus!
