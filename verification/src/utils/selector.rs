//! Selectors of world elements for the tooling: a malformed tag is a
//! caller's mistake here rather than an error value.
use vstd::prelude::*;
use crate::felt::Felt;
use crate::outside::split_on;
use crate::selector::{bytearray_hash, namespace_name_selector, tag_parts};

verus! {

/// The character between the namespace and the name in a tag.
pub const TAG_SEPARATOR: char = '-';

/// A tag that is not of the form `namespace-name`.
#[derive(Debug, Clone, Copy, PartialEq, Eq, Structural)]
pub struct UnexpectedTag;

/// The Poseidon hash of the byte-array serialization of `value`.
pub fn compute_bytearray_hash(value: &str) -> (h: Felt)
    ensures
        h@ == bytearray_hash(value@),
{
    crate::selector::compute_bytearray_hash(value)
}

/// The selector of a tag `namespace-name`; other tags are excluded (the
/// tooling panics on them).
pub fn compute_selector_from_dojo_tag(tag: &str) -> (f: Felt)
    requires
        tag_parts(tag@) is Some,
    ensures
        f@ == namespace_name_selector(tag_parts(tag@).unwrap().0, tag_parts(tag@).unwrap().1),
{
    match split_tag(tag) {
        Ok((namespace, name)) => compute_selector_from_namespace_and_name(&namespace, &name),
        Err(_) => Felt::zero(),
    }
}

/// The selector of the element `name` in `namespace`.
pub fn compute_selector_from_namespace_and_name(namespace: &str, name: &str) -> (f: Felt)
    ensures
        f@ == namespace_name_selector(namespace@, name@),
{
    crate::selector::compute_selector_from_namespace_and_name(namespace, name)
}

/// Gets the namespace and the name of a world element from its tag.
pub fn split_tag(tag: &str) -> (r: Result<(String, String), UnexpectedTag>)
    ensures
        match tag_parts(tag@) {
            Some((namespace, name)) => r matches Ok((a, b)) && a@ == namespace && b@ == name,
            None => r == Err::<(String, String), UnexpectedTag>(UnexpectedTag),
        },
{
    let parts = split_on(tag, TAG_SEPARATOR);
    proof {
        assert(parts@.map_values(|p: &str| p@).len() == parts@.len());
    }
    if parts.len() == 2 {
        proof {
            assert(parts@.map_values(|p: &str| p@)[0] == parts@[0]@);
            assert(parts@.map_values(|p: &str| p@)[1] == parts@[1]@);
        }
        Ok((parts[0].to_owned(), parts[1].to_owned()))
    } else {
        Err(UnexpectedTag)
    }
}

} // verus!
