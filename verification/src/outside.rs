//! The calls into `starknet`, `starknet-crypto` and `cainome-cairo-serde`
//! that the library makes. Each wrapper converts felts to and from the
//! `starknet-types-core` representation; its contract is what the called
//! function's source shows, and is not proved here.
use vstd::prelude::*;
use vstd::utf8::*;
use cainome_cairo_serde::{ByteArray as CairoByteArray, Bytes31, CairoSerde};
use starknet_types_core::felt::Felt as StarkFelt;
use crate::codec::{
    byte_array_readable, byte_array_serialization, byte_array_text, bytes31_max, chunks_text,
    decimal_chars, felt_values, short_string_chars, split_chars, word_chunks,
};
use crate::felt::{stark_prime, Felt};
use crate::manager::{hex_digits, hex_lower_padded};

verus! {

/// What `starknet_crypto::poseidon_hash_many` returns on felts of these values.
pub uninterp spec fn poseidon_hash_many(values: Seq<nat>) -> nat;

/// What `starknet_types_core::felt::Felt::from_hex` gives for a text: the
/// value of the field element, or none where it fails.
pub uninterp spec fn felt_hex_value(s: Seq<char>) -> Option<nat>;

/// What `starknet::core::utils::get_selector_from_name` returns for an ASCII name.
pub uninterp spec fn entry_point_selector(name: Seq<char>) -> nat;

/// `starknet_crypto::poseidon_hash_many`. The result is taken to be the named
/// hash of the inputs' values; nothing is stated of the hash itself.
#[verifier::external_body]
pub(crate) fn poseidon_hash(values: &[Felt]) -> (h: Felt)
    ensures
        h@ == poseidon_hash_many(felt_values(values@)),
{
    let stark: Vec<StarkFelt> = values.iter().map(|f| StarkFelt::from_bytes_be_slice(
        &[f.high().to_be_bytes(), f.low().to_be_bytes()].concat())).collect();
    let b = starknet_crypto::poseidon_hash_many(&stark).to_bytes_be();
    Felt::from_limbs(u128::from_be_bytes(b[..16].try_into().unwrap()),
        u128::from_be_bytes(b[16..].try_into().unwrap()))
}

/// `cainome_cairo_serde::ByteArray::from_string` followed by its
/// `cairo_serialize`: the UTF-8 bytes of `s` cut into 31-byte words, with the
/// word count first and the pending word and its length last.
#[verifier::external_body]
pub(crate) fn byte_array_felts(s: &str) -> (felts: Vec<Felt>)
    ensures
        felt_values(felts@) == byte_array_serialization(encode_utf8(s@)),
{
    let ba = CairoByteArray::from_string(s).unwrap();
    CairoByteArray::cairo_serialize(&ba).iter().map(|x| { let b = x.to_bytes_be();
        Felt::from_limbs(u128::from_be_bytes(b[..16].try_into().unwrap()),
            u128::from_be_bytes(b[16..].try_into().unwrap())) }).collect()
}

/// `cainome_cairo_serde::ByteArray::to_string` on a byte array built of these
/// words: each chunk is read as UTF-8 on its own and the texts are joined.
/// The words must fit in 31 bytes (`Bytes31::new` accepts them) and the
/// pending length must not pass 32 (the slice it takes would underflow).
#[verifier::external_body]
pub(crate) fn byte_array_words_text(words: &[Felt], pending: &Felt, plen: usize) -> (s: Option<String>)
    requires
        forall|i: int| 0 <= i < words@.len() ==> #[trigger] words@[i]@ <= bytes31_max(),
        plen <= 32,
    ensures
        s is Some <==> chunks_text(word_chunks(words@, *pending, plen as nat)) is Some,
        s matches Some(t) ==> chunks_text(word_chunks(words@, *pending, plen as nat)) == Some(t@),
{
    let data: Vec<Bytes31> = words.iter().map(|f| Bytes31::new(StarkFelt::from_bytes_be_slice(
        &[f.high().to_be_bytes(), f.low().to_be_bytes()].concat())).unwrap()).collect();
    let pending_word = StarkFelt::from_bytes_be_slice(
        &[pending.high().to_be_bytes(), pending.low().to_be_bytes()].concat());
    CairoByteArray { data, pending_word, pending_word_len: plen }.to_string().ok()
}

/// `starknet::core::types::ByteArray::decode_iter` followed by the conversion to
/// `String`: reads the serialized byte array at the front of `data` and gives
/// its text when the bytes are UTF-8. It allocates `31 * L + 30` bytes for a
/// length `L` and slices the pending word by its length, hence the bound.
#[verifier::external_body]
pub(crate) fn decode_byte_array(data: &[Felt]) -> (s: Option<String>)
    requires
        byte_array_readable(data@),
    ensures
        s is Some <==> byte_array_text(data@) is Some,
        s matches Some(t) ==> byte_array_text(data@) == Some(t@),
{
    let stark: Vec<StarkFelt> = data.iter().map(|f| StarkFelt::from_bytes_be_slice(
        &[f.high().to_be_bytes(), f.low().to_be_bytes()].concat())).collect();
    match <starknet::core::types::ByteArray as starknet::core::codec::Decode>::decode_iter(
        &mut stark.iter()) {
        Ok(b) => String::try_from(b).ok(),
        Err(_) => None,
    }
}

/// `starknet::core::utils::parse_cairo_short_string`: the felt's bytes after
/// its leading zeros, each taken as a character; it fails on a felt of 32
/// bytes and on a zero byte after the first nonzero one.
#[verifier::external_body]
pub(crate) fn short_string(f: &Felt) -> (s: Option<String>)
    ensures
        s is Some <==> short_string_chars(*f) is Some,
        s matches Some(t) ==> short_string_chars(*f) == Some(t@),
{
    starknet::core::utils::parse_cairo_short_string(&StarkFelt::from_bytes_be_slice(
        &[f.high().to_be_bytes(), f.low().to_be_bytes()].concat())).ok()
}

/// `starknet::core::utils::get_selector_from_name`: it fails exactly on names
/// that are not ASCII; otherwise its result is the named selector.
#[verifier::external_body]
pub(crate) fn selector_from_name(name: &str) -> (r: Option<Felt>)
    ensures
        r is Some <==> is_ascii_chars(name@),
        r matches Some(f) ==> f@ == entry_point_selector(name@),
{
    match starknet::core::utils::get_selector_from_name(name) {
        Ok(x) => { let b = x.to_bytes_be();
            Some(Felt::from_limbs(u128::from_be_bytes(b[..16].try_into().unwrap()),
                u128::from_be_bytes(b[16..].try_into().unwrap()))) },
        Err(_) => None,
    }
}

/// The `Display` of `starknet_types_core::felt::Felt`, which writes the value
/// in decimal.
#[verifier::external_body]
pub(crate) fn felt_decimal(f: &Felt) -> (s: String)
    ensures
        s@ == decimal_chars(f@),
{
    StarkFelt::from_bytes_be_slice(&[f.high().to_be_bytes(), f.low().to_be_bytes()].concat())
        .to_string()
}

/// `str::split` on a character: the pieces between its occurrences.
#[verifier::external_body]
pub(crate) fn split_on(s: &str, sep: char) -> (parts: Vec<&str>)
    ensures
        parts@.map_values(|p: &str| p@) == split_chars(s@, sep),
{
    s.split(sep).collect()
}

/// `starknet_types_core::felt::Felt::from_hex`: the result is the named value
/// of the text. Its source strips a leading `0x` when more follows, accepts
/// at most 64 hex digits and a value not above the prime; so `0x` followed by
/// the lowercase hex digits of a value below the prime, padded with zeros to
/// 32 digits (63 at most), gives that value back.
#[verifier::external_body]
pub(crate) fn felt_from_hex(s: &str) -> (r: Option<Felt>)
    ensures
        (match r {
            Some(f) => Some(f@),
            None => None::<nat>,
        }) == felt_hex_value(s@),
        forall|n: nat|
            n < stark_prime() && s@ == "0x"@ + hex_lower_padded(n, 32) ==> r is Some && r.unwrap()@ == n,
{
    StarkFelt::from_hex(s).ok().map(|x| { let b = x.to_bytes_be();
        Felt::from_limbs(u128::from_be_bytes(b[..16].try_into().unwrap()),
            u128::from_be_bytes(b[16..].try_into().unwrap())) })
}

/// The lowercase hexadecimal format (`{:x}`) of
/// `starknet_types_core::felt::Felt`: the digits of the value without
/// leading zeros, `0` for zero.
#[verifier::external_body]
pub(crate) fn felt_lower_hex(f: &Felt) -> (s: String)
    ensures
        s@ == hex_digits(f@),
{
    format!("{:x}", StarkFelt::from_bytes_be_slice(&[f.high().to_be_bytes(), f.low().to_be_bytes()].concat()))
}

/// `str::strip_suffix`: the text before `suffix` when `s` ends with it.
#[verifier::external_body]
pub(crate) fn strip_suffix<'a>(s: &'a str, suffix: &str) -> (r: Option<&'a str>)
    ensures
        match r {
            Some(h) => s@ == h@ + suffix@,
            None => !(s@.len() >= suffix@.len() && s@.subrange(s@.len() - suffix@.len(), s@.len() as int)
                == suffix@),
        },
{
    s.strip_suffix(suffix)
}

} // verus!
