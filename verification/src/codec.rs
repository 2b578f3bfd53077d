//! Specifications of the byte-level encodings that felts carry: big-endian
//! bytes, Cairo short strings, Cairo byte arrays and decimal text.
use vstd::prelude::*;
use vstd::utf8::*;
use crate::felt::Felt;

verus! {

/// `256^n`.
pub open spec fn pow256(n: nat) -> nat
    decreases n,
{
    if n == 0 {
        1
    } else {
        256 * pow256((n - 1) as nat)
    }
}

/// The `n` big-endian bytes of `v` (higher bytes are dropped).
pub open spec fn bytes_be(v: nat, n: nat) -> Seq<u8> {
    Seq::new(n, |i: int| ((v / pow256((n - 1 - i) as nat)) % 256) as u8)
}

/// The 32 big-endian bytes of a felt.
pub open spec fn felt_bytes(f: Felt) -> Seq<u8> {
    bytes_be(f@, 32)
}

/// The number whose big-endian bytes are `s`.
pub open spec fn be_value(s: Seq<u8>) -> nat
    decreases s.len(),
{
    if s.len() == 0 {
        0
    } else {
        be_value(s.drop_last()) * 256 + s.last() as nat
    }
}

/// The values of a sequence of felts.
pub open spec fn felt_values(s: Seq<Felt>) -> Seq<nat> {
    s.map_values(|f: Felt| f@)
}

/// `s` without its leading zero bytes.
pub open spec fn drop_leading_zeros(s: Seq<u8>) -> Seq<u8>
    decreases s.len(),
{
    if s.len() > 0 && s[0] == 0 {
        drop_leading_zeros(s.drop_first())
    } else {
        s
    }
}

/// The text of a Cairo short string: the felt's bytes without leading
/// zeros, each byte read as the character with that code. Zero is the empty
/// string; a value of 32 bytes, or a zero byte after the first nonzero one,
/// has no text.
pub open spec fn short_string_chars(f: Felt) -> Option<Seq<char>> {
    let b = felt_bytes(f);
    if f@ == 0 {
        Some(Seq::empty())
    } else if b[0] > 0 {
        None
    } else if drop_leading_zeros(b).contains(0u8) {
        None
    } else {
        Some(drop_leading_zeros(b).map_values(|x: u8| x as char))
    }
}

/// The decimal digit character for `d < 10`.
pub open spec fn digit_char(d: nat) -> char {
    (48 + d) as char
}

/// The decimal text of `n`, without leading zeros.
pub open spec fn decimal_chars(n: nat) -> Seq<char>
    decreases n,
{
    if n < 10 {
        seq![digit_char(n)]
    } else {
        decimal_chars(n / 10).push(digit_char(n % 10))
    }
}

/// The pieces of `s` between the occurrences of `sep`, as `str::split` gives them.
pub open spec fn split_chars(s: Seq<char>, sep: char) -> Seq<Seq<char>>
    decreases s.len(),
{
    if s.len() == 0 {
        seq![Seq::empty()]
    } else {
        let rest = split_chars(s.drop_last(), sep);
        if s.last() == sep {
            rest.push(Seq::empty())
        } else {
            rest.update(rest.len() - 1, rest.last().push(s.last()))
        }
    }
}

/// The felts (as values) of the Cairo `ByteArray` serialization of `bytes`:
/// the number of full 31-byte words, the words, the pending word and its length.
pub open spec fn byte_array_serialization(bytes: Seq<u8>) -> Seq<nat> {
    let full = bytes.len() / 31;
    let rem = bytes.len() % 31;
    let words = Seq::new(full, |i: int| be_value(bytes.subrange(31 * i, 31 * i + 31)));
    let pending = if rem == 0 {
        0
    } else {
        be_value(bytes.subrange(31 * full as int, bytes.len() as int))
    };
    seq![full].add(words).add(seq![pending, rem])
}

/// The bytes that a serialized `ByteArray` at the front of `data` stands for:
/// a length `L`, `L` words of which the low 31 bytes count, a pending word
/// and the number of its low bytes that count.
pub open spec fn byte_array_payload(data: Seq<Felt>) -> Option<Seq<u8>> {
    if data.len() == 0 || data[0]@ > usize::MAX {
        None
    } else if data.len() < data[0]@ + 3 {
        None
    } else {
        let len = data[0]@;
        let plen = data[len + 2int]@;
        if plen > usize::MAX {
            None
        } else {
            let words = Seq::new(len, |i: int| felt_bytes(data[1 + i]).skip(1));
            Some(words.flatten() + felt_bytes(data[len + 1int]).skip(32 - plen))
        }
    }
}

/// The number of felts that the `ByteArray` at the front of `data` takes.
pub open spec fn byte_array_width(data: Seq<Felt>) -> nat
    recommends
        data.len() > 0,
{
    data[0]@ + 3
}

/// Reading a `ByteArray` at the front of `data` does not overrun the
/// sizes that the reader allocates or slices.
pub open spec fn byte_array_readable(data: Seq<Felt>) -> bool {
    &&& (data.len() > 0 && data[0]@ <= usize::MAX) ==> data[0]@ * 31 + 30 <= isize::MAX
    &&& (data.len() > 0 && data[0]@ <= usize::MAX && data.len() >= data[0]@ + 3
        && data[data[0]@ + 2int]@ <= usize::MAX) ==> data[data[0]@ + 2int]@ <= 32
}

/// The text of the `ByteArray` at the front of `data`, when its bytes are UTF-8.
pub open spec fn byte_array_text(data: Seq<Felt>) -> Option<Seq<char>> {
    match byte_array_payload(data) {
        Some(b) => if valid_utf8(b) {
            Some(decode_utf8(b))
        } else {
            None
        },
        None => None,
    }
}

/// The UTF-8 text of each chunk, concatenated; none when a chunk is not UTF-8
/// on its own.
pub open spec fn chunks_text(chunks: Seq<Seq<u8>>) -> Option<Seq<char>>
    decreases chunks.len(),
{
    if chunks.len() == 0 {
        Some(Seq::empty())
    } else {
        match chunks_text(chunks.drop_last()) {
            Some(t) => if valid_utf8(chunks.last()) {
                Some(t + decode_utf8(chunks.last()))
            } else {
                None
            },
            None => None,
        }
    }
}

/// The chunks of a `ByteArray` held as words, a pending word and its length:
/// the low 31 bytes of each word and, when the length is not zero, that many
/// low bytes of the pending word.
pub open spec fn word_chunks(words: Seq<Felt>, pending: Felt, plen: nat) -> Seq<Seq<u8>> {
    let full = words.map_values(|w: Felt| felt_bytes(w).skip(1));
    if plen > 0 {
        full.push(felt_bytes(pending).skip(32 - plen))
    } else {
        full
    }
}

/// The largest value a 31-byte word holds, `2^248 - 1`.
pub open spec fn bytes31_max() -> nat {
    0xff_ffff_ffff_ffff_ffff_ffff_ffff_ffff_ffff_ffff_ffff_ffff_ffff_ffff_ffff_ffffnat
}

/// Whether reading a `ByteArray` at the front of `data` stays within the
/// sizes that the reader allocates or slices.
pub fn byte_array_readable_exec(data: &[Felt]) -> (b: bool)
    ensures
        b == byte_array_readable(data@),
{
    if data.len() == 0 {
        return true;
    }
    let l = match data[0].to_usize() {
        Some(l) => l,
        None => return true,
    };
    let limit: usize = (isize::MAX as usize - 30) / 31;
    assert((l as int) * 31 + 30 <= isize::MAX <==> l <= limit) by (nonlinear_arith)
        requires
            limit == (isize::MAX - 30) / 31,
            l >= 0,
    ;
    if l > limit {
        return false;
    }
    if l > data.len() || data.len() - l < 3 {
        return true;
    }
    match data[l + 2].to_usize() {
        Some(p) => p <= 32,
        None => true,
    }
}

// ---------------------------------------------------------------------------
// Values of byte strings.
// ---------------------------------------------------------------------------

proof fn lemma_pow256_pos(n: nat)
    ensures
        pow256(n) > 0,
    decreases n,
{
    if n > 0 {
        lemma_pow256_pos((n - 1) as nat);
    }
}

/// The big-endian bytes of `v` give back `v`, less the bytes dropped.
proof fn lemma_bytes_be_value(v: nat, n: nat)
    ensures
        be_value(bytes_be(v, n)) == v % pow256(n),
    decreases n,
{
    if n > 0 {
        let s = bytes_be(v, n);
        let t = bytes_be(v / 256, (n - 1) as nat);
        lemma_pow256_pos((n - 1) as nat);
        assert forall|i: int| 0 <= i < n - 1 implies #[trigger] s.drop_last()[i] == t[i] by {
            let p = pow256((n - 2 - i) as nat);
            lemma_pow256_pos((n - 2 - i) as nat);
            assert(pow256((n - 1 - i) as nat) == 256 * p);
            vstd::arithmetic::div_mod::lemma_div_denominator(v as int, 256, p as int);
        }
        assert(s.drop_last() =~= t);
        assert(pow256(0) == 1);
        assert(s[n - 1] == ((v / pow256(0)) % 256) as u8);
        assert(s.last() == (v % 256) as u8);
        lemma_bytes_be_value(v / 256, (n - 1) as nat);
        vstd::arithmetic::div_mod::lemma_mod_breakdown(v as int, 256, pow256((n - 1) as nat) as int);
    }
}

/// The value of a byte string is its first byte at its place, plus the rest.
proof fn lemma_be_value_first(s: Seq<u8>)
    requires
        s.len() > 0,
    ensures
        be_value(s) == s[0] * pow256((s.len() - 1) as nat) + be_value(s.drop_first()),
    decreases s.len(),
{
    if s.len() > 1 {
        lemma_be_value_first(s.drop_last());
        assert(s.drop_last().drop_first() =~= s.drop_first().drop_last());
        assert(s.drop_last()[0] == s[0]);
        let p = pow256((s.len() - 2) as nat);
        assert(pow256((s.len() - 1) as nat) == 256 * p);
        assert(s.drop_first().last() == s.last());
        assert(be_value(s.drop_first()) == be_value(s.drop_first().drop_last()) * 256 + s.last());
        assert(be_value(s) == be_value(s.drop_last()) * 256 + s.last());
        let a = s[0] as int;
        let q = be_value(s.drop_first().drop_last()) as int;
        assert((a * p + q) * 256 == a * (256 * p) + q * 256) by (nonlinear_arith);
        assert(be_value(s.drop_last()) == a * p + q);
        assert(be_value(s) == (a * p + q) * 256 + s.last());
        assert(be_value(s) == a * (256 * p) + (q * 256 + s.last()));
    } else {
        assert(s.drop_first().len() == 0);
        assert(s.drop_last().len() == 0);
        assert(pow256(0) == 1);
        assert(be_value(s.drop_last()) == 0);
        assert(be_value(s.drop_first()) == 0);
        assert(be_value(s) == be_value(s.drop_last()) * 256 + s.last());
        assert(s.last() == s[0]);
    }
}

/// Leading zero bytes add nothing to the value.
proof fn lemma_be_value_leading_zeros(s: Seq<u8>)
    ensures
        be_value(drop_leading_zeros(s)) == be_value(s),
    decreases s.len(),
{
    if s.len() > 0 && s[0] == 0 {
        lemma_be_value_first(s);
        lemma_be_value_leading_zeros(s.drop_first());
    }
}

/// The bytes of the characters of a text, each below 256.
pub open spec fn char_bytes(s: Seq<char>) -> Seq<u8> {
    s.map_values(|c: char| c as u8)
}

/// A felt whose short-string text is `s` has the value of the bytes of `s`.
pub proof fn lemma_short_string_value(f: Felt, s: Seq<char>)
    requires
        short_string_chars(f) == Some(s),
    ensures
        f@ == be_value(char_bytes(s)),
{
    f.lemma_limb_value();
    let h = f.high_limb() as int;
    let l = f.low_limb() as int;
    assert(pow256(32) == 0x1_0000_0000_0000_0000_0000_0000_0000_0000_0000_0000_0000_0000_0000_0000_0000_0000nat)
        by {
        reveal_with_fuel(pow256, 33);
    }
    assert(h * crate::felt::limb_base() + l < 0x1_0000_0000_0000_0000_0000_0000_0000_0000_0000_0000_0000_0000_0000_0000_0000_0000)
        by (nonlinear_arith)
        requires
            0 <= h < crate::felt::limb_base(),
            0 <= l < crate::felt::limb_base(),
            crate::felt::limb_base() == 0x1_0000_0000_0000_0000_0000_0000_0000_0000,
    ;
    lemma_bytes_be_value(f@, 32);
    let b = felt_bytes(f);
    if f@ == 0 {
        assert(char_bytes(s) =~= Seq::<u8>::empty());
    } else {
        lemma_be_value_leading_zeros(b);
        let z = drop_leading_zeros(b);
        assert(z.map_values(|x: u8| x as char) == s);
        assert forall|i: int| 0 <= i < z.len() implies #[trigger] z[i] == char_bytes(s)[i] by {
            let c = s[i];
            assert(c == z[i] as char);
        }
        assert(z =~= char_bytes(s));
    }
}

} // verus!
