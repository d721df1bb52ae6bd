use vstd::prelude::*;
use vstd::std_specs::cmp::PartialEqSpec;
use vstd::string::StringSliceAdditionalSpecFns;
use vstd::utf8::{decode_utf8, encode_utf8_decode_utf8, encode_utf8_valid_utf8, valid_utf8};
use crate::capability::{zeros, FixedStringRef};
use crate::fixed_string::{is_terminator_index, FixedString};

verus! {

/// Text that was assigned or pushed into an empty string reads back unchanged:
/// its units are valid UTF-8 and decode to the original characters, so
/// `as_str` returns the same text.
pub proof fn lemma_assigned_text_reads_back<const N: usize>(t: &str, f: FixedString<N>)
    requires
        f.content() == t.spec_bytes(),
    ensures
        valid_utf8(f.content()),
        decode_utf8(f.content()) == t@,
{
    encode_utf8_valid_utf8(t@);
    encode_utf8_decode_utf8(t@);
}

/// Clearing twice leaves the same state as clearing once: `b` is `a` cleared
/// and `c` is `b` cleared.
pub proof fn lemma_clear_idempotent<const N: usize>(
    a: FixedString<N>,
    b: FixedString<N>,
    c: FixedString<N>,
)
    requires
        b.content() == Seq::<u8>::empty(),
        b.storage() == zeros(N as nat),
        c.content() == Seq::<u8>::empty(),
        c.storage() == zeros(N as nat),
    ensures
        c.content() == b.content(),
        c.storage() == b.storage(),
{
}

/// The end of the content in a unit array is unique.
proof fn lemma_terminator_index_unique(units: Seq<u8>, j: int, k: int)
    requires
        is_terminator_index(units, j),
        is_terminator_index(units, k),
    ensures
        j == k,
{
    if j < k {
        assert(units[j] != 0u8);
    } else if k < j {
        assert(units[k] != 0u8);
    }
}

/// A string built from a raw unit array gives the array back through `raw`
/// up to its first zero unit: `f` is what `from_raw(raw)` returned.
pub proof fn lemma_raw_round_trip<const N: usize>(raw: [u8; N], f: FixedString<N>, k: int)
    requires
        is_terminator_index(raw@, f.content().len() as int),
        f.content() == raw@.take(f.content().len() as int),
        f.storage() == f.content() + zeros((N - f.content().len()) as nat),
        is_terminator_index(raw@, k),
    ensures
        f.storage().take(k) == raw@.take(k),
{
    lemma_terminator_index_unique(raw@, f.content().len() as int, k);
    assert(f.storage().take(k) =~= raw@.take(k));
}

/// Concatenation is associative in content: `bc` is `b` with `c` appended,
/// `a_bc` is `a` with `bc` appended, `ab` is `a` with `b` appended and
/// `ab_c` is `ab` with `c` appended.
pub proof fn lemma_concat_associative<
    const A: usize,
    const B: usize,
    const C: usize,
    const AB: usize,
    const BC: usize,
>(
    a: FixedString<A>,
    b: FixedString<B>,
    c: FixedString<C>,
    ab: FixedString<AB>,
    bc: FixedString<BC>,
    a_bc: FixedString<A>,
    ab_c: FixedString<AB>,
)
    requires
        bc.content() == b.content() + c.content(),
        a_bc.content() == a.content() + bc.content(),
        ab.content() == a.content() + b.content(),
        ab_c.content() == ab.content() + c.content(),
    ensures
        a_bc.content() == ab_c.content(),
{
    assert(a_bc.content() =~= ab_c.content());
}

/// Two strings with the same content are equal, whatever their unused units
/// hold.
pub proof fn lemma_eq_ignores_unused<const N: usize>(a: FixedString<N>, b: FixedString<N>)
    requires
        a.content() == b.content(),
    ensures
        a.eq_spec(&b),
{
}

} // verus!
