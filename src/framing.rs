//! Byte layout of a Wesolowski proof: `[y: 2S bytes][pi: 2S bytes]`, where
//! `S` is the width of one class-group coordinate.
use vstd::prelude::*;

verus! {

/// Width `S` in bytes of one coordinate of a group element for a group of
/// `bits` bits.
pub open spec fn width_of(bits: u16) -> nat {
    ((bits as nat) + 16) / 16
}

/// Length of a whole Wesolowski proof: two encoded elements of `2S` bytes.
pub open spec fn proof_len_of(bits: u16) -> nat {
    4 * width_of(bits)
}

/// Every byte of `s` is zero.
pub open spec fn all_zero(s: Seq<u8>) -> bool {
    forall|i: int| 0 <= i < s.len() ==> #[trigger] s[i] == 0
}

/// Coordinate width `S = (bits + 16) / 16` (that is, `>> 4`). For a 16-bit `bits` this never
/// overflows the address space, which the proof of this function shows.
pub fn coordinate_width(bit_length: u16) -> (r: usize)
    ensures
        r as nat == width_of(bit_length),
        1 <= r <= 4096,
{
    let b: usize = bit_length as usize;
    (b + 16) / 16
}

/// Expected length `4S` of a Wesolowski proof for `bit_length`.
pub fn proof_length(bit_length: u16) -> (r: usize)
    ensures
        r as nat == proof_len_of(bit_length),
{
    4 * coordinate_width(bit_length)
}

/// Copies `s[start..end]`.
pub(crate) fn copy_range(s: &[u8], start: usize, end: usize) -> (r: Vec<u8>)
    requires
        start <= end <= s@.len(),
    ensures
        r@ == s@.subrange(start as int, end as int),
{
    let mut r: Vec<u8> = Vec::with_capacity(end - start);
    let mut i: usize = start;
    while i < end
        invariant
            start <= i <= end <= s@.len(),
            r@ == s@.subrange(start as int, i as int),
        decreases end - i,
    {
        r.push(s[i]);
        i += 1;
        assert(r@ =~= s@.subrange(start as int, i as int));
    }
    r
}

/// Splits a proof into its encoded result `y` and its encoded proof element
/// `pi`; `None` exactly when the length is not `4S`.
pub fn split_proof(blob: &[u8], bit_length: u16) -> (r: Option<(Vec<u8>, Vec<u8>)>)
    ensures
        r.is_none() <==> blob@.len() != proof_len_of(bit_length),
        r matches Some((y, pi)) ==> {
            &&& y@ == blob@.subrange(0, 2 * width_of(bit_length) as int)
            &&& pi@ == blob@.subrange(2 * width_of(bit_length) as int, blob@.len() as int)
            &&& y@.len() == pi@.len() == 2 * width_of(bit_length)
        },
{
    let s = coordinate_width(bit_length);
    if blob.len() != 4 * s {
        return None;
    }
    let y = copy_range(blob, 0, 2 * s);
    let pi = copy_range(blob, 2 * s, 4 * s);
    Some((y, pi))
}

/// Whether the first `n` bytes of `s` are all zero.
pub fn leading_coordinate_is_zero(s: &[u8], n: usize) -> (r: bool)
    requires
        n <= s@.len(),
    ensures
        r == all_zero(s@.subrange(0, n as int)),
{
    let mut i: usize = 0;
    while i < n
        invariant
            i <= n <= s@.len(),
            all_zero(s@.subrange(0, i as int)),
        decreases n - i,
    {
        if s[i] != 0 {
            assert(s@.subrange(0, n as int)[i as int] != 0);
            return false;
        }
        i += 1;
        assert(all_zero(s@.subrange(0, i as int))) by {
            assert forall|k: int| 0 <= k < i implies #[trigger] s@.subrange(0, i as int)[k] == 0 by {
                if k < i - 1 {
                    assert(s@.subrange(0, i as int)[k] == s@.subrange(0, i - 1)[k]);
                }
            }
        }
    }
    true
}

} // verus!
