//! Small tools for writing byte strings.

use vstd::prelude::*;

verus! {

/// Appends `src` to `out`.
pub(crate) fn append(out: &mut Vec<u8>, src: &[u8])
    ensures
        final(out)@ == old(out)@ + src@,
{
    let mut i: usize = 0;
    while i < src.len()
        invariant
            i <= src.len(),
            out@ == old(out)@ + src@.subrange(0, i as int),
        decreases src.len() - i,
    {
        out.push(src[i]);
        i += 1;
        assert(out@ =~= old(out)@ + src@.subrange(0, i as int));
    }
    assert(src@.subrange(0, i as int) =~= src@);
}

/// `n` zero bytes.
pub open spec fn spec_zeros(n: int) -> Seq<u8> {
    Seq::new(n as nat, |i: int| 0u8)
}

/// Fills `out` up with zero bytes to `len` bytes.
pub(crate) fn pad(out: &mut Vec<u8>, len: usize)
    requires
        old(out)@.len() <= len,
    ensures
        final(out)@ == old(out)@ + spec_zeros(len - old(out)@.len()),
{
    while out.len() < len
        invariant
            old(out)@.len() <= out@.len() <= len,
            out@ == old(out)@ + spec_zeros(out@.len() - old(out)@.len()),
        decreases len - out@.len(),
    {
        out.push(0u8);
        assert(out@ =~= old(out)@ + spec_zeros(out@.len() - old(out)@.len()));
    }
}

/// The two's-complement reading of a timestamp survives the trip through
/// its unsigned form, and back.
pub proof fn lemma_timestamp_roundtrip(x: i64, u: u64)
    ensures
        (x as u64) as i64 == x,
        (u as i64) as u64 == u,
{
    assert((x as u64) as i64 == x) by (bit_vector);
    assert((u as i64) as u64 == u) by (bit_vector);
}

} // verus!
