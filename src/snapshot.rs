use vstd::prelude::*;

verus! {

/// The copy step of serialization: the engine reports its routing snapshot as
/// `src`, valid only for the call, and `dst` is the caller's buffer. The buffer
/// is first sized to the reported length, then filled, so that it ends up
/// holding exactly the reported bytes: nothing cut off, nothing shifted,
/// nothing left from before.
pub fn fill_snapshot(dst: &mut Vec<u8>, src: &[u8])
    ensures
        final(dst)@.len() == src@.len(),
        final(dst)@ == src@,
{
    dst.truncate(0);
    dst.extend_from_slice(src);
    assert(dst@ =~= src@);
}

} // verus!
