//! Buffers of silence.
use vstd::prelude::*;

verus! {

/// A buffer of `size` silent samples.
pub fn new_real_buffer(size: usize) -> (buffer: Vec<u32>)
    ensures
        buffer@ == Seq::new(size as nat, |i: int| 0u32),
{
    vec![0u32; size]
}

} // verus!
