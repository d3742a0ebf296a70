//! Collecting a stream that arrives in chunks.

use vstd::prelude::*;

verus! {

/// Takes one chunk of a stream into `collected` and says whether the stream goes on:
/// an empty chunk is its end.
pub fn accept_chunk(collected: &mut Vec<u8>, chunk: &[u8]) -> (more: bool)
    ensures
        more == (chunk@.len() != 0),
        final(collected)@ == old(collected)@ + chunk@,
{
    collected.extend_from_slice(chunk);
    assert(collected@ =~= old(collected)@ + chunk@);
    chunk.len() != 0
}

} // verus!
