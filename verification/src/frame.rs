//! The analysis frame: the most recent samples of a ring snapshot.

use crate::bits::ZERO;
use crate::ring::keep_last;
use crate::ring::zeros;
use vstd::prelude::*;

verus! {

/// The frame of `frame_len` samples that a snapshot yields: its last
/// `frame_len` samples, or all of it behind as much silence as is missing.
pub open spec fn frame_of(snapshot: Seq<u32>, frame_len: nat) -> Seq<u32> {
    if snapshot.len() < frame_len {
        zeros((frame_len - snapshot.len()) as nat) + snapshot
    } else {
        snapshot.subrange(snapshot.len() - frame_len, snapshot.len() as int)
    }
}

/// Takes analysis frames out of ring snapshots.
pub struct FrameExtractor;

impl FrameExtractor {
    /// The most recent `frame_len` samples of `snapshot`. A snapshot that is
    /// too short is padded with silence at the front.
    pub fn extract(snapshot: &[u32], frame_len: usize) -> (frame: Vec<u32>)
        ensures
            frame@ == frame_of(snapshot@, frame_len as nat),
            frame@.len() == frame_len,
    {
        let have: usize = snapshot.len();
        let pad: usize = if have < frame_len {
            frame_len - have
        } else {
            0
        };
        let skip: usize = if have < frame_len {
            0
        } else {
            have - frame_len
        };
        let mut frame: Vec<u32> = Vec::new();
        let mut i: usize = 0;
        while i < pad
            invariant
                i <= pad,
                frame@ == zeros(i as nat),
            decreases pad - i,
        {
            frame.push(ZERO);
            assert(frame@ =~= zeros((i + 1) as nat));
            i = i + 1;
        }
        let mut j: usize = skip;
        while j < have
            invariant
                skip <= j <= have,
                have == snapshot@.len(),
                frame@ == zeros(pad as nat) + snapshot@.subrange(skip as int, j as int),
            decreases have - j,
        {
            frame.push(snapshot[j]);
            assert(frame@ =~= zeros(pad as nat) + snapshot@.subrange(skip as int, j + 1));
            j = j + 1;
        }
        assert(frame@ =~= frame_of(snapshot@, frame_len as nat));
        frame
    }
}

/// A snapshot shorter than the frame is padded with silence at the front.
pub proof fn lemma_short_snapshot_is_padded(snapshot: Seq<u32>, frame_len: nat)
    requires
        snapshot.len() < frame_len,
    ensures
        frame_of(snapshot, frame_len) == zeros((frame_len - snapshot.len()) as nat) + snapshot,
{
}

/// A snapshot at least as long as the frame yields its last `frame_len`
/// samples unchanged; one of exactly that length yields itself.
pub proof fn lemma_long_snapshot_is_cut(snapshot: Seq<u32>, frame_len: nat)
    requires
        snapshot.len() >= frame_len,
    ensures
        frame_of(snapshot, frame_len) == keep_last(snapshot, frame_len),
        frame_of(snapshot, frame_len).len() == frame_len,
        forall|i: int|
            0 <= i < frame_len ==> #[trigger] frame_of(snapshot, frame_len)[i] == snapshot[snapshot.len()
                - frame_len + i],
        snapshot.len() == frame_len ==> frame_of(snapshot, frame_len) == snapshot,
{
    assert(frame_of(snapshot, frame_len) =~= keep_last(snapshot, frame_len));
    if snapshot.len() == frame_len {
        assert(frame_of(snapshot, frame_len) =~= snapshot);
    }
}

} // verus!
