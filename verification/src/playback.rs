//! Filling an output block from a recorded clip, for the playback stream.

use crate::bits::ZERO;
use vstd::prelude::*;

verus! {

/// The block of `len` samples read from `samples` at `position`: the clip
/// as far as it reaches, silence behind its end.
pub open spec fn block_at(samples: Seq<u32>, position: nat, len: nat) -> Seq<u32> {
    Seq::new(
        len,
        |j: int|
            if position + j < samples.len() {
                samples[position + j]
            } else {
                ZERO
            },
    )
}

/// `len` rounded up to whole frames of `channels` samples.
pub open spec fn whole_frames(len: nat, channels: nat) -> nat {
    ((len + channels - 1) / channels as int * channels) as nat
}

/// The position after a block of `len` samples: it advances by whole
/// frames, and stops at the largest `usize`.
pub open spec fn advanced(position: nat, len: nat, channels: nat) -> nat {
    if position + whole_frames(len, channels) <= usize::MAX {
        position + whole_frames(len, channels)
    } else {
        usize::MAX as nat
    }
}

/// Overwrites `output` with the clip's samples from `position` on and with
/// silence where the clip has ended. Returns the position for the next
/// block and whether the clip has been played to its end.
pub fn write_output_data(
    output: &mut Vec<u32>,
    channels: usize,
    position: usize,
    samples: &[u32],
) -> (r: (usize, bool))
    requires
        channels > 0,
    ensures
        final(output)@ == block_at(samples@, position as nat, old(output)@.len()),
        r.0 == advanced(position as nat, old(output)@.len(), channels as nat),
        r.1 == (r.0 >= samples@.len()),
{
    let len: usize = output.len();
    let mut j: usize = 0;
    while j < len
        invariant
            j <= len,
            output@.len() == len,
            forall|k: int| 0 <= k < j ==> output@[k] == block_at(samples@, position as nat, len as nat)[k],
        decreases len - j,
    {
        let sample: u32 = if j < samples.len() && position < samples.len() - j {
            samples[position + j]
        } else {
            ZERO
        };
        output.set(j, sample);
        j = j + 1;
    }
    assert(output@ =~= block_at(samples@, position as nat, len as nat));
    let frames: usize = if len % channels == 0 {
        len / channels
    } else {
        proof {
            vstd::arithmetic::div_mod::lemma_div_is_ordered_by_denominator(
                len as int,
                2,
                channels as int,
            );
        }
        len / channels + 1
    };
    proof {
        lemma_whole_frames(len as nat, channels as nat);
    }
    let next: usize = match frames.checked_mul(channels) {
        Some(step) => position.saturating_add(step),
        None => usize::MAX,
    };
    (next, next >= samples.len())
}

/// Rounding up to whole frames, by quotient and remainder.
proof fn lemma_whole_frames(len: nat, channels: nat)
    requires
        channels > 0,
    ensures
        len % channels == 0 ==> whole_frames(len, channels) == (len / channels) * channels,
        len % channels != 0 ==> whole_frames(len, channels) == (len / channels + 1) * channels,
        whole_frames(len, channels) >= len,
{
    let n = len as int;
    let c = channels as int;
    let q = n / c;
    let r = n % c;
    vstd::arithmetic::div_mod::lemma_fundamental_div_mod(n, c);
    assert(c * q == q * c) by (nonlinear_arith);
    assert((q + 1) * c == q * c + c) by (nonlinear_arith);
    assert(0 <= q) by (nonlinear_arith)
        requires
            n == c * q + r,
            0 <= n,
            r < c,
            0 < c,
    ;
    if r == 0 {
        vstd::arithmetic::div_mod::lemma_fundamental_div_mod_converse(n + c - 1, c, q, c - 1);
    } else {
        vstd::arithmetic::div_mod::lemma_fundamental_div_mod_converse(n + c - 1, c, q + 1, r - 1);
    }
}

/// The output of a looping playback: the clip repeated from its start for
/// as long as the block lasts. An empty clip leaves the block as it was.
pub open spec fn cycled(output: Seq<u32>, samples: Seq<u32>) -> Seq<u32> {
    if samples.len() == 0 {
        output
    } else {
        Seq::new(output.len(), |j: int| samples[j % samples.len() as int])
    }
}

/// Overwrites `output` with the clip, repeated from its start.
pub fn write_cycled(output: &mut Vec<u32>, samples: &[u32])
    ensures
        final(output)@ == cycled(old(output)@, samples@),
{
    let len: usize = output.len();
    let n: usize = samples.len();
    if n == 0 {
        return ;
    }
    let mut j: usize = 0;
    let mut at: usize = 0;
    while j < len
        invariant
            j <= len,
            n == samples@.len(),
            n > 0,
            at < n,
            at == j % n,
            output@.len() == len,
            forall|k: int| 0 <= k < j ==> output@[k] == samples@[k % n as int],
        decreases len - j,
    {
        output.set(j, samples[at]);
        proof {
            lemma_next_in_cycle(j as int, n as int);
        }
        at = if at + 1 == n {
            0
        } else {
            at + 1
        };
        j = j + 1;
    }
    assert(output@ =~= cycled(old(output)@, samples@));
}

/// One step along a cycle of length `n`.
proof fn lemma_next_in_cycle(j: int, n: int)
    requires
        0 <= j,
        0 < n,
    ensures
        (j + 1) % n == if j % n + 1 == n {
            0
        } else {
            j % n + 1
        },
{
    vstd::arithmetic::div_mod::lemma_fundamental_div_mod(j, n);
    let q = j / n;
    let r = j % n;
    if r + 1 == n {
        assert(j + 1 == (q + 1) * n + 0) by (nonlinear_arith)
            requires
                j == n * q + r,
                r + 1 == n,
        ;
        vstd::arithmetic::div_mod::lemma_fundamental_div_mod_converse(j + 1, n, q + 1, 0);
    } else {
        assert(j + 1 == q * n + (r + 1)) by (nonlinear_arith)
            requires
                j == n * q + r,
        ;
        vstd::arithmetic::div_mod::lemma_fundamental_div_mod_converse(j + 1, n, q, r + 1);
    }
}

} // verus!
