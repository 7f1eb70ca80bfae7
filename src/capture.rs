//! Decisions around the camera: which device to open, and the brightness and
//! contrast statistics of a test frame.
use vstd::prelude::*;
use crate::similarity::{dot, total};

verus! {

/// Frames read and thrown away after the device starts streaming.
pub const WARMUP_FRAMES: usize = 5;

/// The first candidate device that exists, given in candidate order whether
/// each exists; `None` when none does.
pub fn select_device(present: &[bool]) -> (r: Option<usize>)
    ensures
        r is None <==> forall|j: int| 0 <= j < present@.len() ==> !#[trigger] present@[j],
        r matches Some(i) ==> i < present@.len() && present@[i as int] && forall|j: int|
            0 <= j < i ==> !#[trigger] present@[j],
{
    let mut i: usize = 0;
    while i < present.len()
        invariant
            0 <= i <= present@.len(),
            forall|j: int| 0 <= j < i ==> !#[trigger] present@[j],
        decreases present@.len() - i,
    {
        if present[i] {
            return Some(i);
        }
        i = i + 1;
    }
    None
}

/// Sum and sum of squares of the gray levels of a frame, from which its
/// brightness (mean / 255) and contrast (standard deviation / 128) follow.
pub fn luma_moments(pixels: &[u8]) -> (r: (u128, u128))
    ensures
        r.0 == total(pixels@),
        r.1 == dot(pixels@, pixels@),
{
    let mut sum: u128 = 0;
    let mut sq: u128 = 0;
    let mut i: usize = 0;
    while i < pixels.len()
        invariant
            0 <= i <= pixels@.len(),
            sum == total(pixels@.subrange(0, i as int)),
            sq == dot(pixels@.subrange(0, i as int), pixels@),
        decreases pixels@.len() - i,
    {
        let x = pixels[i];
        proof {
            let p = pixels@.subrange(0, i as int + 1);
            assert(p.drop_last() =~= pixels@.subrange(0, i as int));
            crate::similarity::lemma_sums_bounded(p, pixels@);
            assert(255 * p.len() < 0x1_0000_0000_0000_0000_0000);
            assert(65025 * p.len() < 0x1_0000_0000_0000_0000_0000);
        }
        sum = sum + x as u128;
        sq = sq + (x as u128) * (x as u128);
        i = i + 1;
    }
    proof {
        assert(pixels@.subrange(0, pixels@.len() as int) =~= pixels@);
    }
    (sum, sq)
}

} // verus!
