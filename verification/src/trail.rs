//! The trail field's double buffer: two same-size images alternating the
//! roles of "current" (read) and "scratch" (write) each frame.
//!
//! Exactly one image holds the authoritative trail at the start of a frame;
//! the other is that frame's scratch target. The roles swap exactly once per
//! frame, after both blur sub-passes, so the next frame's agent pass reads
//! the freshly diffused trail.

use vstd::prelude::*;

verus! {

/// The two trail images, named by the host's image handles, and which of
/// them currently holds the authoritative trail.
#[derive(Clone, Copy, PartialEq, Eq, Structural, Debug)]
pub struct Framebuffers {
    /// Handle of the image allocated first.
    pub first: u64,
    /// Handle of the image allocated second.
    pub second: u64,
    /// When false, `first` is current and `second` is scratch; when true,
    /// the other way round.
    pub flipped: bool,
}

/// The buffers with their roles exchanged.
pub open spec fn swapped(fb: Framebuffers) -> Framebuffers {
    Framebuffers { first: fb.first, second: fb.second, flipped: !fb.flipped }
}

/// Which image is current under the given role assignment.
pub open spec fn current_spec(fb: Framebuffers) -> u64 {
    if fb.flipped {
        fb.second
    } else {
        fb.first
    }
}

/// Which image is this frame's scratch target.
pub open spec fn scratch_spec(fb: Framebuffers) -> u64 {
    if fb.flipped {
        fb.first
    } else {
        fb.second
    }
}

impl Framebuffers {
    /// Fresh pair of trail images: the first allocated starts as current.
    pub fn new(first: u64, second: u64) -> (r: Self)
        ensures
            r == (Framebuffers { first, second, flipped: false }),
    {
        Framebuffers { first, second, flipped: false }
    }

    /// The image the frame's agent pass reads and its vertical blur writes.
    pub fn current(&self) -> (r: u64)
        ensures
            r == current_spec(*self),
    {
        if self.flipped {
            self.second
        } else {
            self.first
        }
    }

    /// The image the frame's horizontal blur writes and reads back from.
    pub fn scratch(&self) -> (r: u64)
        ensures
            r == scratch_spec(*self),
    {
        if self.flipped {
            self.first
        } else {
            self.second
        }
    }

    /// Exchanges the two images' roles; called exactly once per full frame.
    pub fn swap(&mut self)
        ensures
            *final(self) == swapped(*old(self)),
    {
        self.flipped = !self.flipped;
    }
}

/// Swap parity: one swap makes the current image the scratch one and the
/// scratch image the current one; two swaps restore the original assignment
/// exactly — the swap is an involution with period 2.
pub proof fn lemma_swap_parity(fb: Framebuffers)
    ensures
        current_spec(swapped(fb)) == scratch_spec(fb),
        scratch_spec(swapped(fb)) == current_spec(fb),
        swapped(swapped(fb)) == fb,
        swapped(fb) != fb,
{
}

} // verus!
