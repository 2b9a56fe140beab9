//! Global options broadcast: evaporation and diffusion pushed to a device
//! uniform only when they changed since the last frame.
//!
//! Both factors are 32-bit floats in [0, 1] to the host and the GPU; the
//! core compares and forwards them as their bit patterns, exactly as the
//! uniform buffer holds them, and never does arithmetic on them.

use vstd::prelude::*;

verus! {

/// Process-wide simulation tunables, each field the bit pattern of the
/// host's 32-bit float.
#[derive(Clone, Copy, PartialEq, Eq, Structural, Debug)]
pub struct Options {
    /// How quickly trails evaporate over time; a float in [0, 1].
    pub evaporation: u32,
    /// Lerp factor between the trail map and the blurred map; in [0, 1].
    pub diffusion: u32,
}

/// Host-side dirty tracking for the options uniform: remembers what the
/// device buffer holds and emits a write only on change.
pub struct OptionsBroadcaster {
    sent: Option<Options>,
}

impl OptionsBroadcaster {
    /// What the device-side uniform buffer holds, if anything was sent yet.
    pub closed spec fn sent_spec(self) -> Option<Options> {
        self.sent
    }

    /// A broadcaster for a device buffer nothing was written to yet.
    pub fn new() -> (r: Self)
        ensures
            r.sent_spec() is None,
    {
        OptionsBroadcaster { sent: None }
    }

    /// Hands back the write the device needs this frame: the current options
    /// exactly when they differ from what the buffer already holds — in
    /// particular always on the first frame — and nothing otherwise.
    pub fn publish(&mut self, current: Options) -> (write: Option<Options>)
        ensures
            final(self).sent_spec() == published_sent(old(self).sent_spec(), current),
            write == published_write(old(self).sent_spec(), current),
    {
        let unchanged = match &self.sent {
            Some(prev) => *prev == current,
            None => false,
        };
        self.sent = Some(current);
        if unchanged {
            None
        } else {
            Some(current)
        }
    }
}

/// Broadcasting is driven by change alone: sending the same options twice
/// writes at most once — the second broadcast emits nothing — and what the
/// buffer holds afterwards is those options.
pub proof fn lemma_publish_once(sent: Option<Options>, current: Options)
    ensures
        published_write(published_sent(sent, current), current) is None,
        published_sent(published_sent(sent, current), current) == Some(current),
{
}

/// What the buffer holds after a broadcast.
pub open spec fn published_sent(sent: Option<Options>, current: Options) -> Option<Options> {
    Some(current)
}

/// The write a broadcast emits.
pub open spec fn published_write(sent: Option<Options>, current: Options) -> Option<Options> {
    if sent == Some(current) {
        None
    } else {
        Some(current)
    }
}

} // verus!
