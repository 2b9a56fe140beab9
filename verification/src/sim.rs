//! The composed per-frame step: registry sync, readiness polling, the pass
//! schedule and the buffer swap, in the order the spec of each demands.
//!
//! The host calls [`Simulation::frame`] once per frame, hands it the current
//! species snapshot, the pipeline poll results and the current options, and
//! replays what comes back against its device: perform the allocations and
//! writes of the sync outcome, record the commands, and write the options
//! and seed uniforms.

use vstd::prelude::*;

use crate::cache::{
    ResourceCache, SyncOutcome, activated_rows, alloc_seq, bindings_spec, freed_seq, new_rows,
    next_after, upload_seq,
};
use crate::driver::{FrameCommand, frame_commands, frame_spec};
use crate::options::{Options, OptionsBroadcaster, published_sent, published_write};
use crate::pipeline::{Pipelines, polled};
use crate::seed::draw_seed;
use crate::species::{RegistrySnapshot, snapshot_wf};
use crate::trail::{Framebuffers, swapped};

verus! {

/// What the host's poll of the four pending compiles reported this frame:
/// the program id of each compile that has finished.
#[derive(Clone, Copy, PartialEq, Eq, Structural, Debug)]
pub struct PollReport {
    pub init: Option<u64>,
    pub update: Option<u64>,
    pub project: Option<u64>,
    pub blur: Option<u64>,
}

/// A poll with no news; what a host reports while nothing finished.
pub fn poll_nothing() -> (r: PollReport)
    ensures
        r == (PollReport { init: None, update: None, project: None, blur: None }),
{
    PollReport { init: None, update: None, project: None, blur: None }
}

/// Everything one frame asks of the host.
pub struct FrameOutput {
    /// The registry reconciliation: bindings, device work, freed handles.
    /// Empty in every part while the pipelines are not cached.
    pub sync: SyncOutcome,
    /// The passes to record, in order; empty while the pipelines are not
    /// cached.
    pub commands: Vec<FrameCommand>,
    /// The options to write to their uniform, when they changed.
    pub options_write: Option<Options>,
    /// The seed to write to its uniform, every frame.
    pub seed_write: u32,
}

/// The whole simulation state the core tracks between frames.
pub struct Simulation {
    pub pipelines: Pipelines,
    pub cache: ResourceCache,
    pub framebuffers: Framebuffers,
    pub options: OptionsBroadcaster,
}

impl Simulation {
    /// A simulation over a freshly allocated pair of trail images. The
    /// images now exist, so the host may submit the four compile requests
    /// and report them through [`Simulation::submit_pipelines`].
    pub fn new(first_image: u64, second_image: u64) -> (r: Self)
        ensures
            r.pipelines is WaitingForTrailImages,
            r.cache.wf(),
            r.cache.rows().len() == 0,
            r.cache.next_spec() == 0,
            r.framebuffers == (Framebuffers { first: first_image, second: second_image, flipped: false }),
            r.options.sent_spec() is None,
    {
        Simulation {
            pipelines: Pipelines::WaitingForTrailImages,
            cache: ResourceCache::new(),
            framebuffers: Framebuffers::new(first_image, second_image),
            options: OptionsBroadcaster::new(),
        }
    }

    /// Records that the host submitted the four compile requests.
    pub fn submit_pipelines(&mut self, init: u64, update: u64, project: u64, blur: u64)
        requires
            old(self).pipelines is WaitingForTrailImages,
        ensures
            final(self).pipelines == (Pipelines::Pending { init, update, project, blur }),
            final(self).cache == old(self).cache,
            final(self).framebuffers == old(self).framebuffers,
            final(self).options == old(self).options,
    {
        self.pipelines.submit(init, update, project, blur);
    }

    /// One frame. Feeds the poll results into the readiness machine, then —
    /// only once the pipelines are cached — reconciles the registry, records
    /// the frame's passes against the pre-swap buffer roles, latches every
    /// live species to active, and swaps the trail images' roles exactly
    /// once. While the pipelines are still waiting or pending, the frame
    /// changes nothing and records nothing; only the options and seed
    /// uniforms are kept fresh.
    pub fn frame(&mut self, snap: &RegistrySnapshot, poll: PollReport, opts: Options) -> (out:
        FrameOutput)
        requires
            old(self).cache.wf(),
            snapshot_wf(snap@),
            old(self).cache.next_spec() + 2 * snap@.len() <= u64::MAX,
        ensures
            final(self).cache.wf(),
            final(self).pipelines == polled(
                old(self).pipelines,
                poll.init,
                poll.update,
                poll.project,
                poll.blur,
            ),
            final(self).options.sent_spec() == published_sent(old(self).options.sent_spec(), opts),
            out.options_write == published_write(old(self).options.sent_spec(), opts),
            final(self).pipelines is Cached ==> {
                let rows0 = old(self).cache.rows();
                let next0 = old(self).cache.next_spec();
                &&& out.sync.bindings@ == bindings_spec(rows0, next0, snap@)
                &&& out.sync.allocations@ == alloc_seq(rows0, next0, snap@)
                &&& out.sync.uploads@ == upload_seq(rows0, next0, snap@)
                &&& out.sync.freed@ == freed_seq(rows0, snap@)
                &&& out.commands@ == frame_spec(
                    bindings_spec(rows0, next0, snap@),
                    old(self).framebuffers,
                )
                &&& final(self).cache.rows() == activated_rows(new_rows(rows0, next0, snap@))
                &&& final(self).cache.next_spec() == next_after(rows0, next0, snap@)
                &&& final(self).framebuffers == swapped(old(self).framebuffers)
            },
            !(final(self).pipelines is Cached) ==> {
                &&& out.sync.bindings@.len() == 0
                &&& out.sync.allocations@.len() == 0
                &&& out.sync.uploads@.len() == 0
                &&& out.sync.freed@.len() == 0
                &&& out.commands@.len() == 0
                &&& final(self).cache == old(self).cache
                &&& final(self).framebuffers == old(self).framebuffers
            },
    {
        let options_write = self.options.publish(opts);
        let seed_write = draw_seed();
        self.pipelines.poll(poll.init, poll.update, poll.project, poll.blur);
        if self.pipelines.loaded() {
            let sync = self.cache.sync(snap);
            let commands = frame_commands(&self.pipelines, &sync.bindings, &self.framebuffers);
            self.cache.activate_all();
            self.framebuffers.swap();
            FrameOutput { sync, commands, options_write, seed_write }
        } else {
            FrameOutput {
                sync: SyncOutcome {
                    bindings: Vec::new(),
                    allocations: Vec::new(),
                    uploads: Vec::new(),
                    freed: Vec::new(),
                },
                commands: Vec::new(),
                options_write,
                seed_write,
            }
        }
    }
}

} // verus!
