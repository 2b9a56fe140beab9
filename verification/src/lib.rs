//! Verified control core of a slime-mould (physarum) agent simulation.
//!
//! Agents move across a 2D field and deposit a trail into a shared,
//! double-buffered image that diffuses and evaporates each frame. The GPU
//! device, window and render graph are the host's business; this crate holds
//! the decisions the host carries out each frame: reconciling the declarative
//! species list with the device-side resource cache, the pipeline-readiness
//! state machine, the exact per-frame pass sequence, the double-buffer swap
//! discipline, the broadcast of global options and the per-frame random seed,
//! and the byte layout of every value the device reads.

use vstd::prelude::*;

pub mod binding;
pub mod cache;
pub mod driver;
pub mod layout;
pub mod options;
pub mod pipeline;
pub mod project;
pub mod seed;
pub mod sim;
pub mod species;
pub mod trail;

verus! {

/// Number of agents one compute workgroup processes.
pub const WORKGROUP_SIZE: u32 = 256;

/// Workgroup count for a dispatch across `count` agents: the least number of
/// workgroups of [`WORKGROUP_SIZE`] agents that covers them all.
pub fn dispatch_workgroups(count: u32) -> (r: u32)
    ensures
        r == (count + WORKGROUP_SIZE - 1) as int / WORKGROUP_SIZE as int,
        r * WORKGROUP_SIZE >= count,
        count > 0 ==> (r - 1) * WORKGROUP_SIZE < count,
{
    let wide: u64 = (count as u64 + WORKGROUP_SIZE as u64 - 1) / WORKGROUP_SIZE as u64;
    wide as u32
}

} // verus!
