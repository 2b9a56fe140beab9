//! Host-visible species data: identities, agent counts and movement
//! qualities.
//!
//! A species is one behavioural population of agents. The host declares the
//! live species once per frame as a snapshot of `(id, bundle)` rows; the
//! resource cache reconciles that snapshot against the device-side buffers.
//!
//! The movement qualities are 32-bit floating-point values to the host and to
//! the GPU programs. This core never does arithmetic on them — it only
//! compares them for change and lays them out for the device — so it carries
//! each as the 32-bit pattern of its float, exactly as the device memory
//! holds it. The host converts at the boundary and clamps there too (speed
//! and turn speed nonnegative, view distance in [0,1], field of view in
//! [0,2π]); the core assumes pre-validated input and does not re-validate.

use vstd::prelude::*;

verus! {

/// Stable 64-bit identity of a species, equal in lifetime to its host-side
/// entity handle.
#[derive(Clone, Copy, PartialEq, Eq, Structural, Hash, Debug)]
pub struct SpeciesId(pub u64);

/// How many agents a species simulates. At least 1 while the species is live.
#[derive(Clone, Copy, PartialEq, Eq, Structural, Debug)]
pub struct NumAgents(pub u32);

/// Movement and appearance qualities of one species, each field the bit
/// pattern of the host's 32-bit float.
#[derive(Clone, Copy, PartialEq, Eq, Structural, Debug)]
pub struct Qualities {
    /// Trail colour, red channel.
    pub color_r: u32,
    /// Trail colour, green channel.
    pub color_g: u32,
    /// Trail colour, blue channel.
    pub color_b: u32,
    /// Distance an agent advances per frame.
    pub speed: u32,
    /// Radians an agent may steer per frame.
    pub turn_speed: u32,
    /// How far ahead an agent senses the trail.
    pub view_distance: u32,
    /// Angular spread of the three sensing directions.
    pub field_of_view: u32,
}

/// Bit pattern of the 32-bit float 1.0: the default trail colour is white.
pub const DEFAULT_COLOR_CHANNEL: u32 = 0x3f80_0000;

/// Bit pattern of the 32-bit float 6e-6, the default speed.
pub const DEFAULT_SPEED: u32 = 0x36c9_539c;

/// Bit pattern of the 32-bit float 1e-3, the default turn speed.
pub const DEFAULT_TURN_SPEED: u32 = 0x3a83_126f;

/// Bit pattern of the 32-bit float 2e-2, the default view distance.
pub const DEFAULT_VIEW_DISTANCE: u32 = 0x3ca3_d70a;

/// Bit pattern of the 32-bit float π/6, the default field of view.
pub const DEFAULT_FIELD_OF_VIEW: u32 = 0x3f06_0a92;

impl Default for Qualities {
    /// White trail, and gentle movement: speed 6e-6, turn speed 1e-3, view
    /// distance 2e-2, field of view π/6 — each as its float's bit pattern.
    fn default() -> (r: Self)
        ensures
            r == (Qualities {
                color_r: DEFAULT_COLOR_CHANNEL,
                color_g: DEFAULT_COLOR_CHANNEL,
                color_b: DEFAULT_COLOR_CHANNEL,
                speed: DEFAULT_SPEED,
                turn_speed: DEFAULT_TURN_SPEED,
                view_distance: DEFAULT_VIEW_DISTANCE,
                field_of_view: DEFAULT_FIELD_OF_VIEW,
            }),
    {
        Qualities {
            color_r: DEFAULT_COLOR_CHANNEL,
            color_g: DEFAULT_COLOR_CHANNEL,
            color_b: DEFAULT_COLOR_CHANNEL,
            speed: DEFAULT_SPEED,
            turn_speed: DEFAULT_TURN_SPEED,
            view_distance: DEFAULT_VIEW_DISTANCE,
            field_of_view: DEFAULT_FIELD_OF_VIEW,
        }
    }
}

/// One row of the host's declarative species list: the agent count and the
/// qualities. Paired with a [`SpeciesId`], rows form the per-frame registry
/// snapshot.
#[derive(Clone, Copy, PartialEq, Eq, Structural, Debug)]
pub struct SpeciesBundle {
    pub num_agents: NumAgents,
    pub qualities: Qualities,
}

/// Whether a species' agent buffer still awaits its first `init` pass.
/// The transition to `Active` is a one-way latch: it happens when a frame's
/// commands are issued, and nothing but a reallocation resets it.
#[derive(Clone, Copy, PartialEq, Eq, Structural, Debug)]
pub enum InitState {
    /// The agent buffer exists but holds no agents yet; the next frame must
    /// run the `init` program for this species.
    Uninitialized,
    /// The `init` program has run; frames run `update` from now on.
    Active,
}

/// The registry snapshot the host hands over each frame.
pub type RegistrySnapshot = Vec<(SpeciesId, SpeciesBundle)>;

/// The ids of a snapshot, in row order.
pub open spec fn snapshot_ids(snap: Seq<(SpeciesId, SpeciesBundle)>) -> Seq<SpeciesId> {
    snap.map_values(|row: (SpeciesId, SpeciesBundle)| row.0)
}

/// A well-formed snapshot names each species at most once and gives every
/// species at least one agent.
pub open spec fn snapshot_wf(snap: Seq<(SpeciesId, SpeciesBundle)>) -> bool {
    &&& forall|i: int, j: int|
        0 <= i < j < snap.len() ==> #[trigger] snap[i].0 != #[trigger] snap[j].0
    &&& forall|i: int| 0 <= i < snap.len() ==> (#[trigger] snap[i].1).num_agents.0 >= 1
}

} // verus!
