//! Bind/layout registry: the fixed set of resource-binding layouts the four
//! GPU programs consume, as plain descriptors the host turns into device
//! objects once at startup.
//!
//! Every program shares one shape-identical signature of five ordered slots,
//! even though each pass uses only a subset: a zero-binding placeholder
//! layout fills the slots a program leaves unused. This keeps a single
//! program-layout definition valid across `init`, `update`, `project` and
//! `blur`.

use vstd::prelude::*;

use crate::cache::QUALITIES_SIZE;

verus! {

/// What a binding slot carries.
#[derive(Clone, Copy, PartialEq, Eq, Structural, Debug)]
pub enum BindingType {
    /// Read-write storage buffer (the agent array).
    StorageBuffer,
    /// Uniform buffer.
    UniformBuffer,
    /// Sampled 2D float texture.
    SampledTexture,
    /// Filtering sampler.
    FilteringSampler,
    /// Write-only 2D storage texture.
    StorageTexture,
}

/// One entry of a binding layout: its slot index, what it carries, which
/// shader stages see it, and the least byte size the device must enforce,
/// where one is known.
#[derive(Clone, Copy, PartialEq, Eq, Structural, Debug)]
pub struct BindingEntry {
    pub binding: u32,
    pub ty: BindingType,
    pub compute_visible: bool,
    pub fragment_visible: bool,
    pub min_size: Option<u64>,
}

/// The named layouts of the registry, one per distinct resource shape.
#[derive(Clone, Copy, PartialEq, Eq, Structural, Debug)]
pub enum LayoutKind {
    /// Agents storage buffer + qualities uniform.
    Species,
    /// Sampled trail texture + its sampler.
    Texture,
    /// Write-only trail storage texture.
    StorageTexture,
    /// Blur-direction vector uniform.
    Direction,
    /// Per-frame seed uniform.
    Seed,
    /// Global options uniform.
    GlobalOptions,
    /// Zero-binding placeholder for a slot a program does not use.
    Empty,
}

/// The four GPU programs a frame can dispatch or draw.
#[derive(Clone, Copy, PartialEq, Eq, Structural, Debug)]
pub enum PassProgram {
    Init,
    Update,
    Project,
    Blur,
}

/// The entries of each named layout.
pub open spec fn layout_entries(kind: LayoutKind) -> Seq<BindingEntry> {
    match kind {
        LayoutKind::Species => seq![
            BindingEntry {
                binding: 0,
                ty: BindingType::StorageBuffer,
                compute_visible: true,
                fragment_visible: true,
                min_size: None,
            },
            BindingEntry {
                binding: 1,
                ty: BindingType::UniformBuffer,
                compute_visible: true,
                fragment_visible: false,
                min_size: Some(QUALITIES_SIZE),
            },
        ],
        LayoutKind::Texture => seq![
            BindingEntry {
                binding: 0,
                ty: BindingType::SampledTexture,
                compute_visible: true,
                fragment_visible: true,
                min_size: None,
            },
            BindingEntry {
                binding: 1,
                ty: BindingType::FilteringSampler,
                compute_visible: true,
                fragment_visible: true,
                min_size: None,
            },
        ],
        LayoutKind::StorageTexture => seq![
            BindingEntry {
                binding: 0,
                ty: BindingType::StorageTexture,
                compute_visible: true,
                fragment_visible: false,
                min_size: None,
            },
        ],
        LayoutKind::Direction => seq![
            BindingEntry {
                binding: 0,
                ty: BindingType::UniformBuffer,
                compute_visible: false,
                fragment_visible: true,
                min_size: Some(8),
            },
        ],
        LayoutKind::Seed => seq![
            BindingEntry {
                binding: 0,
                ty: BindingType::UniformBuffer,
                compute_visible: true,
                fragment_visible: true,
                min_size: Some(4),
            },
        ],
        LayoutKind::GlobalOptions => seq![
            BindingEntry {
                binding: 0,
                ty: BindingType::UniformBuffer,
                compute_visible: true,
                fragment_visible: true,
                min_size: None,
            },
        ],
        LayoutKind::Empty => Seq::empty(),
    }
}

/// Builds the entries of one named layout for the host to create its device
/// object from.
pub fn build_layout(kind: LayoutKind) -> (r: Vec<BindingEntry>)
    ensures
        r@ == layout_entries(kind),
{
    let mut out: Vec<BindingEntry> = Vec::new();
    match kind {
        LayoutKind::Species => {
            out.push(
                BindingEntry {
                    binding: 0,
                    ty: BindingType::StorageBuffer,
                    compute_visible: true,
                    fragment_visible: true,
                    min_size: None,
                },
            );
            out.push(
                BindingEntry {
                    binding: 1,
                    ty: BindingType::UniformBuffer,
                    compute_visible: true,
                    fragment_visible: false,
                    min_size: Some(QUALITIES_SIZE),
                },
            );
        },
        LayoutKind::Texture => {
            out.push(
                BindingEntry {
                    binding: 0,
                    ty: BindingType::SampledTexture,
                    compute_visible: true,
                    fragment_visible: true,
                    min_size: None,
                },
            );
            out.push(
                BindingEntry {
                    binding: 1,
                    ty: BindingType::FilteringSampler,
                    compute_visible: true,
                    fragment_visible: true,
                    min_size: None,
                },
            );
        },
        LayoutKind::StorageTexture => {
            out.push(
                BindingEntry {
                    binding: 0,
                    ty: BindingType::StorageTexture,
                    compute_visible: true,
                    fragment_visible: false,
                    min_size: None,
                },
            );
        },
        LayoutKind::Direction => {
            out.push(
                BindingEntry {
                    binding: 0,
                    ty: BindingType::UniformBuffer,
                    compute_visible: false,
                    fragment_visible: true,
                    min_size: Some(8),
                },
            );
        },
        LayoutKind::Seed => {
            out.push(
                BindingEntry {
                    binding: 0,
                    ty: BindingType::UniformBuffer,
                    compute_visible: true,
                    fragment_visible: true,
                    min_size: Some(4),
                },
            );
        },
        LayoutKind::GlobalOptions => {
            out.push(
                BindingEntry {
                    binding: 0,
                    ty: BindingType::UniformBuffer,
                    compute_visible: true,
                    fragment_visible: true,
                    min_size: None,
                },
            );
        },
        LayoutKind::Empty => {},
    }
    proof {
        assert(out@ =~= layout_entries(kind));
    }
    out
}

/// The five ordered slots of each program's signature: which named layout
/// fills each slot. Slots a program does not use carry the placeholder.
pub open spec fn program_slots_spec(p: PassProgram) -> Seq<LayoutKind> {
    match p {
        PassProgram::Init => seq![
            LayoutKind::Species,
            LayoutKind::Empty,
            LayoutKind::Empty,
            LayoutKind::Seed,
            LayoutKind::GlobalOptions,
        ],
        PassProgram::Update => seq![
            LayoutKind::Species,
            LayoutKind::Texture,
            LayoutKind::Empty,
            LayoutKind::Seed,
            LayoutKind::GlobalOptions,
        ],
        PassProgram::Project => seq![
            LayoutKind::Species,
            LayoutKind::Empty,
            LayoutKind::StorageTexture,
            LayoutKind::Empty,
            LayoutKind::GlobalOptions,
        ],
        PassProgram::Blur => seq![
            LayoutKind::Empty,
            LayoutKind::Texture,
            LayoutKind::Empty,
            LayoutKind::Direction,
            LayoutKind::GlobalOptions,
        ],
    }
}

/// Builds one program's five-slot layout list for the host to hand to its
/// pipeline descriptor.
pub fn program_slots(p: PassProgram) -> (r: Vec<LayoutKind>)
    ensures
        r@ == program_slots_spec(p),
{
    let mut out: Vec<LayoutKind> = Vec::new();
    match p {
        PassProgram::Init => {
            out.push(LayoutKind::Species);
            out.push(LayoutKind::Empty);
            out.push(LayoutKind::Empty);
            out.push(LayoutKind::Seed);
            out.push(LayoutKind::GlobalOptions);
        },
        PassProgram::Update => {
            out.push(LayoutKind::Species);
            out.push(LayoutKind::Texture);
            out.push(LayoutKind::Empty);
            out.push(LayoutKind::Seed);
            out.push(LayoutKind::GlobalOptions);
        },
        PassProgram::Project => {
            out.push(LayoutKind::Species);
            out.push(LayoutKind::Empty);
            out.push(LayoutKind::StorageTexture);
            out.push(LayoutKind::Empty);
            out.push(LayoutKind::GlobalOptions);
        },
        PassProgram::Blur => {
            out.push(LayoutKind::Empty);
            out.push(LayoutKind::Texture);
            out.push(LayoutKind::Empty);
            out.push(LayoutKind::Direction);
            out.push(LayoutKind::GlobalOptions);
        },
    }
    proof {
        assert(out@ =~= program_slots_spec(p));
    }
    out
}

/// Every program's signature is shape-identical: five slots, and the last
/// is always the global options.
pub proof fn lemma_uniform_signature(p: PassProgram)
    ensures
        program_slots_spec(p).len() == 5,
        program_slots_spec(p)[4] == LayoutKind::GlobalOptions,
{
}

} // verus!
