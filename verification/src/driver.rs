//! Per-frame simulation driver: the exact sequence of GPU passes one frame
//! records, as plain commands the host replays against its device.
//!
//! While the pipelines are not yet cached the frame does nothing — the only
//! expected no-op in the system. Once they are, a frame is, in this order:
//! one agent pass per live species (`init` for a species still
//! uninitialized, `update` otherwise), then one project pass per live
//! species, then the horizontal and the vertical blur sub-pass, then exactly
//! one buffer-role swap. All agent passes precede all project passes, so no
//! agent senses a deposit of its own frame; all project passes precede the
//! blur, so no species' deposit skips diffusion.

use vstd::prelude::*;

use crate::WORKGROUP_SIZE;
use crate::cache::{AgentsBuffer, QualitiesBuffer, SpeciesBinding};
use crate::dispatch_workgroups;
use crate::pipeline::Pipelines;
use crate::species::SpeciesId;
use crate::trail::{Framebuffers, current_spec, scratch_spec};

verus! {

/// Which program an agent pass runs.
#[derive(Clone, Copy, PartialEq, Eq, Structural, Debug)]
pub enum AgentProgram {
    /// Scatter the agents to pseudo-random starting positions and headings.
    Init,
    /// Sense the trail and steer, advancing each agent.
    Update,
}

/// Which 1D sub-pass of the separable blur a draw performs, selected on the
/// device by an integer unit-vector uniform.
#[derive(Clone, Copy, PartialEq, Eq, Structural, Debug)]
pub enum BlurDirection {
    Horizontal,
    Vertical,
}

/// One GPU pass of a frame, as the host must record it, in order.
#[derive(Clone, Copy, PartialEq, Eq, Structural, Debug)]
pub enum FrameCommand {
    /// Compute dispatch over one species' agents: `init` or `update`.
    /// `read_trail` is the current trail image the `update` program senses;
    /// `init` senses nothing and binds a placeholder there.
    AgentPass {
        species: SpeciesId,
        program: AgentProgram,
        agents: AgentsBuffer,
        qualities: QualitiesBuffer,
        read_trail: Option<u64>,
        workgroups: u32,
    },
    /// Compute dispatch depositing one species' agents into the trail.
    ProjectPass {
        species: SpeciesId,
        agents: AgentsBuffer,
        qualities: QualitiesBuffer,
        write_trail: u64,
        workgroups: u32,
    },
    /// One 1D sub-pass of the separable evaporate-and-diffuse blur,
    /// reading `source` and writing `target`.
    BlurPass { direction: BlurDirection, source: u64, target: u64 },
    /// Exchange the two trail images' roles; once per frame, after the blur.
    SwapBuffers,
}

/// Workgroups of a dispatch across `count` agents.
pub open spec fn workgroups_spec(count: u32) -> u32 {
    ((count + WORKGROUP_SIZE - 1) / (WORKGROUP_SIZE as int)) as u32
}

/// The agent pass one binding gets: `init` senses nothing, `update` reads
/// the current trail.
pub open spec fn agent_cmd(b: SpeciesBinding, current: u64) -> FrameCommand {
    FrameCommand::AgentPass {
        species: b.id,
        program: if b.needs_init {
            AgentProgram::Init
        } else {
            AgentProgram::Update
        },
        agents: b.agents,
        qualities: b.qualities,
        read_trail: if b.needs_init {
            None
        } else {
            Some(current)
        },
        workgroups: workgroups_spec(b.num_agents.0),
    }
}

/// The project pass one binding gets: it deposits into the current trail,
/// which the blur then reads.
pub open spec fn project_cmd(b: SpeciesBinding, current: u64) -> FrameCommand {
    FrameCommand::ProjectPass {
        species: b.id,
        agents: b.agents,
        qualities: b.qualities,
        write_trail: current,
        workgroups: workgroups_spec(b.num_agents.0),
    }
}

/// The whole frame once the pipelines are cached: agent passes for every
/// live species, then project passes for every live species, then the
/// horizontal blur (current into scratch), the vertical blur (scratch into
/// current), and one swap.
pub open spec fn frame_spec(bindings: Seq<SpeciesBinding>, fb: Framebuffers) -> Seq<FrameCommand> {
    Seq::new(bindings.len(), |i: int| agent_cmd(bindings[i], current_spec(fb))) + Seq::new(
        bindings.len(),
        |i: int| project_cmd(bindings[i], current_spec(fb)),
    ) + seq![
        FrameCommand::BlurPass {
            direction: BlurDirection::Horizontal,
            source: current_spec(fb),
            target: scratch_spec(fb),
        },
        FrameCommand::BlurPass {
            direction: BlurDirection::Vertical,
            source: scratch_spec(fb),
            target: current_spec(fb),
        },
        FrameCommand::SwapBuffers,
    ]
}

/// Records one frame's commands: nothing at all unless the pipelines are
/// cached, and the exact schedule of [`frame_spec`] once they are.
pub fn frame_commands(
    pipelines: &Pipelines,
    bindings: &Vec<SpeciesBinding>,
    fb: &Framebuffers,
) -> (cmds: Vec<FrameCommand>)
    ensures
        !(pipelines is Cached) ==> cmds@ == Seq::<FrameCommand>::empty(),
        pipelines is Cached ==> cmds@ == frame_spec(bindings@, *fb),
{
    let mut cmds: Vec<FrameCommand> = Vec::new();
    if !pipelines.loaded() {
        proof {
            assert(cmds@ =~= Seq::<FrameCommand>::empty());
        }
        return cmds;
    }
    let current = fb.current();
    let scratch = fb.scratch();
    let n = bindings.len();
    let mut i: usize = 0;
    while i < n
        invariant
            i <= n,
            n == bindings@.len(),
            current == current_spec(*fb),
            cmds@.len() == i,
            forall|j: int| 0 <= j < i ==> #[trigger] cmds@[j] == agent_cmd(bindings@[j], current),
        decreases n - i,
    {
        let b = bindings[i];
        let wg = dispatch_workgroups(b.num_agents.0);
        proof {
            assert(wg == workgroups_spec(b.num_agents.0));
        }
        let program = if b.needs_init {
            AgentProgram::Init
        } else {
            AgentProgram::Update
        };
        let read_trail = if b.needs_init {
            None
        } else {
            Some(current)
        };
        cmds.push(
            FrameCommand::AgentPass {
                species: b.id,
                program,
                agents: b.agents,
                qualities: b.qualities,
                read_trail,
                workgroups: wg,
            },
        );
        i = i + 1;
    }
    let mut k: usize = 0;
    while k < n
        invariant
            k <= n,
            n == bindings@.len(),
            current == current_spec(*fb),
            cmds@.len() == n + k,
            forall|j: int| 0 <= j < n ==> #[trigger] cmds@[j] == agent_cmd(bindings@[j], current),
            forall|j: int|
                n <= j < n + k ==> #[trigger] cmds@[j] == project_cmd(bindings@[j - n], current),
        decreases n - k,
    {
        let b = bindings[k];
        let wg = dispatch_workgroups(b.num_agents.0);
        proof {
            assert(wg == workgroups_spec(b.num_agents.0));
        }
        cmds.push(
            FrameCommand::ProjectPass {
                species: b.id,
                agents: b.agents,
                qualities: b.qualities,
                write_trail: current,
                workgroups: wg,
            },
        );
        k = k + 1;
    }
    cmds.push(
        FrameCommand::BlurPass {
            direction: BlurDirection::Horizontal,
            source: current,
            target: scratch,
        },
    );
    cmds.push(
        FrameCommand::BlurPass {
            direction: BlurDirection::Vertical,
            source: scratch,
            target: current,
        },
    );
    cmds.push(FrameCommand::SwapBuffers);
    proof {
        assert(cmds@ =~= frame_spec(bindings@, *fb));
    }
    cmds
}

/// How many commands of a sequence satisfy a predicate.
pub open spec fn count_matching(cmds: Seq<FrameCommand>, pred: spec_fn(FrameCommand) -> bool) -> int
    decreases cmds.len(),
{
    if cmds.len() == 0 {
        0
    } else {
        count_matching(cmds.drop_last(), pred) + if pred(cmds.last()) {
            1int
        } else {
            0int
        }
    }
}

/// Counting splits over concatenation.
proof fn lemma_count_concat(a: Seq<FrameCommand>, b: Seq<FrameCommand>, pred: spec_fn(FrameCommand) -> bool)
    ensures
        count_matching(a + b, pred) == count_matching(a, pred) + count_matching(b, pred),
    decreases b.len(),
{
    if b.len() == 0 {
        assert(a + b =~= a);
    } else {
        assert((a + b).drop_last() =~= a + b.drop_last());
        assert((a + b).last() == b.last());
        lemma_count_concat(a, b.drop_last(), pred);
    }
}

/// Nothing matches, nothing counts.
proof fn lemma_count_none(s: Seq<FrameCommand>, pred: spec_fn(FrameCommand) -> bool)
    requires
        forall|j: int| 0 <= j < s.len() ==> !pred(#[trigger] s[j]),
    ensures
        count_matching(s, pred) == 0,
    decreases s.len(),
{
    if s.len() > 0 {
        assert(forall|j: int| 0 <= j < s.drop_last().len() ==> #[trigger] s.drop_last()[j] == s[j]);
        lemma_count_none(s.drop_last(), pred);
    }
}

/// One match, count one.
proof fn lemma_count_single(s: Seq<FrameCommand>, pred: spec_fn(FrameCommand) -> bool, k: int)
    requires
        0 <= k < s.len(),
        pred(s[k]),
        forall|j: int| 0 <= j < s.len() && j != k ==> !pred(#[trigger] s[j]),
    ensures
        count_matching(s, pred) == 1,
    decreases s.len(),
{
    assert(forall|j: int| 0 <= j < s.drop_last().len() ==> #[trigger] s.drop_last()[j] == s[j]);
    if k == s.len() - 1 {
        lemma_count_none(s.drop_last(), pred);
    } else {
        lemma_count_single(s.drop_last(), pred, k);
    }
}

/// Whether a command is an agent dispatch for the given species.
pub open spec fn is_agent_pass_for(c: FrameCommand, id: SpeciesId) -> bool {
    c matches FrameCommand::AgentPass { species, .. } && species == id
}

/// Whether a command is a project dispatch for the given species.
pub open spec fn is_project_pass_for(c: FrameCommand, id: SpeciesId) -> bool {
    c matches FrameCommand::ProjectPass { species, .. } && species == id
}

/// The serialization the shared trail demands, by position: every agent
/// pass comes before every project pass — no agent senses a deposit of its
/// own frame — every project pass before both blur sub-passes — no deposit
/// skips diffusion — and the single swap comes last.
pub proof fn lemma_frame_ordering(bindings: Seq<SpeciesBinding>, fb: Framebuffers)
    ensures
        ({
            let cmds = frame_spec(bindings, fb);
            let n = bindings.len() as int;
            &&& cmds.len() == 2 * n + 3
            &&& forall|j: int| 0 <= j < n ==> #[trigger] cmds[j] is AgentPass
            &&& forall|j: int| n <= j < 2 * n ==> #[trigger] cmds[j] is ProjectPass
            &&& cmds[2 * n] == (FrameCommand::BlurPass {
                direction: BlurDirection::Horizontal,
                source: current_spec(fb),
                target: scratch_spec(fb),
            })
            &&& cmds[2 * n + 1] == (FrameCommand::BlurPass {
                direction: BlurDirection::Vertical,
                source: scratch_spec(fb),
                target: current_spec(fb),
            })
            &&& cmds[2 * n + 2] is SwapBuffers
        }),
{
}

/// Readiness gating and the dispatch schedule: while the pipelines are
/// anything but cached a frame records no command at all — in particular
/// zero dispatches — and once they are cached it records exactly one agent
/// dispatch and exactly one project dispatch per live species, two blur
/// sub-passes, and exactly one buffer swap.
pub proof fn lemma_frame_dispatch_counts(bindings: Seq<SpeciesBinding>, fb: Framebuffers, i: int)
    requires
        0 <= i < bindings.len(),
        forall|p: int, q: int|
            0 <= p < q < bindings.len() ==> (#[trigger] bindings[p]).id != (
            #[trigger] bindings[q]).id,
    ensures
        count_matching(
            frame_spec(bindings, fb),
            |c: FrameCommand| is_agent_pass_for(c, bindings[i].id),
        ) == 1,
        count_matching(
            frame_spec(bindings, fb),
            |c: FrameCommand| is_project_pass_for(c, bindings[i].id),
        ) == 1,
        count_matching(frame_spec(bindings, fb), |c: FrameCommand| c is BlurPass) == 2,
        count_matching(frame_spec(bindings, fb), |c: FrameCommand| c is SwapBuffers) == 1,
{
    let n = bindings.len() as int;
    let cur = current_spec(fb);
    let agents = Seq::new(bindings.len(), |j: int| agent_cmd(bindings[j], cur));
    let projects = Seq::new(bindings.len(), |j: int| project_cmd(bindings[j], cur));
    let tail = seq![
        FrameCommand::BlurPass {
            direction: BlurDirection::Horizontal,
            source: cur,
            target: scratch_spec(fb),
        },
        FrameCommand::BlurPass {
            direction: BlurDirection::Vertical,
            source: scratch_spec(fb),
            target: cur,
        },
        FrameCommand::SwapBuffers,
    ];
    let id = bindings[i].id;

    let pred_agent = |c: FrameCommand| is_agent_pass_for(c, id);
    lemma_count_concat(agents + projects, tail, pred_agent);
    lemma_count_concat(agents, projects, pred_agent);
    lemma_count_single(agents, pred_agent, i);
    lemma_count_none(projects, pred_agent);
    lemma_count_none(tail, pred_agent);

    let pred_project = |c: FrameCommand| is_project_pass_for(c, id);
    lemma_count_concat(agents + projects, tail, pred_project);
    lemma_count_concat(agents, projects, pred_project);
    lemma_count_none(agents, pred_project);
    lemma_count_single(projects, pred_project, i);
    lemma_count_none(tail, pred_project);

    let pred_blur = |c: FrameCommand| c is BlurPass;
    lemma_count_concat(agents + projects, tail, pred_blur);
    lemma_count_concat(agents, projects, pred_blur);
    lemma_count_none(agents, pred_blur);
    lemma_count_none(projects, pred_blur);
    assert(count_matching(tail, pred_blur) == 2) by {
        let t2 = tail.drop_last();
        let t1 = t2.drop_last();
        let t0 = t1.drop_last();
        assert(!pred_blur(tail.last()));
        assert(t2.last() == tail[1]);
        assert(pred_blur(tail[1]));
        assert(t1.last() == tail[0]);
        assert(pred_blur(tail[0]));
        assert(t0.len() == 0);
        assert(count_matching(t0, pred_blur) == 0);
        assert(count_matching(t1, pred_blur) == 1);
        assert(count_matching(t2, pred_blur) == 2);
    }

    let pred_swap = |c: FrameCommand| c is SwapBuffers;
    lemma_count_concat(agents + projects, tail, pred_swap);
    lemma_count_concat(agents, projects, pred_swap);
    lemma_count_none(agents, pred_swap);
    lemma_count_none(projects, pred_swap);
    lemma_count_single(tail, pred_swap, 2);
}

} // verus!
