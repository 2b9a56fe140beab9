use slime::cache::ResourceCache;
use slime::driver::{AgentProgram, BlurDirection, FrameCommand, frame_commands};
use slime::options::Options;
use slime::pipeline::Pipelines;
use slime::sim::{PollReport, Simulation, poll_nothing};
use slime::species::{NumAgents, Qualities, SpeciesBundle, SpeciesId};
use slime::trail::Framebuffers;
use slime::dispatch_workgroups;

fn default_qualities() -> Qualities {
    Qualities {
        color_r: 1.0f32.to_bits(),
        color_g: 1.0f32.to_bits(),
        color_b: 1.0f32.to_bits(),
        speed: 6e-6f32.to_bits(),
        turn_speed: 1e-3f32.to_bits(),
        view_distance: 2e-2f32.to_bits(),
        field_of_view: (std::f32::consts::PI / 6.0).to_bits(),
    }
}

fn one_species(count: u32) -> Vec<(SpeciesId, SpeciesBundle)> {
    vec![(SpeciesId(42), SpeciesBundle { num_agents: NumAgents(count), qualities: default_qualities() })]
}

fn full_poll() -> PollReport {
    PollReport { init: Some(100), update: Some(101), project: Some(102), blur: Some(103) }
}

#[test]
fn workgroup_count_covers_all_agents() {
    assert_eq!(dispatch_workgroups(0), 0);
    assert_eq!(dispatch_workgroups(1), 1);
    assert_eq!(dispatch_workgroups(100), 1);
    assert_eq!(dispatch_workgroups(256), 1);
    assert_eq!(dispatch_workgroups(257), 2);
    assert_eq!(dispatch_workgroups(u32::MAX), 16_777_216);
}

#[test]
fn pipelines_latch_one_way() {
    let mut p = Pipelines::WaitingForTrailImages;
    assert!(!p.loaded());
    p.submit(1, 2, 3, 4);
    assert!(!p.loaded());
    // Partial readiness is not actionable.
    p.poll(Some(10), Some(11), None, Some(13));
    assert!(!p.loaded());
    p.poll(Some(10), Some(11), Some(12), Some(13));
    assert!(p.loaded());
    assert_eq!(p.programs().project, 12);
    // Cached is permanent, whatever is polled afterwards.
    p.poll(None, None, None, None);
    assert!(p.loaded());
}

#[test]
fn no_dispatch_before_readiness() {
    let waiting = Pipelines::WaitingForTrailImages;
    let pending = Pipelines::Pending { init: 1, update: 2, project: 3, blur: 4 };
    let mut cache = ResourceCache::new();
    let out = cache.sync(&one_species(10));
    let fb = Framebuffers::new(500, 501);
    assert!(frame_commands(&waiting, &out.bindings, &fb).is_empty());
    assert!(frame_commands(&pending, &out.bindings, &fb).is_empty());
}

#[test]
fn one_agent_and_one_project_dispatch_per_species() {
    let mut cache = ResourceCache::new();
    let snap = vec![
        (SpeciesId(1), SpeciesBundle { num_agents: NumAgents(300), qualities: default_qualities() }),
        (SpeciesId(2), SpeciesBundle { num_agents: NumAgents(64), qualities: default_qualities() }),
    ];
    let out = cache.sync(&snap);
    let cached = Pipelines::Cached {
        programs: slime::pipeline::ProgramSet { init: 1, update: 2, project: 3, blur: 4 },
    };
    let fb = Framebuffers::new(500, 501);
    let cmds = frame_commands(&cached, &out.bindings, &fb);

    for id in [SpeciesId(1), SpeciesId(2)] {
        let agents = cmds
            .iter()
            .filter(|c| matches!(c, FrameCommand::AgentPass { species, .. } if *species == id))
            .count();
        let projects = cmds
            .iter()
            .filter(|c| matches!(c, FrameCommand::ProjectPass { species, .. } if *species == id))
            .count();
        assert_eq!(agents, 1);
        assert_eq!(projects, 1);
    }
    // All agent passes precede all project passes, which precede the blur.
    assert!(matches!(cmds[0], FrameCommand::AgentPass { .. }));
    assert!(matches!(cmds[1], FrameCommand::AgentPass { .. }));
    assert!(matches!(cmds[2], FrameCommand::ProjectPass { .. }));
    assert!(matches!(cmds[3], FrameCommand::ProjectPass { .. }));
    assert!(matches!(
        cmds[4],
        FrameCommand::BlurPass { direction: BlurDirection::Horizontal, .. }
    ));
    assert!(matches!(
        cmds[5],
        FrameCommand::BlurPass { direction: BlurDirection::Vertical, .. }
    ));
    assert!(matches!(cmds[6], FrameCommand::SwapBuffers));
    assert_eq!(cmds.len(), 7);

    // 300 agents need two workgroups of 256; 64 need one.
    match cmds[0] {
        FrameCommand::AgentPass { workgroups, program, .. } => {
            assert_eq!(workgroups, 2);
            assert_eq!(program, AgentProgram::Init);
        }
        _ => unreachable!(),
    }
    match cmds[1] {
        FrameCommand::AgentPass { workgroups, .. } => assert_eq!(workgroups, 1),
        _ => unreachable!(),
    }
}

#[test]
fn swap_parity_over_two_frames() {
    let mut fb = Framebuffers::new(77, 88);
    let current0 = fb.current();
    let scratch0 = fb.scratch();
    assert_eq!(current0, 77);
    assert_eq!(scratch0, 88);
    fb.swap();
    assert_eq!(fb.current(), scratch0);
    assert_eq!(fb.scratch(), current0);
    fb.swap();
    assert_eq!(fb.current(), current0);
    assert_eq!(fb.scratch(), scratch0);
}

#[test]
fn end_to_end_single_species_frame() {
    // One species of 100 agents, options {evaporation: 0.001, diffusion: 1.0}.
    let options = Options {
        evaporation: 0.001f32.to_bits(),
        diffusion: 1.0f32.to_bits(),
    };
    let snap = one_species(100);
    let mut sim = Simulation::new(900, 901);
    sim.submit_pipelines(1, 2, 3, 4);

    // While compiles are pending the frame does nothing but keep the
    // uniforms fresh.
    let idle = sim.frame(&snap, poll_nothing(), options);
    assert!(idle.commands.is_empty());
    assert!(idle.sync.bindings.is_empty());
    assert!(idle.sync.allocations.is_empty());
    assert_eq!(idle.options_write, Some(options));

    // The frame after all four compiles finish does the whole schedule.
    let out = sim.frame(&snap, full_poll(), options);
    assert_eq!(out.options_write, None);

    // Exactly one 100-agent buffer allocated (plus its qualities uniform).
    let agent_allocs: Vec<_> = out
        .sync
        .allocations
        .iter()
        .filter(|a| a.kind == slime::cache::BufferKind::AgentsStorage)
        .collect();
    assert_eq!(agent_allocs.len(), 1);
    assert_eq!(agent_allocs[0].size, 100 * 16);

    // init ran, not update; project once; both blur sub-passes; one swap.
    let mut inits = 0;
    let mut updates = 0;
    let mut projects = 0;
    let mut blurs = 0;
    let mut swaps = 0;
    for c in out.commands.iter() {
        match c {
            FrameCommand::AgentPass { program: AgentProgram::Init, .. } => inits += 1,
            FrameCommand::AgentPass { program: AgentProgram::Update, .. } => updates += 1,
            FrameCommand::ProjectPass { .. } => projects += 1,
            FrameCommand::BlurPass { .. } => blurs += 1,
            FrameCommand::SwapBuffers => swaps += 1,
        }
    }
    assert_eq!(inits, 1);
    assert_eq!(updates, 0);
    assert_eq!(projects, 1);
    assert_eq!(blurs, 2);
    assert_eq!(swaps, 1);

    // The roles swapped exactly once: the first image was current, now the
    // second is.
    assert_eq!(sim.framebuffers.current(), 901);
    assert_eq!(sim.framebuffers.scratch(), 900);

    // The next frame runs update, not init, and swaps back.
    let next = sim.frame(&snap, poll_nothing(), options);
    assert!(next.sync.allocations.is_empty());
    let has_init = next.commands.iter().any(
        |c| matches!(c, FrameCommand::AgentPass { program: AgentProgram::Init, .. }),
    );
    let has_update = next.commands.iter().any(
        |c| matches!(c, FrameCommand::AgentPass { program: AgentProgram::Update, .. }),
    );
    assert!(!has_init);
    assert!(has_update);
    assert_eq!(sim.framebuffers.current(), 900);
}
