use slime::binding::{
    BindingType, LayoutKind, PassProgram, build_layout, program_slots,
};

#[test]
fn species_layout_pairs_storage_and_qualities() {
    let entries = build_layout(LayoutKind::Species);
    assert_eq!(entries.len(), 2);
    assert_eq!(entries[0].binding, 0);
    assert_eq!(entries[0].ty, BindingType::StorageBuffer);
    assert!(entries[0].compute_visible);
    assert_eq!(entries[1].binding, 1);
    assert_eq!(entries[1].ty, BindingType::UniformBuffer);
    assert_eq!(entries[1].min_size, Some(48));
    assert!(!entries[1].fragment_visible);
}

#[test]
fn texture_layout_pairs_texture_and_sampler() {
    let entries = build_layout(LayoutKind::Texture);
    assert_eq!(entries.len(), 2);
    assert_eq!(entries[0].ty, BindingType::SampledTexture);
    assert_eq!(entries[1].ty, BindingType::FilteringSampler);
}

#[test]
fn placeholder_layout_has_no_bindings() {
    assert!(build_layout(LayoutKind::Empty).is_empty());
}

#[test]
fn uniform_layouts_state_their_minimum_sizes() {
    assert_eq!(build_layout(LayoutKind::Seed)[0].min_size, Some(4));
    assert_eq!(build_layout(LayoutKind::Direction)[0].min_size, Some(8));
    assert_eq!(build_layout(LayoutKind::GlobalOptions)[0].min_size, None);
    assert_eq!(
        build_layout(LayoutKind::StorageTexture)[0].ty,
        BindingType::StorageTexture
    );
}

#[test]
fn every_program_signature_has_five_slots_ending_in_options() {
    for p in [PassProgram::Init, PassProgram::Update, PassProgram::Project, PassProgram::Blur] {
        let slots = program_slots(p);
        assert_eq!(slots.len(), 5);
        assert_eq!(slots[4], LayoutKind::GlobalOptions);
    }
}

#[test]
fn program_slots_bind_what_each_pass_uses() {
    assert_eq!(
        program_slots(PassProgram::Init),
        vec![
            LayoutKind::Species,
            LayoutKind::Empty,
            LayoutKind::Empty,
            LayoutKind::Seed,
            LayoutKind::GlobalOptions,
        ]
    );
    assert_eq!(
        program_slots(PassProgram::Update)[1],
        LayoutKind::Texture
    );
    assert_eq!(
        program_slots(PassProgram::Project)[2],
        LayoutKind::StorageTexture
    );
    assert_eq!(
        program_slots(PassProgram::Blur),
        vec![
            LayoutKind::Empty,
            LayoutKind::Texture,
            LayoutKind::Empty,
            LayoutKind::Direction,
            LayoutKind::GlobalOptions,
        ]
    );
}
