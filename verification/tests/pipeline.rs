use shader_jockey::pipeline::{
    install, plan_load, validate, BufferDecl, BufferPolicy, LoadError, PipelineDesc, Resolution,
    ShaderSlot, ShaderType, StageDecl, StageKind,
};
use shader_jockey::preprocess::{FileTable, PreprocessError};
use shader_jockey::render::RenderCommand;

fn buffer(name: &str, policy: BufferPolicy) -> BufferDecl {
    BufferDecl { name: name.as_bytes().to_vec(), policy }
}

fn names(list: &[&str]) -> Vec<Vec<u8>> {
    list.iter().map(|n| n.as_bytes().to_vec()).collect()
}

fn slot(ty: ShaderType, path: &str) -> ShaderSlot {
    ShaderSlot { ty, path: path.as_bytes().to_vec() }
}

fn shader_files() -> FileTable {
    let mut files = FileTable::new();
    files.insert(b"c.glsl".to_vec(), b"compute src".to_vec());
    files.insert(b"v.glsl".to_vec(), b"vert src".to_vec());
    files.insert(b"f.glsl".to_vec(), b"frag src".to_vec());
    files
}

fn two_stage_desc() -> PipelineDesc {
    PipelineDesc {
        buffers: vec![
            buffer("color", BufferPolicy::WindowSized),
            buffer("volume", BufferPolicy::Fixed { width: 64, height: 64, depth: 4 }),
        ],
        stages: vec![
            StageDecl {
                shaders: vec![slot(ShaderType::Compute, "c.glsl")],
                kind: StageKind::Compute { x: 8, y: 0, z: 0 },
                deps: vec![],
                target: Some(b"color".to_vec()),
                resolution: None,
            },
            StageDecl {
                shaders: vec![slot(ShaderType::Vertex, "v.glsl"), slot(ShaderType::Fragment, "f.glsl")],
                kind: StageKind::Fullscreen,
                deps: names(&["color"]),
                target: None,
                resolution: None,
            },
        ],
    }
}

#[test]
fn load_installs_all_buffers_and_stages() {
    // Two declared buffers and two declared stages: after a successful
    // load the registry holds exactly those buffers and the stage list
    // exactly those stages, in declaration order.
    let files = shader_files();
    let plan = plan_load(two_stage_desc(), &files, 800, 600).unwrap();

    assert_eq!(plan.programs.len(), 2);
    assert_eq!(plan.programs[0].units.len(), 1);
    assert_eq!(plan.programs[0].units[0].source, b"compute src".to_vec());
    assert_eq!(plan.programs[1].units.len(), 2);
    assert_eq!(plan.programs[1].units[1].source, b"frag src".to_vec());
    assert_eq!(plan.allocations.len(), 2);
    assert_eq!(plan.allocations[0].resolution, Resolution { width: 800, height: 600, depth: 0 });
    assert_eq!(plan.allocations[1].resolution, Resolution { width: 64, height: 64, depth: 4 });

    let pipeline = install(&plan, &vec![11, 12], &vec![(1, 2), (3, 4)]);
    assert_eq!(pipeline.stages.len(), 2);
    assert_eq!(pipeline.buffers.len(), 2);
    assert_eq!(pipeline.buffers[0].name, b"color".to_vec());
    assert_eq!(pipeline.buffers[1].name, b"volume".to_vec());
    assert_eq!(pipeline.buffers[0].id, 1);
    assert_eq!(pipeline.buffers[0].fb, 2);
    assert_eq!(pipeline.stages[0].program, 11);
    assert_eq!(pipeline.stages[1].program, 12);
    assert_eq!(pipeline.stages[0].kind, StageKind::Compute { x: 8, y: 0, z: 0 });
    assert_eq!(pipeline.stages[1].deps[0], b"color".to_vec());
}

#[test]
fn duplicate_buffer_name_is_rejected() {
    let desc = PipelineDesc {
        buffers: vec![
            buffer("a", BufferPolicy::WindowSized),
            buffer("a", BufferPolicy::WindowSized),
        ],
        stages: vec![],
    };
    let err = validate(&desc).unwrap_err();
    assert_eq!(err, LoadError::DuplicateBuffer { name: b"a".to_vec() });
}

#[test]
fn unresolved_dependency_is_rejected() {
    let desc = PipelineDesc {
        buffers: vec![buffer("a", BufferPolicy::WindowSized)],
        stages: vec![StageDecl {
            shaders: vec![],
            kind: StageKind::Fullscreen,
            deps: names(&["ghost"]),
            target: None,
            resolution: None,
        }],
    };
    let err = validate(&desc).unwrap_err();
    assert_eq!(err, LoadError::UnresolvedReference { stage: 0, name: b"ghost".to_vec() });
}

#[test]
fn unresolved_target_is_rejected() {
    let desc = PipelineDesc {
        buffers: vec![buffer("a", BufferPolicy::WindowSized)],
        stages: vec![StageDecl {
            shaders: vec![],
            kind: StageKind::Fullscreen,
            deps: vec![],
            target: Some(b"ghost".to_vec()),
            resolution: None,
        }],
    };
    let err = validate(&desc).unwrap_err();
    assert_eq!(err, LoadError::UnresolvedReference { stage: 0, name: b"ghost".to_vec() });
}

#[test]
fn missing_shader_file_fails_the_load() {
    let files = FileTable::new();
    let err = plan_load(two_stage_desc(), &files, 800, 600).unwrap_err();
    assert_eq!(
        err,
        LoadError::Shader {
            stage: 0,
            error: PreprocessError::Missing { name: b"c.glsl".to_vec() },
        }
    );
}

#[test]
fn resize_touches_only_window_sized_buffers() {
    // Resizing from (800, 600) to (1920, 1080): every window-sized buffer
    // takes the new size, every fixed buffer keeps its own.
    let files = shader_files();
    let plan = plan_load(two_stage_desc(), &files, 800, 600).unwrap();
    let mut pipeline = install(&plan, &vec![11, 12], &vec![(1, 2), (3, 4)]);

    pipeline.resize_buffers(1920, 1080);
    assert_eq!(
        pipeline.buffers[0].resolution,
        Resolution { width: 1920, height: 1080, depth: 0 }
    );
    assert_eq!(pipeline.buffers[1].resolution, Resolution { width: 64, height: 64, depth: 4 });
    assert_eq!(pipeline.buffers[0].name, b"color".to_vec());
    assert_eq!(pipeline.stages.len(), 2);
}

#[test]
fn frame_plan_orders_dispatch_barrier_and_binds() {
    // The compute stage's dispatch (zero dimensions floored at 1) is
    // followed at once by a memory barrier, and the dependent stage's
    // texture bind comes only after it.
    let files = shader_files();
    let plan = plan_load(two_stage_desc(), &files, 800, 600).unwrap();
    let pipeline = install(&plan, &vec![11, 12], &vec![(1, 2), (3, 4)]);

    let cmds = pipeline.render_plan(800, 600);
    assert_eq!(cmds[0], RenderCommand::UseProgram { program: 11 });
    assert_eq!(cmds[1], RenderCommand::UniformResolutionTime { width: 800, height: 600 });

    let dispatch = cmds
        .iter()
        .position(|c| *c == RenderCommand::DispatchCompute { x: 8, y: 1, z: 1 })
        .unwrap();
    assert_eq!(cmds[dispatch + 1], RenderCommand::MemoryBarrier);

    let bind = cmds
        .iter()
        .position(|c| *c == RenderCommand::BindTexture { stage: 1, unit: 0, texture: 1 })
        .unwrap();
    assert!(dispatch + 1 < bind);

    // The second stage renders to the display surface and so skips the
    // mipmap step.
    assert_eq!(cmds.last().unwrap(), &RenderCommand::DrawFullscreen);
    assert!(cmds.contains(&RenderCommand::BindTarget {
        framebuffer: 0,
        width: 800,
        height: 600
    }));
}

#[test]
fn explicit_stage_uploads_vertex_count_and_clears() {
    let mut files = FileTable::new();
    files.insert(b"v.glsl".to_vec(), b"vert".to_vec());
    let desc = PipelineDesc {
        buffers: vec![buffer("hit", BufferPolicy::WindowSized)],
        stages: vec![StageDecl {
            shaders: vec![slot(ShaderType::Vertex, "v.glsl")],
            kind: StageKind::Explicit { count: 9, mode: 4 },
            deps: vec![],
            target: Some(b"hit".to_vec()),
            resolution: Some(Resolution { width: 128, height: 256, depth: 0 }),
        }],
    };
    let plan = plan_load(desc, &files, 800, 600).unwrap();
    let pipeline = install(&plan, &vec![7], &vec![(41, 42)]);

    let cmds = pipeline.render_plan(800, 600);
    assert!(cmds.contains(&RenderCommand::UniformVertexCount { count: 9 }));
    assert!(cmds.contains(&RenderCommand::BindTarget {
        framebuffer: 42,
        width: 128,
        height: 256
    }));
    assert!(cmds.contains(&RenderCommand::ClearAndEnableDepth));
    assert!(cmds.contains(&RenderCommand::DrawPrimitives { count: 9, mode: 4 }));
    assert_eq!(cmds.last().unwrap(), &RenderCommand::GenerateMipmaps { texture: 41 });
}

#[test]
fn deep_resolution_override_falls_back_to_window() {
    // A fixed-resolution override with a nonzero depth does not drive the
    // viewport; the window size does.
    let mut files = FileTable::new();
    files.insert(b"f.glsl".to_vec(), b"frag".to_vec());
    let desc = PipelineDesc {
        buffers: vec![],
        stages: vec![StageDecl {
            shaders: vec![slot(ShaderType::Fragment, "f.glsl")],
            kind: StageKind::Fullscreen,
            deps: vec![],
            target: None,
            resolution: Some(Resolution { width: 32, height: 32, depth: 8 }),
        }],
    };
    let plan = plan_load(desc, &files, 800, 600).unwrap();
    let pipeline = install(&plan, &vec![7], &vec![]);
    let cmds = pipeline.render_plan(800, 600);
    assert!(cmds.contains(&RenderCommand::BindTarget {
        framebuffer: 0,
        width: 800,
        height: 600
    }));
}

#[test]
fn stage_timing_is_recorded_per_stage() {
    let files = shader_files();
    let plan = plan_load(two_stage_desc(), &files, 800, 600).unwrap();
    let mut pipeline = install(&plan, &vec![11, 12], &vec![(1, 2), (3, 4)]);

    pipeline.record_stage_time(0, 250);
    pipeline.record_stage_time(0, 350);
    assert_eq!(pipeline.stages[0].perf.sum(), 600);
    assert_eq!(pipeline.stages[1].perf.sum(), 0);
}
