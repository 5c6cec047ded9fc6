use shader_jockey::parse::{ParseError, ParseErrorKind};
use shader_jockey::pipeline::{
    install, plan_load, BufferDecl, BufferPolicy, LoadError, PipelineDesc, ShaderSlot, ShaderType,
    StageDecl, StageKind,
};
use shader_jockey::preprocess::FileTable;
use shader_jockey::reload::{should_reload, Engine, DEBOUNCE_MILLIS};

fn loaded_engine() -> Engine {
    let mut files = FileTable::new();
    files.insert(b"f.glsl".to_vec(), b"frag".to_vec());
    let desc = PipelineDesc {
        buffers: vec![BufferDecl { name: b"color".to_vec(), policy: BufferPolicy::WindowSized }],
        stages: vec![StageDecl {
            shaders: vec![ShaderSlot { ty: ShaderType::Fragment, path: b"f.glsl".to_vec() }],
            kind: StageKind::Fullscreen,
            deps: vec![b"color".to_vec()],
            target: None,
            resolution: None,
        }],
    };
    let plan = plan_load(desc, &files, 640, 480).unwrap();
    let pipeline = install(&plan, &vec![5], &vec![(9, 10)]);
    let mut engine = Engine::new();
    engine.apply_load(Ok(pipeline));
    engine
}

#[test]
fn successful_load_installs_and_clears_diagnostic() {
    let engine = loaded_engine();
    assert_eq!(engine.pipeline.stages.len(), 1);
    assert_eq!(engine.pipeline.buffers.len(), 1);
    assert!(engine.diagnostic.is_none());
}

#[test]
fn failed_reload_keeps_the_running_pipeline() {
    // A reload that fails leaves the active pipeline's stage count and
    // buffer set untouched and surfaces the diagnostic.
    let mut engine = loaded_engine();
    let before_stages = engine.pipeline.stages.len();
    let before_buffer = engine.pipeline.buffers[0].name.clone();

    engine.apply_load(Err(LoadError::UnresolvedReference {
        stage: 0,
        name: b"ghost".to_vec(),
    }));

    assert_eq!(engine.pipeline.stages.len(), before_stages);
    assert_eq!(engine.pipeline.buffers.len(), 1);
    assert_eq!(engine.pipeline.buffers[0].name, before_buffer);
    assert_eq!(
        engine.diagnostic,
        Some(LoadError::UnresolvedReference { stage: 0, name: b"ghost".to_vec() })
    );
}

#[test]
fn compile_failure_keeps_the_running_pipeline() {
    let mut engine = loaded_engine();
    engine.apply_load(Err(LoadError::Compile { stage: 0, log: b"syntax error".to_vec() }));
    assert_eq!(engine.pipeline.stages.len(), 1);
    assert!(matches!(engine.diagnostic, Some(LoadError::Compile { .. })));
}

#[test]
fn link_failure_keeps_the_running_pipeline() {
    let mut engine = loaded_engine();
    engine.apply_load(Err(LoadError::Link { stage: 0, log: b"undefined symbol".to_vec() }));
    assert_eq!(engine.pipeline.stages.len(), 1);
    assert!(matches!(engine.diagnostic, Some(LoadError::Link { .. })));
}

#[test]
fn parse_failure_keeps_the_running_pipeline() {
    let mut engine = loaded_engine();
    engine.apply_load(Err(LoadError::Parse {
        error: ParseError { line: 3, kind: ParseErrorKind::UnknownWord },
    }));
    assert_eq!(engine.pipeline.stages.len(), 1);
    assert!(matches!(engine.diagnostic, Some(LoadError::Parse { .. })));
}

#[test]
fn unreadable_description_keeps_the_running_pipeline() {
    let mut engine = loaded_engine();
    engine.apply_load(Err(LoadError::Io { message: b"no such file".to_vec() }));
    assert_eq!(engine.pipeline.stages.len(), 1);
    assert!(matches!(engine.diagnostic, Some(LoadError::Io { .. })));
}

#[test]
fn frame_time_is_smoothed_over_the_window() {
    let mut engine = Engine::new();
    engine.record_frame_time(16000);
    engine.record_frame_time(18000);
    assert_eq!(engine.frame_perf.sum(), 34000);
    assert_eq!(engine.frame_perf.len(), 128);
}

#[test]
fn reload_is_debounced() {
    assert!(!should_reload(true, DEBOUNCE_MILLIS, false));
    assert!(should_reload(true, DEBOUNCE_MILLIS + 1, false));
    assert!(!should_reload(false, 10_000, false));
    // A manual trigger ignores the debounce window.
    assert!(should_reload(false, 0, true));
}
