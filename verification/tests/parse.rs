use shader_jockey::parse::{parse_description, ParseError, ParseErrorKind};
use shader_jockey::pipeline::{BufferPolicy, Resolution, ShaderType, StageKind};

#[test]
fn description_round_trip() {
    let text = b"\
# intro comment

buffer color window
buffer volume fixed 64 64 4

stage compute 8 0 0
comp c.glsl
out color

stage fullscreen
vertex v.glsl
fragment f.glsl
in color
size 128 256
end
";
    let desc = parse_description(text).unwrap();

    assert_eq!(desc.buffers.len(), 2);
    assert_eq!(desc.buffers[0].name, b"color".to_vec());
    assert_eq!(desc.buffers[0].policy, BufferPolicy::WindowSized);
    assert_eq!(desc.buffers[1].name, b"volume".to_vec());
    assert_eq!(
        desc.buffers[1].policy,
        BufferPolicy::Fixed { width: 64, height: 64, depth: 4 }
    );

    assert_eq!(desc.stages.len(), 2);
    assert_eq!(desc.stages[0].kind, StageKind::Compute { x: 8, y: 0, z: 0 });
    assert_eq!(desc.stages[0].shaders.len(), 1);
    assert_eq!(desc.stages[0].shaders[0].ty, ShaderType::Compute);
    assert_eq!(desc.stages[0].shaders[0].path, b"c.glsl".to_vec());
    assert_eq!(desc.stages[0].target, Some(b"color".to_vec()));
    assert_eq!(desc.stages[0].resolution, None);

    assert_eq!(desc.stages[1].kind, StageKind::Fullscreen);
    assert_eq!(desc.stages[1].shaders.len(), 2);
    assert_eq!(desc.stages[1].shaders[0].ty, ShaderType::Vertex);
    assert_eq!(desc.stages[1].shaders[1].ty, ShaderType::Fragment);
    assert_eq!(desc.stages[1].deps, vec![b"color".to_vec()]);
    assert_eq!(desc.stages[1].target, None);
    assert_eq!(
        desc.stages[1].resolution,
        Some(Resolution { width: 128, height: 256, depth: 0 })
    );
}

#[test]
fn empty_text_is_an_empty_description() {
    let desc = parse_description(b"").unwrap();
    assert_eq!(desc.buffers.len(), 0);
    assert_eq!(desc.stages.len(), 0);
}

#[test]
fn end_of_text_closes_an_open_stage() {
    let desc = parse_description(b"stage fullscreen\nfragment f.glsl").unwrap();
    assert_eq!(desc.stages.len(), 1);
    assert_eq!(desc.stages[0].shaders.len(), 1);
}

#[test]
fn vertices_stage_takes_count_and_mode() {
    let desc = parse_description(b"stage vertices 9 4\nvertex v.glsl\nend\n").unwrap();
    assert_eq!(desc.stages[0].kind, StageKind::Explicit { count: 9, mode: 4 });
}

#[test]
fn several_dependencies_on_one_line_keep_their_order() {
    let desc = parse_description(b"buffer a window\nbuffer b window\nstage fullscreen\nin a b\nend\n")
        .unwrap();
    assert_eq!(desc.stages[0].deps, vec![b"a".to_vec(), b"b".to_vec()]);
}

#[test]
fn unknown_word_is_rejected_with_its_line() {
    let err = parse_description(b"buffer a window\nnonsense here\n").unwrap_err();
    assert_eq!(err, ParseError { line: 2, kind: ParseErrorKind::UnknownWord });
}

#[test]
fn malformed_number_is_rejected() {
    let err = parse_description(b"buffer a fixed 12 oops\n").unwrap_err();
    assert_eq!(err, ParseError { line: 1, kind: ParseErrorKind::NumberExpected });
}

#[test]
fn oversized_number_is_rejected() {
    let err = parse_description(b"buffer a fixed 99999999999 64\n").unwrap_err();
    assert_eq!(err, ParseError { line: 1, kind: ParseErrorKind::NumberExpected });
}

#[test]
fn missing_buffer_name_is_rejected() {
    let err = parse_description(b"buffer\n").unwrap_err();
    assert_eq!(err, ParseError { line: 1, kind: ParseErrorKind::BufferNameExpected });
}

#[test]
fn missing_policy_is_rejected() {
    let err = parse_description(b"buffer a\n").unwrap_err();
    assert_eq!(err, ParseError { line: 1, kind: ParseErrorKind::PolicyExpected });
}

#[test]
fn shader_outside_a_stage_is_rejected() {
    let err = parse_description(b"fragment f.glsl\n").unwrap_err();
    assert_eq!(err, ParseError { line: 1, kind: ParseErrorKind::ShaderOutsideStage });
}

#[test]
fn target_outside_a_stage_is_rejected() {
    let err = parse_description(b"out color\n").unwrap_err();
    assert_eq!(err, ParseError { line: 1, kind: ParseErrorKind::TargetOutsideStage });
}

#[test]
fn missing_stage_kind_is_rejected() {
    let err = parse_description(b"stage\n").unwrap_err();
    assert_eq!(err, ParseError { line: 1, kind: ParseErrorKind::StageKindExpected });
}
