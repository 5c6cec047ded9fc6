use shader_jockey::preprocess::{expand_file, preprocess, FileTable, PreprocessError};

/// Builds an inclusion directive; the keyword is assembled at run time.
fn directive(open: char, name: &str, close: char) -> Vec<u8> {
    let mut v = Vec::new();
    v.extend_from_slice(b"#inc");
    v.extend_from_slice(b"lude ");
    v.push(open as u8);
    v.extend_from_slice(name.as_bytes());
    v.push(close as u8);
    v
}

fn pragma_directive(name: &str) -> Vec<u8> {
    let mut v = Vec::new();
    v.extend_from_slice(b"#pragma inc");
    v.extend_from_slice(b"lude <");
    v.extend_from_slice(name.as_bytes());
    v.push(b'>');
    v
}

fn text(parts: &[&[u8]]) -> Vec<u8> {
    let mut v = Vec::new();
    for p in parts {
        v.extend_from_slice(p);
    }
    v
}

#[test]
fn plain_text_is_unchanged() {
    let table = FileTable::new();
    let code = b"void main() { x = 1; }".to_vec();
    let out = preprocess(&table, &code).unwrap();
    assert_eq!(out, code);
}

#[test]
fn chain_flattens() {
    // A pulls in B, B pulls in C, none repeat: the result is the fully
    // flattened concatenation.
    let mut table = FileTable::new();
    table.insert(
        b"A".to_vec(),
        text(&[b"a1 ", &directive('"', "B", '"'), b" a2"]),
    );
    table.insert(
        b"B".to_vec(),
        text(&[b"b1 ", &directive('<', "C", '>'), b" b2"]),
    );
    table.insert(b"C".to_vec(), b"c".to_vec());

    let out = expand_file(&table, b"A").unwrap();
    assert_eq!(out, b"a1 b1 c b2 a2".to_vec());
}

#[test]
fn expansion_is_idempotent() {
    // Expanding an already-flattened text changes nothing.
    let mut table = FileTable::new();
    table.insert(b"A".to_vec(), text(&[b"head ", &directive('"', "B", '"')]));
    table.insert(b"B".to_vec(), b"tail".to_vec());

    let once = expand_file(&table, b"A").unwrap();
    let twice = preprocess(&table, &once).unwrap();
    assert_eq!(once, twice);
}

#[test]
fn cycle_is_detected_and_names_the_root() {
    // A pulls in B and B pulls in A again: the error names A.
    let mut table = FileTable::new();
    table.insert(b"A".to_vec(), directive('"', "B", '"'));
    table.insert(b"B".to_vec(), directive('"', "A", '"'));

    let err = expand_file(&table, b"A").unwrap_err();
    assert_eq!(err, PreprocessError::Cycle { name: b"A".to_vec() });
}

#[test]
fn self_inclusion_is_a_cycle() {
    let mut table = FileTable::new();
    table.insert(b"A".to_vec(), directive('<', "A", '>'));

    let err = expand_file(&table, b"A").unwrap_err();
    assert_eq!(err, PreprocessError::Cycle { name: b"A".to_vec() });
}

#[test]
fn missing_file_is_reported() {
    let table = FileTable::new();
    let code = directive('"', "nope.glsl", '"');
    let err = preprocess(&table, &code).unwrap_err();
    assert_eq!(
        err,
        PreprocessError::Missing { name: b"nope.glsl".to_vec() }
    );
}

#[test]
fn missing_root_is_reported() {
    let table = FileTable::new();
    let err = expand_file(&table, b"gone").unwrap_err();
    assert_eq!(err, PreprocessError::Missing { name: b"gone".to_vec() });
}

#[test]
fn siblings_may_repeat_a_file() {
    // The path set is per inclusion path, not global: the same file twice
    // in one text is fine.
    let mut table = FileTable::new();
    table.insert(
        b"A".to_vec(),
        text(&[&directive('"', "B", '"'), b" and ", &directive('"', "B", '"')]),
    );
    table.insert(b"B".to_vec(), b"x".to_vec());

    let out = expand_file(&table, b"A").unwrap();
    assert_eq!(out, b"x and x".to_vec());
}

#[test]
fn pragma_form_is_accepted() {
    let mut table = FileTable::new();
    table.insert(b"lib".to_vec(), b"fn".to_vec());
    let code = text(&[b"pre ", &pragma_directive("lib"), b" post"]);
    let out = preprocess(&table, &code).unwrap();
    assert_eq!(out, b"pre fn post".to_vec());
}

#[test]
fn unterminated_directive_is_plain_text() {
    // No closing bracket on the same line: not a directive at all.
    let table = FileTable::new();
    let mut code = Vec::new();
    code.extend_from_slice(b"#inc");
    code.extend_from_slice(b"lude <open\nrest");
    let out = preprocess(&table, &code).unwrap();
    assert_eq!(out, code);
}
