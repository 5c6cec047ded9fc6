use shader_jockey::util::{deinterlace, interlace};

#[test]
fn interlace_simple() {
    let first = &[1, 2, 3, 4];
    let second = &[5, 6, 7, 8];
    let vec = interlace(first, second);

    assert_eq!(vec, &[1, 5, 2, 6, 3, 7, 4, 8]);
}

#[test]
fn deinterlace_simple() {
    let slice = &[1, 5, 2, 6, 3, 7, 4, 8];
    let (first, second) = deinterlace(slice);

    assert_eq!(first, &[1, 2, 3, 4]);
    assert_eq!(second, &[5, 6, 7, 8]);
}

#[test]
fn interlace_unbalanced() {
    let first = &[1, 2, 3];
    let second = &[4, 5, 6, 7, 8];
    let vec = interlace(first, second);

    assert_eq!(vec, &[1, 4, 2, 5, 3, 6, 7, 8]);
}

#[test]
fn deinterlace_unbalanced() {
    let slice = &[1, 2, 3, 4, 5];
    let (first, second) = deinterlace(slice);

    assert_eq!(first, &[1, 3, 5]);
    assert_eq!(second, &[2, 4]);
}

#[test]
fn interlace_empty_sides() {
    let none: &[u32] = &[];
    assert_eq!(interlace(none, none), Vec::<u32>::new());
    assert_eq!(interlace(&[1, 2], none), vec![1, 2]);
    assert_eq!(interlace(none, &[3, 4]), vec![3, 4]);
}

#[test]
fn deinterlace_round_trip() {
    let first = &[1, 2, 3];
    let second = &[4, 5, 6];
    let woven = interlace(first, second);
    let (a, b) = deinterlace(woven.as_slice());
    assert_eq!(a, first);
    assert_eq!(b, second);
}
