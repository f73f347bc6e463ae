use spotisub::framing::copy_range;
use spotisub::framing::take_blocks;

#[test]
fn copy_range_copies_the_range() {
    let v: Vec<i16> = vec![10, 11, 12, 13, 14];
    assert_eq!(copy_range(&v, 1, 4), vec![11, 12, 13]);
    assert_eq!(copy_range(&v, 0, 5), v);
    assert_eq!(copy_range(&v, 2, 2), Vec::<i16>::new());
}

#[test]
fn take_blocks_leaves_the_remainder() {
    let mut buf: Vec<i16> = (0..11).collect();
    let blocks = take_blocks(&mut buf, 4);
    assert_eq!(blocks, vec![vec![0, 1, 2, 3], vec![4, 5, 6, 7]]);
    assert_eq!(buf, vec![8, 9, 10]);
    let blocks = take_blocks(&mut buf, 4);
    assert!(blocks.is_empty());
    assert_eq!(buf, vec![8, 9, 10]);
}

#[test]
fn take_blocks_on_a_boundary_leaves_nothing() {
    let mut buf: Vec<i16> = (0..8).collect();
    let blocks = take_blocks(&mut buf, 4);
    assert_eq!(blocks.len(), 2);
    assert!(buf.is_empty());
    assert_eq!(blocks[0], vec![0, 1, 2, 3]);
    assert_eq!(blocks[1], vec![4, 5, 6, 7]);
}

#[test]
fn padding_fills_up_with_zeros() {
    assert_eq!(spotisub::framing::pad_with_silence(&vec![4, 5], 5), vec![4, 5, 0, 0, 0]);
    assert_eq!(spotisub::framing::pad_with_silence(&vec![4, 5], 2), vec![4, 5]);
    assert_eq!(spotisub::framing::pad_with_silence(&vec![4, 5, 6], 2), vec![4, 5, 6]);
    assert_eq!(spotisub::framing::pad_with_silence(&Vec::new(), 3), vec![0, 0, 0]);
}
