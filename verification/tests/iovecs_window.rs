//! The windowed-view test suite: the same boundary shapes as the owned
//! buffer-list suite, exercised through fresh buffer values.

use cbt::iovecs::{advance, IoVec, IoVecs};

fn make_bufs(blocks: &[Vec<u8>]) -> Vec<IoVec> {
    blocks.iter().map(|b| IoVec::from_slice(b)).collect()
}

fn flat(bufs: &[IoVec]) -> Vec<u8> {
    bufs.iter().flat_map(|b| b.as_slice().to_vec()).collect()
}

fn flat_blocks(blocks: &[Vec<u8>]) -> Vec<u8> {
    blocks.iter().flatten().copied().collect()
}

#[test]
fn window_should_not_split_buffers_same_size_as_file() {
    let file_len = 32;
    let blocks = vec![(0..16).collect::<Vec<u8>>(), (16..32).collect::<Vec<u8>>()];
    let blocks_len: usize = blocks.iter().map(Vec::len).sum();

    let iovecs = IoVecs::bounded(make_bufs(&blocks), file_len);

    assert_eq!(iovecs.as_slice().len(), 2);
    assert!(!iovecs.is_split());

    let first_half = iovecs.as_u8_vec();
    let expected_first_half = flat_blocks(&blocks);
    assert_eq!(first_half.len(), file_len);
    assert_eq!(first_half.len(), blocks_len);
    assert_eq!(first_half, expected_first_half);

    let second_half = iovecs.into_tail();
    assert!(second_half.is_empty());
}

#[test]
fn window_should_not_split_buffers_smaller_than_file() {
    let file_len = 42;
    let blocks = vec![(0..16).collect::<Vec<u8>>(), (16..32).collect::<Vec<u8>>()];
    let blocks_len: usize = blocks.iter().map(Vec::len).sum();

    let iovecs = IoVecs::bounded(make_bufs(&blocks), file_len);

    assert_eq!(iovecs.as_slice().len(), 2);
    assert!(!iovecs.is_split());

    let first_half = iovecs.as_u8_vec();
    let expected_first_half = flat_blocks(&blocks);
    assert_eq!(first_half.len(), blocks_len);
    assert_eq!(first_half, expected_first_half);

    let second_half = iovecs.into_tail();
    assert!(second_half.is_empty());
}

#[test]
fn window_should_split_last_buffer_not_at_boundary() {
    let file_len = 25;
    let blocks = vec![(0..16).collect::<Vec<u8>>(), (16..32).collect::<Vec<u8>>()];

    let iovecs = IoVecs::bounded(make_bufs(&blocks), file_len);

    assert_eq!(iovecs.as_slice().len(), 2);

    let first_half = iovecs.as_u8_vec();
    let expected_first_half: Vec<u8> = flat_blocks(&blocks).into_iter().take(file_len).collect();
    assert_eq!(first_half.len(), file_len);
    assert_eq!(first_half, expected_first_half);

    let second_half = flat(&iovecs.into_tail());
    assert_eq!(second_half.len(), 7);
    let expected_second_half: Vec<u8> = flat_blocks(&blocks).into_iter().skip(file_len).collect();
    assert_eq!(second_half, expected_second_half);
}

#[test]
fn window_should_split_middle_buffer_not_at_boundary() {
    let file_len = 25;
    let blocks = vec![
        (0..16).collect::<Vec<u8>>(),
        (16..32).collect::<Vec<u8>>(),
        (32..48).collect::<Vec<u8>>(),
    ];

    let iovecs = IoVecs::bounded(make_bufs(&blocks), file_len);

    assert_eq!(iovecs.as_slice().len(), 2);
    assert!(iovecs.is_split());

    let first_half = iovecs.as_u8_vec();
    let expected_first_half: Vec<u8> = flat_blocks(&blocks).into_iter().take(file_len).collect();
    assert_eq!(first_half.len(), file_len);
    assert_eq!(first_half, expected_first_half);

    let second_half = flat(&iovecs.into_tail());
    assert_eq!(second_half.len(), 7 + 16);
    let expected_second_half: Vec<u8> = flat_blocks(&blocks).into_iter().skip(file_len).collect();
    assert_eq!(second_half, expected_second_half);
}

#[test]
fn window_partial_advance_in_first_half_should_not_affect_rest() {
    let file_len = 25;
    let blocks = vec![
        (0..16).collect::<Vec<u8>>(),
        (16..32).collect::<Vec<u8>>(),
        (32..48).collect::<Vec<u8>>(),
    ];

    let mut iovecs = IoVecs::bounded(make_bufs(&blocks), file_len);

    let advance_count = 18;
    iovecs.advance(advance_count);

    let first_half = iovecs.as_u8_vec();
    let expected_first_half: Vec<u8> = flat_blocks(&blocks)
        .into_iter()
        .take(file_len)
        .skip(advance_count)
        .collect();
    assert_eq!(first_half, expected_first_half);

    let second_half = flat(&iovecs.into_tail());
    assert_eq!(second_half.len(), 7 + 16);
    let expected_second_half: Vec<u8> = flat_blocks(&blocks).into_iter().skip(file_len).collect();
    assert_eq!(second_half, expected_second_half);
}

#[test]
fn window_advances_in_first_half_should_not_affect_rest() {
    let file_len = 25;
    let blocks = vec![
        (0..16).collect::<Vec<u8>>(),
        (16..32).collect::<Vec<u8>>(),
        (32..48).collect::<Vec<u8>>(),
    ];

    let mut iovecs = IoVecs::bounded(make_bufs(&blocks), file_len);

    let advance_count = 18;
    iovecs.advance(advance_count);

    let first_half = iovecs.as_u8_vec();
    let expected_first_half: Vec<u8> = flat_blocks(&blocks)
        .into_iter()
        .take(file_len)
        .skip(advance_count)
        .collect();
    assert_eq!(first_half, expected_first_half);

    let advance_count = file_len - advance_count;
    iovecs.advance(advance_count);

    assert!(iovecs.as_u8_vec().is_empty());

    let second_half = flat(&iovecs.into_tail());
    assert_eq!(second_half.len(), 7 + 16);
    let expected_second_half: Vec<u8> = flat_blocks(&blocks).into_iter().skip(file_len).collect();
    assert_eq!(second_half, expected_second_half);
}

#[test]
fn window_consuming_first_half_should_not_affect_second_half() {
    let file_len = 32;
    let blocks = vec![
        (0..16).collect::<Vec<u8>>(),
        (16..32).collect::<Vec<u8>>(),
        (32..48).collect::<Vec<u8>>(),
    ];

    let mut iovecs = IoVecs::bounded(make_bufs(&blocks), file_len);

    let advance_count = file_len;
    iovecs.advance(advance_count);

    assert!(iovecs.as_u8_vec().is_empty());

    let second_half = flat(&iovecs.into_tail());
    assert_eq!(second_half.len(), 16);
    let expected_second_half: Vec<u8> = flat_blocks(&blocks).into_iter().skip(file_len).collect();
    assert_eq!(second_half, expected_second_half);
}

#[test]
fn window_should_advance_into_first_buffer() {
    let bufs = vec![vec![0, 1, 2], vec![3, 4, 5]];
    let iovecs = make_bufs(&bufs);

    let n = 2;
    let iovecs = advance(iovecs, n);
    let actual = flat(&iovecs);
    let expected: Vec<u8> = flat_blocks(&bufs).into_iter().skip(n).collect();
    assert_eq!(actual, expected);
}

#[test]
fn window_should_trim_whole_first_buffer() {
    let bufs = vec![vec![0, 1, 2], vec![3, 4, 5], vec![6, 7, 8]];
    let iovecs = make_bufs(&bufs);

    let n = 3;
    let iovecs = advance(iovecs, n);
    let actual = flat(&iovecs);
    let expected: Vec<u8> = flat_blocks(&bufs).into_iter().skip(n).collect();
    assert_eq!(actual, expected);
}

#[test]
fn window_should_advance_into_second_buffer() {
    let bufs = vec![vec![0, 1, 2], vec![3, 4, 5], vec![6, 7, 8]];
    let iovecs = make_bufs(&bufs);

    let n = 5;
    let iovecs = advance(iovecs, n);
    let actual = flat(&iovecs);
    let expected: Vec<u8> = flat_blocks(&bufs).into_iter().skip(n).collect();
    assert_eq!(actual, expected);
}

#[test]
fn window_should_trim_all_buffers() {
    let bufs = vec![vec![0, 1, 2], vec![3, 4, 5], vec![6, 7, 8]];
    let iovecs = make_bufs(&bufs);

    let n = 9;
    let iovecs = advance(iovecs, n);
    assert!(flat(&iovecs).is_empty());
}
