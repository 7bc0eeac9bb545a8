use pitch_tracker::window::{WindowAssembler, WindowShape};

#[test]
fn default_shape_is_512_padded_by_256() {
    let shape = WindowShape::default();
    assert_eq!(shape.window_size(), 512);
    assert_eq!(shape.padding_size(), 256);
    let odd = WindowShape::new(7);
    assert_eq!(odd.padding_size(), 3);
}

#[test]
fn chunk_smaller_than_window_is_buffered() {
    let mut a: WindowAssembler<i32> = WindowAssembler::new(4);
    let out = a.feed(&[1, 2, 3]);
    assert!(out.is_empty());
    assert_eq!(a.buffered_len(), 3);
}

#[test]
fn exact_window_is_emitted() {
    let mut a: WindowAssembler<i32> = WindowAssembler::new(3);
    let out = a.feed(&[1, 2, 3]);
    assert_eq!(out, vec![vec![1, 2, 3]]);
    assert_eq!(a.buffered_len(), 0);
}

#[test]
fn remainder_carries_over_between_chunks() {
    let mut a: WindowAssembler<i32> = WindowAssembler::new(4);
    assert!(a.feed(&[1, 2, 3]).is_empty());
    let out = a.feed(&[4, 5, 6, 7, 8, 9, 10]);
    assert_eq!(out, vec![vec![1, 2, 3, 4], vec![5, 6, 7, 8]]);
    assert_eq!(a.buffered_len(), 2);
    let out = a.feed(&[11, 12]);
    assert_eq!(out, vec![vec![9, 10, 11, 12]]);
    assert_eq!(a.buffered_len(), 0);
}

#[test]
fn empty_chunk_changes_nothing() {
    let mut a: WindowAssembler<i32> = WindowAssembler::new(2);
    a.feed(&[5]);
    assert!(a.feed(&[]).is_empty());
    assert_eq!(a.buffered_len(), 1);
    assert_eq!(a.window_size(), 2);
}

#[test]
fn stream_leaves_total_mod_window_buffered() {
    let n: usize = 512;
    let mut a: WindowAssembler<u32> = WindowShape::new(n).assembler();
    let sizes = [100_usize, 1, 700, 512, 37, 0, 1024, 3];
    let mut next: u32 = 0;
    let mut seen: Vec<u32> = Vec::new();
    let mut total: usize = 0;
    for s in sizes {
        let chunk: Vec<u32> = (next..next + s as u32).collect();
        next += s as u32;
        total += s;
        for w in a.feed(&chunk) {
            assert_eq!(w.len(), n);
            seen.extend(w);
        }
    }
    assert_ne!(total % n, 0);
    assert_eq!(a.buffered_len(), total % n);
    assert_eq!(seen.len(), total - total % n);
    let expected: Vec<u32> = (0..seen.len() as u32).collect();
    assert_eq!(seen, expected);
}

#[test]
fn window_of_one_emits_every_sample() {
    let mut a: WindowAssembler<u8> = WindowAssembler::new(1);
    let out = a.feed(&[7, 8, 9]);
    assert_eq!(out, vec![vec![7], vec![8], vec![9]]);
    assert_eq!(a.buffered_len(), 0);
}

#[test]
fn reset_drops_partial_window() {
    let mut a: WindowAssembler<i32> = WindowAssembler::new(3);
    a.feed(&[1, 2]);
    a.reset();
    assert_eq!(a.buffered_len(), 0);
    assert_eq!(a.feed(&[3, 4, 5]), vec![vec![3, 4, 5]]);
}
