use mir_project::window::WindowAccumulator;
use mir_project::window::WindowShape;

/// Feeds `total` samples in chunks of the given sizes (the last chunk takes
/// what is left) and counts the windows read, callback by callback.
fn windows_read(window: usize, hop: usize, total: usize, sizes: &[usize]) -> (usize, usize) {
    let shape = WindowShape::new(window, hop).unwrap();
    let mut acc: WindowAccumulator<u32> = WindowAccumulator::new(shape);
    let samples: Vec<u32> = (0..total as u32).collect();
    let mut fed = 0;
    let mut read = 0;
    let mut out = Vec::new();
    let mut turn = 0;
    while fed < total {
        let size = if sizes.is_empty() { total } else { sizes[turn % sizes.len()] };
        let size = size.min(total - fed);
        acc.extend(&samples[fed..fed + size]);
        fed += size;
        turn += 1;
        let ready = acc.ready();
        for k in 0..ready {
            assert!(acc.window_into(k, &mut out));
            let start = (read + k) * hop;
            let expected: Vec<u32> = (start as u32..(start + window) as u32).collect();
            assert_eq!(out, expected);
        }
        assert_eq!(acc.consume(ready), ready);
        read += ready;
    }
    (read, acc.len())
}

#[test]
fn shape_rejects_bad_hops() {
    assert!(WindowShape::new(8, 0).is_none());
    assert!(WindowShape::new(8, 9).is_none());
    assert!(WindowShape::new(0, 0).is_none());
    assert!(WindowShape::new(8, 8).is_some());
    assert!(WindowShape::new(8, 1).is_some());
    let shape = WindowShape::new(8192, 2048).unwrap();
    assert_eq!(shape.window_size(), 8192);
    assert_eq!(shape.hop_size(), 2048);
}

#[test]
fn shape_counts_complete_windows() {
    let shape = WindowShape::new(8, 2).unwrap();
    assert_eq!(shape.count(0), 0);
    assert_eq!(shape.count(7), 0);
    assert_eq!(shape.count(8), 1);
    assert_eq!(shape.count(9), 1);
    assert_eq!(shape.count(10), 2);
    assert_eq!(shape.count(100), 47);
    let touching = WindowShape::new(8, 8).unwrap();
    assert_eq!(touching.count(15), 1);
    assert_eq!(touching.count(16), 2);
}

#[test]
fn windows_overlap_by_window_less_hop() {
    let shape = WindowShape::new(4, 2).unwrap();
    let mut acc: WindowAccumulator<i32> = WindowAccumulator::new(shape);
    acc.extend(&[1, 2, 3]);
    assert_eq!(acc.ready(), 0);
    acc.extend(&[4, 5, 6, 7]);
    assert_eq!(acc.ready(), 2);
    let mut out = Vec::new();
    assert!(acc.window_into(0, &mut out));
    assert_eq!(out, vec![1, 2, 3, 4]);
    assert!(acc.window_into(1, &mut out));
    assert_eq!(out, vec![3, 4, 5, 6]);
    assert!(!acc.window_into(2, &mut out));
    assert_eq!(out, vec![3, 4, 5, 6]);
    assert_eq!(acc.consume(2), 2);
    assert_eq!(acc.len(), 3);
    assert_eq!(acc.ready(), 0);
    acc.extend(&[8]);
    assert!(acc.window_into(0, &mut out));
    assert_eq!(out, vec![5, 6, 7, 8]);
}

#[test]
fn consume_takes_no_more_than_is_complete() {
    let shape = WindowShape::new(4, 4).unwrap();
    let mut acc: WindowAccumulator<u8> = WindowAccumulator::new(shape);
    acc.extend(&[1, 2, 3, 4, 5, 6, 7, 8, 9]);
    assert_eq!(acc.consume(7), 2);
    assert_eq!(acc.len(), 1);
    assert_eq!(acc.consume(1), 0);
    assert_eq!(acc.len(), 1);
    acc.clear();
    assert_eq!(acc.len(), 0);
    assert_eq!(acc.shape().window_size(), 4);
}

#[test]
fn no_window_for_a_partial_window() {
    assert_eq!(windows_read(8192, 2048, 8191, &[1920]), (0, 8191));
    assert_eq!(windows_read(8192, 2048, 8192, &[1920]), (1, 6144));
    assert_eq!(windows_read(8192, 2048, 10239, &[1920]), (1, 8191));
    assert_eq!(windows_read(8192, 2048, 10240, &[1920]), (2, 6144));
}

#[test]
fn window_count_does_not_depend_on_chunking() {
    let total = 5 * 8192 + 777;
    let expected = (total - 8192) / 2048 + 1;
    assert_eq!(expected, 17);
    let kept = total - expected * 2048;
    assert_eq!(windows_read(8192, 2048, total, &[]), (expected, kept));
    assert_eq!(windows_read(8192, 2048, total, &[1]), (expected, kept));
    assert_eq!(windows_read(8192, 2048, total, &[1920]), (expected, kept));
    assert_eq!(windows_read(8192, 2048, total, &[3, 40000, 17, 512]), (expected, kept));
    assert_eq!(windows_read(8192, 2048, total, &[8192]), (expected, kept));
    // without overlap: one window per whole window of samples
    assert_eq!(windows_read(100, 100, 1050, &[7, 333]), (10, 50));
}

#[test]
fn room_that_cannot_be_had_is_done_without() {
    // no machine has room for two windows of this length; the buffer is
    // made all the same and grows as it fills
    let shape = WindowShape::new(usize::MAX, 1).unwrap();
    let mut acc: WindowAccumulator<u64> = WindowAccumulator::new(shape);
    acc.extend(&[1, 2, 3]);
    assert_eq!(acc.len(), 3);
    assert_eq!(acc.ready(), 0);
    assert_eq!(acc.consume(1), 0);
    assert_eq!(acc.len(), 3);
}

#[test]
fn buffer_is_reused_across_many_callbacks() {
    let shape = WindowShape::new(8, 2).unwrap();
    let mut acc: WindowAccumulator<u32> = WindowAccumulator::new(shape);
    let mut out = Vec::new();
    let mut next = 0u32;
    let mut read = 0u32;
    for turn in 0..1000 {
        let chunk: Vec<u32> = (next..next + 1 + turn % 5).collect();
        next += chunk.len() as u32;
        acc.extend(&chunk);
        let ready = acc.ready();
        for k in 0..ready {
            assert!(acc.window_into(k, &mut out));
            let start = 2 * read;
            assert_eq!(out, (start..start + 8).collect::<Vec<u32>>());
            read += 1;
        }
        acc.consume(ready);
        // less than a window is ever left behind
        assert!(acc.len() < 8);
    }
    assert_eq!(read as usize, (next as usize - 8) / 2 + 1);
}
