use mir_project::timeline::SampleClock;
use mir_project::timeline::Timeline;
use mir_project::window::WindowShape;

fn timeline(window: usize, hop: usize, rate: u32) -> Timeline<i16> {
    Timeline::new(WindowShape::new(window, hop).unwrap(), SampleClock::new(rate).unwrap())
}

#[test]
fn clock_needs_a_positive_rate() {
    assert!(SampleClock::new(0).is_none());
    let clock = SampleClock::new(48000).unwrap();
    assert_eq!(clock.rate(), 48000);
}

#[test]
fn span_is_rounded_down_to_the_nanosecond() {
    let clock = SampleClock::new(48000).unwrap();
    assert_eq!(clock.span(0), 0);
    assert_eq!(clock.span(48000), 1_000_000_000);
    assert_eq!(clock.span(2048), 42_666_666);
    assert_eq!(clock.span(8192), 170_666_666);
    let slow = SampleClock::new(3).unwrap();
    assert_eq!(slow.span(1), 333_333_333);
    assert_eq!(slow.span(2), 666_666_666);
}

#[test]
fn first_callback_anchors_the_timeline() {
    let mut t = timeline(4, 2, 1000);
    assert_eq!(t.song_start(), None);
    assert_eq!(t.sample_rate(), 1000);
    t.begin(false, 500);
    assert_eq!(t.song_start(), Some(500));
    t.begin(false, 900);
    assert_eq!(t.song_start(), Some(500));
}

#[test]
fn progress_is_elapsed_less_buffered_plus_offset() {
    let mut t = timeline(4, 2, 1000);
    t.begin(false, 500);
    t.extend(&[1, 2, 3, 4, 5, 6]);
    assert_eq!(t.ready(), 2);
    // 10 ms after the anchor, 6 ms of samples buffered
    assert_eq!(t.progress(10_000_500, 0), Some(4_000_000));
    assert_eq!(t.progress(10_000_500, 1), Some(6_000_000));
    // the buffered samples span more than has elapsed: counted from zero
    assert_eq!(t.progress(1_000_500, 0), Some(0));
    assert_eq!(t.progress(1_000_500, 1), Some(2_000_000));
    let mut out = Vec::new();
    assert!(t.window_into(1, &mut out));
    assert_eq!(out, vec![3, 4, 5, 6]);
    assert_eq!(t.consume(2), 2);
    assert_eq!(t.len(), 2);
}

#[test]
fn no_progress_without_anchor_window_or_sound_clock() {
    let mut t = timeline(4, 2, 1000);
    t.extend(&[1, 2, 3, 4]);
    assert_eq!(t.progress(100, 0), None);
    t.begin(false, 500);
    assert_eq!(t.progress(499, 0), None);
    assert_eq!(t.progress(500, 0), Some(0));
    assert_eq!(t.progress(500, 1), None);
    // at the far end of the clock the value still fits: it never exceeds
    // the elapsed time where that is the larger
    let mut slow: Timeline<u8> = Timeline::new(
        WindowShape::new(1, 1).unwrap(),
        SampleClock::new(1).unwrap(),
    );
    slow.begin(false, 0);
    slow.extend(&vec![0u8; 20]);
    assert_eq!(slow.progress(u64::MAX, 19), Some(u64::MAX - 1_000_000_000));
    assert_eq!(slow.progress(u64::MAX, 0), Some(u64::MAX - 20_000_000_000));
}

#[test]
fn restart_rebases_progress_whatever_was_buffered() {
    let mut busy = timeline(4, 2, 1000);
    busy.begin(false, 10);
    busy.extend(&[9, 9, 9, 9, 9, 9, 9]);
    let mut fresh = timeline(4, 2, 1000);
    for t in [&mut busy, &mut fresh] {
        t.begin(true, 77_000_000);
        assert_eq!(t.len(), 0);
        assert_eq!(t.song_start(), Some(77_000_000));
        t.extend(&[1, 2, 3, 4, 5, 6]);
        assert_eq!(t.ready(), 2);
        assert_eq!(t.progress(77_000_000, 0), Some(0));
        assert_eq!(t.progress(77_000_000, 1), Some(2_000_000));
        let mut out = Vec::new();
        assert!(t.window_into(0, &mut out));
        assert_eq!(out, vec![1, 2, 3, 4]);
    }
}

#[test]
fn restart_in_a_short_callback_starts_near_zero() {
    let mut t = timeline(8, 4, 1000);
    t.begin(false, 0);
    t.extend(&[0; 100]);
    t.consume(t.ready());
    // restart with a chunk too short for a window
    t.begin(true, 5_000_000_000);
    t.extend(&[1, 2, 3, 4, 5]);
    assert_eq!(t.ready(), 0);
    assert_eq!(t.consume(0), 0);
    // the next callback completes the first window
    t.begin(false, 5_005_000_000);
    t.extend(&[6, 7, 8, 9, 10]);
    assert_eq!(t.ready(), 1);
    assert_eq!(t.progress(5_005_000_000, 0), Some(0));
}

#[test]
fn windows_of_one_callback_lie_a_hop_apart() {
    let mut t = timeline(8192, 2048, 48000);
    t.begin(false, 1_000);
    t.extend(&vec![0i16; 8192 + 5 * 2048]);
    assert_eq!(t.ready(), 6);
    let capture = 1_000 + 2_000_000_000;
    let mut last = t.progress(capture, 0).unwrap();
    for k in 1..6 {
        let next = t.progress(capture, k).unwrap();
        let step = next - last;
        assert!(step == 42_666_666 || step == 42_666_667);
        last = next;
    }
    assert_eq!(t.progress(capture, 3).unwrap() - t.progress(capture, 0).unwrap(), 128_000_000);
    // where a hop is a whole number of nanoseconds the step is exact
    let mut even = timeline(4, 2, 1000);
    even.begin(false, 0);
    even.extend(&[0; 12]);
    for k in 0..4 {
        let step = even.progress(50_000_000, k + 1).unwrap() - even.progress(50_000_000, k).unwrap();
        assert_eq!(step, 2_000_000);
    }
}

#[test]
fn progress_does_not_fall_back_across_callbacks() {
    let mut t = timeline(8192, 2048, 48000);
    let clock = SampleClock::new(48000).unwrap();
    let anchor: u64 = 123_456_789;
    // the first callback anchors the timeline; later capture instants lie
    // the span of all samples delivered after the first chunk from it
    let chunk = vec![0i16; 1920];
    let mut delivered: usize = 0;
    let mut last: Option<u64> = None;
    let mut frames = 0;
    for turn in 0..60 {
        let capture = if turn == 0 { anchor } else { anchor + clock.span(delivered) as u64 };
        t.begin(false, capture);
        t.extend(&chunk);
        if turn > 0 {
            delivered += chunk.len();
        }
        let ready = t.ready();
        for k in 0..ready {
            let progress = t.progress(capture, k).unwrap();
            if let Some(before) = last {
                assert!(progress >= before);
            }
            last = Some(progress);
            frames += 1;
        }
        t.consume(ready);
    }
    assert_eq!(frames, (60 * 1920 - 8192) / 2048 + 1);
}
