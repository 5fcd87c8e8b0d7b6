use std::cell::Cell;
use tui_player::eq::{preset_gains, EqParams, FilterSpec};
use tui_player::source::{pcm_bytes, PipeTap, ProcessedSource, EQ_REFRESH_INTERVAL};

fn gain_filter(spec: FilterSpec) -> Option<i64> {
    Some(spec.gain as i64)
}

fn add(f: i64, x: i64) -> (i64, i64) {
    (f, x + f)
}

fn double(x: i64) -> i64 {
    2 * x
}

#[test]
fn pull_ends_with_the_decoder() {
    let mut source: ProcessedSource<i64> =
        ProcessedSource::new(2, 44_100, &EqParams::default(), &gain_filter);
    assert!(!source.is_finished());
    assert_eq!(source.pull(Some(3), None, &gain_filter, &add, &double), Some(6));
    assert!(!source.is_finished());
    assert_eq!(source.pull(None::<i64>, None, &gain_filter, &add, &double), None);
    assert!(source.is_finished());
    assert_eq!(source.channels(), 2);
    assert_eq!(source.sample_rate(), 44_100);
}

#[test]
fn pull_filters_then_normalizes() {
    let mut p = EqParams::default();
    p.gains = preset_gains(1);
    let sum: i64 = p.gains.iter().map(|g| *g as i64).sum();
    let mut source: ProcessedSource<i64> = ProcessedSource::new(1, 48_000, &p, &gain_filter);
    assert_eq!(source.pull(Some(5), None, &gain_filter, &add, &double), Some(2 * (5 + sum)));
    p.enabled = false;
    let mut source: ProcessedSource<i64> = ProcessedSource::new(1, 48_000, &p, &gain_filter);
    assert_eq!(source.pull(Some(5), None, &gain_filter, &add, &double), Some(10));
}

#[test]
fn pull_takes_the_channels_in_turn() {
    // the filters of a channel carry the number of the channel
    let made = Cell::new(0i64);
    let by_channel = |_spec: FilterSpec| {
        made.set(made.get() + 1);
        Some((made.get() - 1) / 32)
    };
    let mut source: ProcessedSource<i64> =
        ProcessedSource::new(3, 44_100, &EqParams::default(), &by_channel);
    let same = |x: i64| x;
    let mut outs = Vec::new();
    for _ in 0..7 {
        outs.push(source.pull(Some(0), None, &by_channel, &add, &same).unwrap());
    }
    assert_eq!(outs, vec![0, 32, 64, 0, 32, 64, 0]);
}

#[test]
fn settings_are_looked_at_every_4096_samples() {
    assert_eq!(EQ_REFRESH_INTERVAL, 4096);
    let mut source: ProcessedSource<i64> =
        ProcessedSource::new(1, 44_100, &EqParams::default(), &gain_filter);
    let same = |x: i64| x;
    let mut louder = EqParams::default();
    louder.gains[0] = 100;
    for n in 1..4096 {
        assert!(!source.refresh_due(), "sample {n}");
        // settings that come too early are not looked at
        assert_eq!(source.pull(Some(0), Some(louder), &gain_filter, &add, &same), Some(0));
    }
    assert!(source.refresh_due());
    // the lock was not free: the look is put off to the next round
    assert_eq!(source.pull(Some(0), None, &gain_filter, &add, &same), Some(0));
    assert!(!source.refresh_due());
    for _ in 1..4096 {
        assert_eq!(source.pull(Some(0), None, &gain_filter, &add, &same), Some(0));
    }
    assert!(source.refresh_due());
    assert_eq!(source.pull(Some(0), Some(louder), &gain_filter, &add, &same), Some(100));
    assert_eq!(source.pull(Some(0), None, &gain_filter, &add, &same), Some(100));
}

#[test]
fn pcm_is_little_endian() {
    assert_eq!(pcm_bytes(0), [0, 0]);
    assert_eq!(pcm_bytes(1), [1, 0]);
    assert_eq!(pcm_bytes(256), [0, 1]);
    assert_eq!(pcm_bytes(32767), [0xFF, 0x7F]);
    assert_eq!(pcm_bytes(-1), [0xFF, 0xFF]);
    assert_eq!(pcm_bytes(-32768), [0x00, 0x80]);
    assert_eq!(pcm_bytes(-32767), [0x01, 0x80]);
    for s in [-32768i16, -12345, -1, 0, 1, 255, 256, 12345, 32767] {
        assert_eq!(pcm_bytes(s), s.to_le_bytes());
    }
}

#[test]
fn pipe_tap_opens_when_wanted_and_closes_on_failure() {
    let mut tap = PipeTap::new();
    assert!(!tap.open);
    assert!(!tap.wants_open(false));
    assert!(tap.wants_open(true));
    tap.opened(false);
    assert!(!tap.open);
    tap.opened(true);
    assert!(tap.open);
    assert!(!tap.wants_open(true));
    tap.wrote(true);
    assert!(tap.open);
    tap.wrote(false);
    assert!(!tap.open);
    assert!(tap.wants_open(true));
}
