use biquad::{Biquad, Coefficients, DirectForm2Transposed, ToHertz, Type};
use std::cell::{Cell, RefCell};
use tui_player::eq::{
    limit_center, limit_gain, make_filter, preset_gains, preset_name, same_gains, EqFilters,
    EqParams, FilterSpec, Refresh, BAND_FREQS, EQ_Q_TENTHS, MAX_GAIN, NUM_BANDS, PRESET_COUNT,
};

type Filter = DirectForm2Transposed<f32>;

fn derive(spec: FilterSpec) -> Option<Filter> {
    Coefficients::<f32>::from_params(
        Type::PeakingEQ(spec.gain as f32 / 100.0),
        (spec.sample_rate as f32).hz(),
        (spec.center_dhz as f32 / 10.0).hz(),
        EQ_Q_TENTHS as f32 / 10.0,
    )
    .ok()
    .map(DirectForm2Transposed::<f32>::new)
}

fn run(mut filter: Filter, sample: f32) -> (Filter, f32) {
    let out = filter.run(sample);
    (filter, out)
}

fn params(gains: [i16; NUM_BANDS], enabled: bool) -> EqParams {
    EqParams { enabled, gains, preset_index: 0 }
}

#[test]
fn band_table() {
    assert_eq!(NUM_BANDS, 32);
    assert_eq!(BAND_FREQS[0], 160);
    assert_eq!(BAND_FREQS[3], 315);
    assert_eq!(BAND_FREQS[18], 10_000);
    assert_eq!(BAND_FREQS[31], 200_000);
    for i in 1..NUM_BANDS {
        assert!(BAND_FREQS[i] > BAND_FREQS[i - 1]);
    }
}

#[test]
fn presets_are_named_and_in_range() {
    assert_eq!(PRESET_COUNT, 11);
    let names = [
        "Flat", "Rock", "Pop", "Jazz", "Classical", "Bass Boost", "Treble Boost", "Vocal",
        "Melodic Death", "Heavy Metal", "Power Metal",
    ];
    for (i, name) in names.iter().enumerate() {
        assert_eq!(preset_name(i), *name);
        for g in preset_gains(i) {
            assert!(-MAX_GAIN <= g && g <= MAX_GAIN);
            assert_eq!(g % 100, 0);
        }
    }
    assert_eq!(preset_name(11), "Custom");
    assert_eq!(preset_name(usize::MAX), "Custom");
    assert_eq!(preset_gains(0), [0i16; 32]);
    assert_eq!(preset_gains(11), [0i16; 32]);
    assert_eq!(preset_gains(1)[3], 400);
    assert_eq!(preset_gains(1)[10], -100);
    assert_eq!(preset_gains(5)[0], 800);
    assert_eq!(preset_gains(6)[31], 800);
    assert_eq!(preset_gains(9)[12], -300);
}

#[test]
fn default_params_are_flat_and_enabled() {
    let p = EqParams::default();
    assert!(p.enabled);
    assert_eq!(p.gains, [0i16; 32]);
    assert_eq!(p.preset_index, 0);
    assert_eq!(p.preset_name(), "Flat");
}

#[test]
fn gain_steps_stay_within_twelve_decibels() {
    let mut p = EqParams::default();
    for _ in 0..11 {
        p.raise(3);
    }
    assert_eq!(p.gains[3], 1100);
    p.raise(3);
    assert_eq!(p.gains[3], 1200);
    p.raise(3);
    assert_eq!(p.gains[3], 1200);
    p.gains[4] = -1150;
    p.lower(4);
    assert_eq!(p.gains[4], -1200);
    p.lower(4);
    assert_eq!(p.gains[4], -1200);
    p.gains[5] = 30_000;
    p.raise(5);
    assert_eq!(p.gains[5], 1200);
    p.gains[6] = i16::MIN;
    p.lower(6);
    assert_eq!(p.gains[6], -1200);
    assert_eq!(p.gains[0], 0);
    assert_eq!(limit_gain(1201), 1200);
    assert_eq!(limit_gain(-1201), -1200);
    assert_eq!(limit_gain(-7), -7);
    assert_eq!(limit_gain(i32::MAX), 1200);
}

#[test]
fn presets_cycle_and_reset() {
    let mut p = EqParams::default();
    p.next_preset();
    assert_eq!(p.preset_index, 1);
    assert_eq!(p.gains, preset_gains(1));
    assert_eq!(p.preset_name(), "Rock");
    p.preset_index = 10;
    p.next_preset();
    assert_eq!(p.preset_index, 0);
    assert_eq!(p.gains, [0i16; 32]);
    p.preset_index = usize::MAX;
    p.next_preset();
    assert_eq!(p.preset_index, ((usize::MAX % 11) + 1) % 11);
    p.preset_index = 25;
    assert_eq!(p.preset_name(), "Custom");
    p.next_preset();
    assert_eq!(p.preset_index, 4);
    p.reset_flat();
    assert_eq!(p.preset_index, 0);
    assert_eq!(p.gains, [0i16; 32]);
    assert!(p.enabled);
    p.toggle_enabled();
    assert!(!p.enabled);
    p.toggle_enabled();
    assert!(p.enabled);
}

#[test]
fn same_gains_compares_every_band() {
    let a = [0i16; 32];
    let mut b = [0i16; 32];
    assert!(same_gains(&a, &b));
    b[31] = 1;
    assert!(!same_gains(&a, &b));
}

#[test]
fn center_frequency_is_limited() {
    assert_eq!(limit_center(10_000, 44_100), 10_000);
    assert_eq!(limit_center(200_000, 44_100), 200_000);
    assert_eq!(limit_center(200_000, 32_000), 159_990);
    assert_eq!(limit_center(160, 44_100), 160);
    assert_eq!(limit_center(5, 44_100), 10);
    assert_eq!(limit_center(0, 44_100), 10);
    assert_eq!(limit_center(160, 2), 10);
    assert_eq!(limit_center(160, 0), 10);
    assert_eq!(limit_center(u32::MAX, u32::MAX), u32::MAX);
    assert_eq!(limit_center(221, 44), 210);
}

#[test]
fn make_filter_asks_for_the_limited_frequency() {
    let seen: RefCell<Vec<FilterSpec>> = RefCell::new(Vec::new());
    let record = |spec: FilterSpec| -> Option<u8> {
        seen.borrow_mut().push(spec);
        Some(1)
    };
    assert_eq!(make_filter(200_000, 300, 32_000, &record), Some(1));
    assert!(
        *seen.borrow() == vec![FilterSpec { center_dhz: 159_990, gain: 300, sample_rate: 32_000 }]
    );
}

#[test]
fn make_filter_falls_back_to_the_neutral_filter() {
    let seen: RefCell<Vec<FilterSpec>> = RefCell::new(Vec::new());
    let picky = |spec: FilterSpec| -> Option<i16> {
        seen.borrow_mut().push(spec);
        if spec.gain == 0 {
            Some(spec.gain)
        } else {
            None
        }
    };
    assert_eq!(make_filter(10_000, 600, 44_100, &picky), Some(0));
    assert!(
        *seen.borrow()
            == vec![
                FilterSpec { center_dhz: 10_000, gain: 600, sample_rate: 44_100 },
                FilterSpec { center_dhz: 10_000, gain: 0, sample_rate: 44_100 },
            ]
    );
    let never = |_spec: FilterSpec| -> Option<i16> { None };
    assert_eq!(make_filter(10_000, 600, 44_100, &never), None);
}

#[test]
fn bank_has_one_filter_per_band_and_channel() {
    let count = Cell::new(0usize);
    let counting = |spec: FilterSpec| {
        count.set(count.get() + 1);
        derive(spec)
    };
    let bank: EqFilters<Filter> = EqFilters::new(2, 44_100, &EqParams::default(), &counting);
    assert_eq!(count.get(), 64);
    assert_eq!(bank.channels(), 2);
    assert_eq!(bank.sample_rate(), 44_100);
    assert!(bank.enabled());
    assert_eq!(bank.gains(), [0i16; 32]);
    let _none: EqFilters<Filter> = EqFilters::new(0, 44_100, &EqParams::default(), &counting);
    assert_eq!(count.get(), 64);
}

#[test]
fn process_runs_the_sample_through_the_bands_of_the_channel() {
    // filters that add their own number, so that the order and the channel show
    let number = Cell::new(0i64);
    let numbered = |_spec: FilterSpec| {
        number.set(number.get() + 1);
        Some(number.get())
    };
    let mut bank: EqFilters<i64> = EqFilters::new(2, 48_000, &EqParams::default(), &numbered);
    let chain = |f: i64, x: i64| (f + 1000, x * 2 + f);
    // channel 0 holds filters 1..=32: x -> 2x + f, 32 times, from 0
    let mut want: i64 = 0;
    for f in 1..=32i64 {
        want = 2 * want + f;
    }
    assert_eq!(bank.process(0, 0, &chain), want);
    let mut want: i64 = 1;
    for f in 33..=64i64 {
        want = 2 * want + f;
    }
    assert_eq!(bank.process(1, 1, &chain), want);
    // the filters of channel 0 have moved on, those of channel 1 once too
    let mut want: i64 = 0;
    for f in 1..=32i64 {
        want = 2 * want + f + 1000;
    }
    assert_eq!(bank.process(0, 0, &chain), want);
}

#[test]
fn disabled_bank_is_the_identity() {
    let mut gains = [0i16; 32];
    gains[0] = 1200;
    gains[17] = -1200;
    let mut bank: EqFilters<Filter> = EqFilters::new(2, 44_100, &params(gains, false), &derive);
    for (i, x) in [0.0f32, 1.0, -1.0, 0.123_456, 1e-30, 7.5, f32::MAX].iter().enumerate() {
        assert_eq!(bank.process(*x, i % 2, &run), *x);
    }
    // a channel that does not exist is no matter while the bank is off
    assert_eq!(bank.process(0.25, 9, &run), 0.25);
}

#[test]
fn silence_stays_silence_through_real_filters() {
    let mut extreme = [1200i16; 32];
    for (i, g) in extreme.iter_mut().enumerate() {
        if i % 2 == 1 {
            *g = -1200;
        }
    }
    for gains in [[0i16; 32], preset_gains(1), preset_gains(9), [1200i16; 32], [-1200i16; 32], extreme] {
        for rate in [8_000u32, 44_100, 96_000] {
            let mut bank: EqFilters<Filter> = EqFilters::new(2, rate, &params(gains, true), &derive);
            for n in 0..5_000usize {
                assert_eq!(bank.process(0.0, n % 2, &run), 0.0);
            }
        }
    }
}

#[test]
fn flat_bank_leaves_the_signal_nearly_alone() {
    let mut bank: EqFilters<Filter> = EqFilters::new(1, 44_100, &EqParams::default(), &derive);
    for n in 0..2_000 {
        let x = ((n as f32) * 0.05).sin() * 0.5;
        let y = bank.process(x, 0, &run);
        assert!((x - y).abs() < 1e-3, "{x} became {y}");
    }
}

#[test]
fn boost_makes_a_tone_louder() {
    let mut gains = [0i16; 32];
    gains[18] = 1200;
    let mut bank: EqFilters<Filter> = EqFilters::new(1, 44_100, &params(gains, true), &derive);
    let mut peak_in = 0.0f32;
    let mut peak_out = 0.0f32;
    for n in 0..20_000 {
        let x = (2.0 * std::f32::consts::PI * 1000.0 * n as f32 / 44_100.0).sin() * 0.1;
        let y = bank.process(x, 0, &run);
        if n > 10_000 {
            peak_in = peak_in.max(x.abs());
            peak_out = peak_out.max(y.abs());
        }
    }
    // 12 dB are a factor of nearly four
    assert!(peak_out > 3.5 * peak_in && peak_out < 4.5 * peak_in, "{peak_in} {peak_out}");
}

#[test]
fn update_rebuilds_at_most_once_for_the_same_settings() {
    let count = Cell::new(0usize);
    let counting = |spec: FilterSpec| {
        count.set(count.get() + 1);
        derive(spec)
    };
    let mut bank: EqFilters<Filter> = EqFilters::new(2, 44_100, &EqParams::default(), &counting);
    count.set(0);
    let mut gains = [0i16; 32];
    gains[5] = 300;
    let changed = params(gains, true);
    assert!(bank.update_if_changed(&changed, &counting) == Refresh::Rebuilt);
    assert_eq!(count.get(), 64);
    assert!(bank.update_if_changed(&changed, &counting) == Refresh::Unchanged);
    assert!(bank.update_if_changed(&changed, &counting) == Refresh::Unchanged);
    assert_eq!(count.get(), 64);
    assert_eq!(bank.gains(), gains);
}

#[test]
fn update_with_only_the_switch_keeps_the_filters() {
    let count = Cell::new(0usize);
    let counting = |spec: FilterSpec| {
        count.set(count.get() + 1);
        Some(spec.gain)
    };
    let mut gains = [0i16; 32];
    gains[0] = 500;
    let mut bank: EqFilters<i16> = EqFilters::new(1, 44_100, &params(gains, true), &counting);
    count.set(0);
    assert!(bank.update_if_changed(&params(gains, false), &counting) == Refresh::Toggled);
    assert_eq!(count.get(), 0);
    assert!(!bank.enabled());
    assert!(bank.update_if_changed(&params(gains, false), &counting) == Refresh::Unchanged);
    // a change of gains counts even while the switch changes too
    let mut other = gains;
    other[1] = -100;
    assert!(bank.update_if_changed(&params(other, true), &counting) == Refresh::Rebuilt);
    assert_eq!(count.get(), 32);
    assert!(bank.enabled());
    // the preset number alone is no change
    let mut renamed = params(other, true);
    renamed.preset_index = 7;
    assert!(bank.update_if_changed(&renamed, &counting) == Refresh::Unchanged);
}

#[test]
fn a_band_without_a_filter_passes_the_sample_on() {
    let never = |_spec: FilterSpec| -> Option<i64> { None };
    let mut bank: EqFilters<i64> = EqFilters::new(1, 2, &EqParams::default(), &never);
    let shout = |f: i64, x: i64| (f, x + 1);
    assert_eq!(bank.process(41, 0, &shout), 41);
}
