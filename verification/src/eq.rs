//! The equalizer: its state, its presets, and the bank of per-band filters.
//!
//! Gains are in hundredths of a decibel, frequencies in tenths of a hertz.
//! The filters themselves are values of a type `F` of the caller's: the
//! bank decides which filter is derived from which parameters and which
//! filters a sample runs through, and leaves the arithmetic to the two
//! functions that it is handed, one that derives a filter and one that
//! runs a sample through a filter.

use vstd::prelude::*;

verus! {

/// Number of bands.
pub const NUM_BANDS: usize = 32;

/// The largest gain of a band, 12 dB, in hundredths of a decibel.
pub const MAX_GAIN: i16 = 1200;

/// One step of a band's gain, 1 dB, in hundredths of a decibel.
pub const GAIN_STEP: i16 = 100;

/// The quality factor of every band in tenths: 4.3, a third of an octave.
pub const EQ_Q_TENTHS: u32 = 43;

/// Number of presets.
pub const PRESET_COUNT: usize = 11;

/// Centre frequencies of the bands, a third of an octave apart, in tenths of a hertz.
pub const BAND_FREQS: [u32; NUM_BANDS] = [
    160, 200, 250, 315, 400, 500, 630, 800,
    1000, 1250, 1600, 2000, 2500, 3150, 4000, 5000,
    6300, 8000, 10000, 12500, 16000, 20000, 25000, 31500,
    40000, 50000, 63000, 80000, 100000, 125000, 160000, 200000,
];

pub const PRESET_FLAT: [i16; NUM_BANDS] = [
    0, 0, 0, 0, 0, 0, 0, 0,
    0, 0, 0, 0, 0, 0, 0, 0,
    0, 0, 0, 0, 0, 0, 0, 0,
    0, 0, 0, 0, 0, 0, 0, 0,
];

pub const PRESET_ROCK: [i16; NUM_BANDS] = [
    300, 300, 300, 400, 400, 300, 200, 100,
    0, 0, -100, -100, -100, 0, 0, 0,
    100, 100, 200, 200, 300, 300, 300, 400,
    400, 400, 300, 300, 300, 200, 200, 100,
];

pub const PRESET_POP: [i16; NUM_BANDS] = [
    -100, -100, 0, 0, 100, 200, 300, 300,
    400, 400, 300, 300, 200, 200, 100, 0,
    -100, -100, -100, -100, 0, 0, 0, 0,
    100, 100, 200, 200, 200, 100, 100, 0,
];

pub const PRESET_JAZZ: [i16; NUM_BANDS] = [
    300, 300, 300, 200, 200, 100, 0, 0,
    0, 0, 100, 200, 200, 100, 0, -100,
    -200, -200, -100, 0, 0, 100, 200, 200,
    300, 300, 300, 300, 400, 400, 300, 300,
];

pub const PRESET_CLASSICAL: [i16; NUM_BANDS] = [
    400, 400, 300, 300, 300, 200, 200, 100,
    100, 0, 0, -100, -100, -100, -100, 0,
    0, 0, 0, 0, -100, -100, 0, 0,
    100, 200, 200, 300, 300, 300, 400, 400,
];

pub const PRESET_BASS_BOOST: [i16; NUM_BANDS] = [
    800, 800, 700, 700, 600, 600, 500, 500,
    400, 400, 300, 200, 100, 0, 0, 0,
    0, 0, 0, 0, 0, 0, 0, 0,
    0, 0, 0, 0, 0, 0, 0, 0,
];

pub const PRESET_TREBLE_BOOST: [i16; NUM_BANDS] = [
    0, 0, 0, 0, 0, 0, 0, 0,
    0, 0, 0, 0, 0, 0, 0, 0,
    0, 0, 0, 100, 200, 200, 300, 400,
    500, 500, 600, 600, 700, 700, 800, 800,
];

pub const PRESET_VOCAL: [i16; NUM_BANDS] = [
    -200, -200, -200, -100, -100, 0, 0, 0,
    0, 0, 0, 100, 200, 300, 300, 400,
    500, 500, 500, 400, 300, 300, 200, 100,
    0, 0, 0, 0, -100, -100, -200, -200,
];

pub const PRESET_MELODIC_DEATH: [i16; NUM_BANDS] = [
    400, 400, 500, 500, 600, 500, 400, 300,
    200, 100, 0, -100, -200, -200, -100, 0,
    100, 200, 300, 400, 500, 500, 400, 300,
    300, 400, 500, 500, 400, 300, 200, 100,
];

pub const PRESET_HEAVY_METAL: [i16; NUM_BANDS] = [
    500, 500, 600, 600, 500, 400, 300, 200,
    100, 0, -100, -200, -300, -300, -200, -100,
    0, 100, 200, 300, 400, 500, 500, 500,
    600, 600, 500, 500, 400, 300, 200, 100,
];

pub const PRESET_POWER_METAL: [i16; NUM_BANDS] = [
    300, 300, 400, 500, 500, 400, 300, 200,
    100, 0, 0, 0, 100, 100, 200, 200,
    300, 300, 400, 500, 500, 500, 400, 400,
    500, 500, 600, 600, 500, 400, 300, 200,
];

/// The name of what preset `i` is: "Custom" where there is no such preset.
pub open spec fn spec_preset_name(i: int) -> Seq<char> {
    if i < 0 {
        "Custom"@
    } else if i == 0 {
        "Flat"@
    } else if i == 1 {
        "Rock"@
    } else if i == 2 {
        "Pop"@
    } else if i == 3 {
        "Jazz"@
    } else if i == 4 {
        "Classical"@
    } else if i == 5 {
        "Bass Boost"@
    } else if i == 6 {
        "Treble Boost"@
    } else if i == 7 {
        "Vocal"@
    } else if i == 8 {
        "Melodic Death"@
    } else if i == 9 {
        "Heavy Metal"@
    } else if i == 10 {
        "Power Metal"@
    } else {
        "Custom"@
    }
}

/// The gains of preset `i`; flat where there is no such preset.
pub open spec fn spec_preset_gains(i: int) -> Seq<i16> {
    if i < 0 {
        PRESET_FLAT@
    } else if i == 0 {
        PRESET_FLAT@
    } else if i == 1 {
        PRESET_ROCK@
    } else if i == 2 {
        PRESET_POP@
    } else if i == 3 {
        PRESET_JAZZ@
    } else if i == 4 {
        PRESET_CLASSICAL@
    } else if i == 5 {
        PRESET_BASS_BOOST@
    } else if i == 6 {
        PRESET_TREBLE_BOOST@
    } else if i == 7 {
        PRESET_VOCAL@
    } else if i == 8 {
        PRESET_MELODIC_DEATH@
    } else if i == 9 {
        PRESET_HEAVY_METAL@
    } else if i == 10 {
        PRESET_POWER_METAL@
    } else {
        PRESET_FLAT@
    }
}

/// The name of preset `i`, or "Custom" where there is no such preset.
pub fn preset_name(i: usize) -> (name: &'static str)
    ensures
        name@ == spec_preset_name(i as int),
{
    match i {
        0 => "Flat",
        1 => "Rock",
        2 => "Pop",
        3 => "Jazz",
        4 => "Classical",
        5 => "Bass Boost",
        6 => "Treble Boost",
        7 => "Vocal",
        8 => "Melodic Death",
        9 => "Heavy Metal",
        10 => "Power Metal",
        _ => "Custom",
    }
}

/// The gains of preset `i`, flat where there is no such preset.
pub fn preset_gains(i: usize) -> (gains: [i16; NUM_BANDS])
    ensures
        gains@ == spec_preset_gains(i as int),
{
    match i {
        0 => PRESET_FLAT,
        1 => PRESET_ROCK,
        2 => PRESET_POP,
        3 => PRESET_JAZZ,
        4 => PRESET_CLASSICAL,
        5 => PRESET_BASS_BOOST,
        6 => PRESET_TREBLE_BOOST,
        7 => PRESET_VOCAL,
        8 => PRESET_MELODIC_DEATH,
        9 => PRESET_HEAVY_METAL,
        10 => PRESET_POWER_METAL,
        _ => PRESET_FLAT,
    }
}

/// The settings of the equalizer.
#[derive(Clone, Copy, Debug)]
pub struct EqParams {
    pub enabled: bool,
    /// Gain of every band in hundredths of a decibel.
    pub gains: [i16; NUM_BANDS],
    /// The preset that was chosen last.
    pub preset_index: usize,
}

/// A gain limited to the range of plus and minus 12 dB.
pub open spec fn clamp_gain(gain: int) -> i16 {
    if gain > MAX_GAIN as int {
        MAX_GAIN
    } else if gain < -(MAX_GAIN as int) {
        (-MAX_GAIN) as i16
    } else {
        gain as i16
    }
}

/// A gain limited to the range of plus and minus 12 dB.
pub fn limit_gain(gain: i32) -> (g: i16)
    ensures
        g == clamp_gain(gain as int),
        -MAX_GAIN <= g <= MAX_GAIN,
{
    if gain > MAX_GAIN as i32 {
        MAX_GAIN
    } else if gain < -(MAX_GAIN as i32) {
        -MAX_GAIN
    } else {
        gain as i16
    }
}

impl Default for EqParams {
    /// The equalizer as it is without a settings file: enabled and flat.
    fn default() -> (p: EqParams)
        ensures
            p.enabled,
            p.gains@ == PRESET_FLAT@,
            p.preset_index == 0,
    {
        EqParams { enabled: true, gains: PRESET_FLAT, preset_index: 0 }
    }
}

impl EqParams {
    /// True if every gain is within plus and minus 12 dB.
    pub open spec fn in_range(&self) -> bool {
        forall|b: int| 0 <= b < NUM_BANDS ==> -MAX_GAIN <= #[trigger] self.gains@[b] <= MAX_GAIN
    }

    /// Raises the gain of a band by one decibel, up to 12 dB.
    pub fn raise(&mut self, band: usize)
        requires
            band < NUM_BANDS,
        ensures
            final(self).gains@ == old(self).gains@.update(
                band as int,
                clamp_gain(old(self).gains@[band as int] + GAIN_STEP),
            ),
            final(self).enabled == old(self).enabled,
            final(self).preset_index == old(self).preset_index,
            old(self).in_range() ==> final(self).in_range(),
    {
        let g = limit_gain(self.gains[band] as i32 + GAIN_STEP as i32);
        self.gains[band] = g;
        proof {
            assert(self.gains@ =~= old(self).gains@.update(band as int, g));
        }
    }

    /// Lowers the gain of a band by one decibel, down to -12 dB.
    pub fn lower(&mut self, band: usize)
        requires
            band < NUM_BANDS,
        ensures
            final(self).gains@ == old(self).gains@.update(
                band as int,
                clamp_gain(old(self).gains@[band as int] - GAIN_STEP),
            ),
            final(self).enabled == old(self).enabled,
            final(self).preset_index == old(self).preset_index,
            old(self).in_range() ==> final(self).in_range(),
    {
        let g = limit_gain(self.gains[band] as i32 - GAIN_STEP as i32);
        self.gains[band] = g;
        proof {
            assert(self.gains@ =~= old(self).gains@.update(band as int, g));
        }
    }

    /// Moves on to the next preset, the first one after the last, and
    /// takes over all of its gains at once.
    pub fn next_preset(&mut self)
        ensures
            final(self).preset_index == (old(self).preset_index + 1) % (PRESET_COUNT as int),
            final(self).gains@ == spec_preset_gains(final(self).preset_index as int),
            final(self).enabled == old(self).enabled,
            final(self).in_range(),
    {
        let next = (self.preset_index % PRESET_COUNT + 1) % PRESET_COUNT;
        self.preset_index = next;
        self.gains = preset_gains(next);
    }

    /// Back to the flat preset.
    pub fn reset_flat(&mut self)
        ensures
            final(self).preset_index == 0,
            final(self).gains@ == PRESET_FLAT@,
            final(self).enabled == old(self).enabled,
            final(self).in_range(),
    {
        self.gains = PRESET_FLAT;
        self.preset_index = 0;
    }

    /// Switches the equalizer on or off.
    pub fn toggle_enabled(&mut self)
        ensures
            final(self).enabled == !old(self).enabled,
            final(self).gains == old(self).gains,
            final(self).preset_index == old(self).preset_index,
    {
        self.enabled = !self.enabled;
    }

    /// The name of the preset that was chosen last.
    pub fn preset_name(&self) -> (name: &'static str)
        ensures
            name@ == spec_preset_name(self.preset_index as int),
    {
        preset_name(self.preset_index)
    }
}

/// Tells whether two gain vectors are the same.
pub fn same_gains(a: &[i16; NUM_BANDS], b: &[i16; NUM_BANDS]) -> (same: bool)
    ensures
        same == (a@ == b@),
{
    let mut i: usize = 0;
    while i < NUM_BANDS
        invariant
            i <= NUM_BANDS,
            forall|k: int| 0 <= k < i ==> a@[k] == b@[k],
        decreases NUM_BANDS - i,
    {
        if a[i] != b[i] {
            return false;
        }
        i += 1;
    }
    proof {
        assert(a@ =~= b@);
    }
    true
}

/// What a filter is derived from.
#[derive(Clone, Copy, PartialEq, Eq, Structural, Debug)]
pub struct FilterSpec {
    /// Centre frequency in tenths of a hertz.
    pub center_dhz: u32,
    /// Gain in hundredths of a decibel.
    pub gain: i16,
    /// Sample rate in hertz.
    pub sample_rate: u32,
}

/// A centre frequency limited to the range from 1 Hz to 1 Hz below half the sample rate.
pub open spec fn clamp_center(freq_dhz: u32, sample_rate: u32) -> u32 {
    let top = sample_rate as int * 5 - 10;
    let f = if freq_dhz as int > top {
        top
    } else {
        freq_dhz as int
    };
    if f < 10 {
        10u32
    } else {
        f as u32
    }
}

/// The filter that is asked for, for a band with a gain at a sample rate.
pub open spec fn requested(freq_dhz: u32, gain: i16, sample_rate: u32) -> FilterSpec {
    FilterSpec { center_dhz: clamp_center(freq_dhz, sample_rate), gain, sample_rate }
}

/// The neutral filter in the place of `spec`: the same filter with a gain of 0 dB.
pub open spec fn neutral(spec: FilterSpec) -> FilterSpec {
    FilterSpec { gain: 0, ..spec }
}

/// True if `slot` is what `make_filter` may hand back for `spec`: the
/// filter that `derive` gave for `spec`, or, where it gave none, whatever
/// it gave for the neutral filter.
pub open spec fn derived<F, D: Fn(FilterSpec) -> Option<F>>(
    derive: D,
    spec: FilterSpec,
    slot: Option<F>,
) -> bool {
    ||| (slot is Some && call_ensures(derive, (spec,), slot))
    ||| (call_ensures(derive, (spec,), None::<F>) && call_ensures(derive, (neutral(spec),), slot))
}

/// A centre frequency limited to the range from 1 Hz to 1 Hz below half the sample rate.
pub fn limit_center(freq_dhz: u32, sample_rate: u32) -> (f: u32)
    ensures
        f == clamp_center(freq_dhz, sample_rate),
{
    let top: i64 = sample_rate as i64 * 5 - 10;
    let f: i64 = if freq_dhz as i64 > top {
        top
    } else {
        freq_dhz as i64
    };
    if f < 10 {
        10
    } else {
        f as u32
    }
}

/// Makes the filter of one band: a peaking filter at the band's
/// frequency, limited to what the sample rate can carry, with the band's
/// gain. Where `derive` gives no filter for these parameters, the neutral
/// filter is put in its place.
pub fn make_filter<F, D: Fn(FilterSpec) -> Option<F>>(
    freq_dhz: u32,
    gain: i16,
    sample_rate: u32,
    derive: &D,
) -> (slot: Option<F>)
    requires
        forall|spec: FilterSpec| call_requires(*derive, (spec,)),
    ensures
        derived(*derive, requested(freq_dhz, gain, sample_rate), slot),
{
    let spec = FilterSpec { center_dhz: limit_center(freq_dhz, sample_rate), gain, sample_rate };
    match derive(spec) {
        Some(f) => Some(f),
        None => derive(FilterSpec { gain: 0, ..spec }),
    }
}

/// What a call of `update_if_changed` found.
#[derive(Clone, Copy, PartialEq, Eq, Structural, Debug)]
pub enum Refresh {
    /// The settings are the ones that the filters were made for.
    Unchanged,
    /// Only the switch changed: the filters stay.
    Toggled,
    /// The gains changed: every filter was made anew.
    Rebuilt,
}

/// What an update finds, given the settings that the filters were made for.
pub open spec fn refresh_kind(enabled: bool, gains: Seq<i16>, params: EqParams) -> Refresh {
    if params.gains@ != gains {
        Refresh::Rebuilt
    } else if params.enabled != enabled {
        Refresh::Toggled
    } else {
        Refresh::Unchanged
    }
}

/// True if one stage passes `input` on as `output`: a filter runs the
/// sample through and takes a new state, an empty stage passes it on as it is.
pub open spec fn stage<F, S, R: Fn(F, S) -> (F, S)>(
    run: R,
    before: Option<F>,
    after: Option<F>,
    input: S,
    output: S,
) -> bool {
    match before {
        Some(f) => after is Some && call_ensures(run, (f, input), (after->0, output)),
        None => after is None && output == input,
    }
}

/// True if the `n` stages from `base` on, one after the other, turn `input` into `output`.
pub open spec fn chained<F, S, R: Fn(F, S) -> (F, S)>(
    run: R,
    before: Seq<Option<F>>,
    after: Seq<Option<F>>,
    base: int,
    n: int,
    input: S,
    output: S,
) -> bool
    decreases n,
{
    if n <= 0 {
        output == input
    } else {
        exists|mid: S|
            chained(run, before, after, base, n - 1, input, mid) && #[trigger] stage(
                run,
                before[base + n - 1],
                after[base + n - 1],
                mid,
                output,
            )
    }
}

/// The filter bank as a plain value.
pub struct EqFiltersView<F> {
    /// The stages, channel by channel, 32 to a channel.
    pub filters: Seq<Option<F>>,
    pub channels: nat,
    /// The gains that the filters were made for.
    pub gains: Seq<i16>,
    pub enabled: bool,
    pub sample_rate: u32,
}

/// The filter bank: for every channel one stage per band.
pub struct EqFilters<F> {
    filters: Vec<Option<F>>,
    channels: u16,
    cached_gains: [i16; NUM_BANDS],
    cached_enabled: bool,
    sample_rate: u32,
}

impl<F> View for EqFilters<F> {
    type V = EqFiltersView<F>;

    closed spec fn view(&self) -> EqFiltersView<F> {
        EqFiltersView {
            filters: self.filters@,
            channels: self.channels as nat,
            gains: self.cached_gains@,
            enabled: self.cached_enabled,
            sample_rate: self.sample_rate,
        }
    }
}

impl<F> EqFiltersView<F> {
    /// There is one stage for every band of every channel.
    pub open spec fn wf(self) -> bool {
        &&& self.filters.len() == self.channels * NUM_BANDS
        &&& self.gains.len() == NUM_BANDS
    }

    /// True if every stage is derived from the gain of its band.
    pub open spec fn made_by<D: Fn(FilterSpec) -> Option<F>>(self, derive: D) -> bool {
        forall|k: int|
            0 <= k < self.filters.len() ==> derived(
                derive,
                requested(
                    BAND_FREQS[k % (NUM_BANDS as int)],
                    self.gains[k % (NUM_BANDS as int)],
                    self.sample_rate,
                ),
                #[trigger] self.filters[k],
            )
    }
}

impl<F> EqFiltersView<F> {
    /// True if `after` is what an update with `params` may leave of this
    /// bank: the settings are taken over, and the filters stay unless a
    /// gain changed, in which case every one of them is made anew.
    pub open spec fn updated<D: Fn(FilterSpec) -> Option<F>>(
        self,
        params: EqParams,
        derive: D,
        after: EqFiltersView<F>,
    ) -> bool {
        &&& after.wf()
        &&& after.gains == params.gains@
        &&& after.enabled == params.enabled
        &&& after.channels == self.channels
        &&& after.sample_rate == self.sample_rate
        &&& refresh_kind(self.enabled, self.gains, params) != Refresh::Rebuilt ==> after.filters
            == self.filters
        &&& refresh_kind(self.enabled, self.gains, params) == Refresh::Rebuilt ==> after.made_by(
            derive,
        )
    }

    /// True if `after` and `out` are what processing `sample` on `channel`
    /// may leave of this bank: switched off, it hands the sample back and
    /// stays as it is; switched on, the sample has run through the 32
    /// stages of the channel, and no other stage was touched.
    pub open spec fn processed<S, R: Fn(F, S) -> (F, S)>(
        self,
        run: R,
        sample: S,
        channel: int,
        after: EqFiltersView<F>,
        out: S,
    ) -> bool {
        if !self.enabled {
            out == sample && after == self
        } else {
            &&& after == (EqFiltersView { filters: after.filters, ..self })
            &&& after.filters.len() == self.filters.len()
            &&& chained(
                run,
                self.filters,
                after.filters,
                channel * NUM_BANDS,
                NUM_BANDS as int,
                sample,
                out,
            )
            &&& forall|k: int|
                0 <= k < channel * NUM_BANDS || (channel + 1) * NUM_BANDS <= k
                    < self.filters.len() ==> after.filters[k] == self.filters[k]
        }
    }
}

impl<F: Copy> EqFilters<F> {
    /// A bank for `channels` channels at a sample rate, with the filters that the settings ask for.
    pub fn new<D: Fn(FilterSpec) -> Option<F>>(
        channels: u16,
        sample_rate: u32,
        params: &EqParams,
        derive: &D,
    ) -> (bank: EqFilters<F>)
        requires
            forall|spec: FilterSpec| call_requires(*derive, (spec,)),
        ensures
            bank@.wf(),
            bank@.channels == channels,
            bank@.sample_rate == sample_rate,
            bank@.gains == params.gains@,
            bank@.enabled == params.enabled,
            bank@.made_by(*derive),
    {
        let filters = build_filters(channels, sample_rate, &params.gains, derive);
        EqFilters {
            filters,
            channels,
            cached_gains: params.gains,
            cached_enabled: params.enabled,
            sample_rate,
        }
    }

    pub fn channels(&self) -> (c: u16)
        ensures
            c == self@.channels,
    {
        self.channels
    }

    pub fn enabled(&self) -> (b: bool)
        ensures
            b == self@.enabled,
    {
        self.cached_enabled
    }

    pub fn sample_rate(&self) -> (r: u32)
        ensures
            r == self@.sample_rate,
    {
        self.sample_rate
    }

    /// The gains that the filters were made for.
    pub fn gains(&self) -> (g: [i16; NUM_BANDS])
        ensures
            g@ == self@.gains,
    {
        self.cached_gains
    }

    /// Runs a sample of a channel through the stages of all bands of
    /// that channel, one after the other. A bank that is switched off
    /// hands the sample back as it is and touches no filter.
    pub fn process<S, R: Fn(F, S) -> (F, S)>(&mut self, sample: S, channel: usize, run: &R) -> (out:
        S)
        requires
            old(self)@.wf(),
            old(self)@.enabled ==> channel < old(self)@.channels,
            forall|f: F, s: S| call_requires(*run, (f, s)),
        ensures
            final(self)@.wf(),
            old(self)@.processed(*run, sample, channel as int, final(self)@, out),
            !old(self)@.enabled ==> out == sample && final(self)@ == old(self)@,
    {
        if !self.cached_enabled {
            return sample;
        }
        assert(self.filters@.len() == self.channels * 32);
        let base: usize = channel * NUM_BANDS;
        let mut out = sample;
        let mut band: usize = 0;
        while band < NUM_BANDS
            invariant
                band <= NUM_BANDS,
                base == channel * NUM_BANDS,
                channel < self.channels,
                self.filters@.len() == self.channels * NUM_BANDS,
                self.filters@.len() == old(self).filters@.len(),
                self.channels == old(self).channels,
                self.cached_gains == old(self).cached_gains,
                self.cached_enabled == old(self).cached_enabled,
                self.sample_rate == old(self).sample_rate,
                forall|f: F, s: S| call_requires(*run, (f, s)),
                chained(*run, old(self).filters@, self.filters@, base as int, band as int, sample, out),
                forall|k: int|
                    0 <= k < base || base + band <= k < self.filters@.len() ==> self.filters@[k]
                        == old(self).filters@[k],
            decreases NUM_BANDS - band,
        {
            let k = base + band;
            let ghost prior = self.filters@;
            let ghost mid = out;
            match self.filters[k] {
                Some(f) => {
                    let (f2, y) = run(f, out);
                    self.filters.set(k, Some(f2));
                    out = y;
                },
                None => {},
            }
            proof {
                let n = band as int + 1;
                lemma_chain_frame(
                    *run,
                    old(self).filters@,
                    prior,
                    self.filters@,
                    base as int,
                    n - 1,
                    sample,
                    mid,
                );
                assert(stage(
                    *run,
                    old(self).filters@[base + n - 1],
                    self.filters@[base + n - 1],
                    mid,
                    out,
                ));
                assert(chained(*run, old(self).filters@, self.filters@, base as int, n, sample, out));
            }
            band += 1;
        }
        out
    }

    /// Takes over new settings. If gains and switch are the ones that the
    /// filters were made for, nothing happens; if only the switch
    /// changed, the filters stay as they are; if a gain changed, every
    /// filter of every channel is made anew.
    pub fn update_if_changed<D: Fn(FilterSpec) -> Option<F>>(
        &mut self,
        params: &EqParams,
        derive: &D,
    ) -> (r: Refresh)
        requires
            old(self)@.wf(),
            forall|spec: FilterSpec| call_requires(*derive, (spec,)),
        ensures
            r == refresh_kind(old(self)@.enabled, old(self)@.gains, *params),
            old(self)@.updated(*params, *derive, final(self)@),
            r == Refresh::Unchanged ==> final(self)@ == old(self)@,
    {
        let same = same_gains(&params.gains, &self.cached_gains);
        if params.enabled == self.cached_enabled && same {
            return Refresh::Unchanged;
        }
        self.cached_enabled = params.enabled;
        if !same {
            self.cached_gains = params.gains;
            self.filters = build_filters(self.channels, self.sample_rate, &params.gains, derive);
            Refresh::Rebuilt
        } else {
            Refresh::Toggled
        }
    }
}

/// A chain that holds up to some stage still holds when later stages change.
proof fn lemma_chain_frame<F, S, R: Fn(F, S) -> (F, S)>(
    run: R,
    before: Seq<Option<F>>,
    after: Seq<Option<F>>,
    later: Seq<Option<F>>,
    base: int,
    n: int,
    input: S,
    output: S,
)
    requires
        chained(run, before, after, base, n, input, output),
        forall|k: int| base <= k < base + n ==> later[k] == after[k],
    ensures
        chained(run, before, later, base, n, input, output),
    decreases n,
{
    if n > 0 {
        let mid = choose|mid: S|
            chained(run, before, after, base, n - 1, input, mid) && #[trigger] stage(
                run,
                before[base + n - 1],
                after[base + n - 1],
                mid,
                output,
            );
        lemma_chain_frame(run, before, after, later, base, n - 1, input, mid);
        assert(stage(run, before[base + n - 1], later[base + n - 1], mid, output));
    }
}

/// The stages of a bank: for every channel, one filter per band.
fn build_filters<F, D: Fn(FilterSpec) -> Option<F>>(
    channels: u16,
    sample_rate: u32,
    gains: &[i16; NUM_BANDS],
    derive: &D,
) -> (filters: Vec<Option<F>>)
    requires
        forall|spec: FilterSpec| call_requires(*derive, (spec,)),
    ensures
        filters@.len() == channels * NUM_BANDS,
        forall|k: int|
            0 <= k < filters@.len() ==> derived(
                *derive,
                requested(
                    BAND_FREQS[k % (NUM_BANDS as int)],
                    gains@[k % (NUM_BANDS as int)],
                    sample_rate,
                ),
                #[trigger] filters@[k],
            ),
{
    let mut filters: Vec<Option<F>> = Vec::new();
    let mut ch: u16 = 0;
    while ch < channels
        invariant
            ch <= channels,
            forall|spec: FilterSpec| call_requires(*derive, (spec,)),
            filters@.len() == ch * NUM_BANDS,
            forall|k: int|
                0 <= k < filters@.len() ==> derived(
                    *derive,
                    requested(
                        BAND_FREQS[k % (NUM_BANDS as int)],
                        gains@[k % (NUM_BANDS as int)],
                        sample_rate,
                    ),
                    #[trigger] filters@[k],
                ),
        decreases channels - ch,
    {
        let mut band: usize = 0;
        while band < NUM_BANDS
            invariant
                band <= NUM_BANDS,
                ch < channels,
                forall|spec: FilterSpec| call_requires(*derive, (spec,)),
                filters@.len() == ch * NUM_BANDS + band,
                forall|k: int|
                    0 <= k < filters@.len() ==> derived(
                        *derive,
                        requested(
                            BAND_FREQS[k % (NUM_BANDS as int)],
                            gains@[k % (NUM_BANDS as int)],
                            sample_rate,
                        ),
                        #[trigger] filters@[k],
                    ),
            decreases NUM_BANDS - band,
        {
            let slot = make_filter(BAND_FREQS[band], gains[band], sample_rate, derive);
            filters.push(slot);
            band += 1;
        }
        ch += 1;
    }
    filters
}

/// Two updates with the same settings make the filters anew at most
/// once: whatever the bank was before, after one update with `params` a
/// second update with `params` finds nothing changed and leaves every
/// filter as it is.
pub proof fn lemma_update_is_idempotent<F, D: Fn(FilterSpec) -> Option<F>>(
    before: EqFiltersView<F>,
    once: EqFiltersView<F>,
    twice: EqFiltersView<F>,
    params: EqParams,
    derive: D,
)
    requires
        before.updated(params, derive, once),
        once.updated(params, derive, twice),
    ensures
        refresh_kind(once.enabled, once.gains, params) == Refresh::Unchanged,
        twice == once,
{
    assert(twice.filters == once.filters);
    assert(twice.gains =~= once.gains);
}

/// What every stage keeps, the chain keeps. Let `rest` be a property of
/// filters and `quiet` one of samples, such that a filter at rest turns a
/// quiet sample into a quiet one and stays at rest. Then a quiet sample
/// comes out quiet of a chain of stages whose filters are at rest, and
/// they are at rest afterwards.
pub proof fn lemma_rest_is_kept<F, S, R: Fn(F, S) -> (F, S)>(
    run: R,
    before: Seq<Option<F>>,
    after: Seq<Option<F>>,
    base: int,
    n: int,
    input: S,
    output: S,
    rest: spec_fn(F) -> bool,
    quiet: spec_fn(S) -> bool,
)
    requires
        chained(run, before, after, base, n, input, output),
        quiet(input),
        forall|k: int| base <= k < base + n && before[k] is Some ==> rest(before[k]->0),
        forall|f: F, x: S, g: F, y: S|
            rest(f) && quiet(x) && #[trigger] call_ensures(run, (f, x), (g, y)) ==> rest(g)
                && quiet(y),
    ensures
        quiet(output),
        forall|k: int| base <= k < base + n && after[k] is Some ==> rest(after[k]->0),
    decreases n,
{
    if n > 0 {
        let mid = choose|mid: S|
            chained(run, before, after, base, n - 1, input, mid) && #[trigger] stage(
                run,
                before[base + n - 1],
                after[base + n - 1],
                mid,
                output,
            );
        lemma_rest_is_kept(run, before, after, base, n - 1, input, mid, rest, quiet);
    }
}

/// True if every filter of a bank has the property `rest`.
pub open spec fn all_at_rest<F>(filters: Seq<Option<F>>, rest: spec_fn(F) -> bool) -> bool {
    forall|k: int|
        0 <= k < filters.len() && (#[trigger] filters[k]) is Some ==> rest(filters[k]->0)
}

/// A bank whose filters were just made is at rest, where every filter
/// that `derive` makes is: so is a new bank, and one that an update has
/// made anew.
pub proof fn lemma_new_bank_rests<F, D: Fn(FilterSpec) -> Option<F>>(
    bank: EqFiltersView<F>,
    derive: D,
    rest: spec_fn(F) -> bool,
)
    requires
        bank.made_by(derive),
        forall|spec: FilterSpec, f: F| #[trigger]
            call_ensures(derive, (spec,), Some(f)) ==> rest(f),
    ensures
        all_at_rest(bank.filters, rest),
{
    assert forall|k: int| 0 <= k < bank.filters.len() && (#[trigger] bank.filters[k]) is Some
        implies rest(bank.filters[k]->0) by {
        let asked = requested(
            BAND_FREQS[k % (NUM_BANDS as int)],
            bank.gains[k % (NUM_BANDS as int)],
            bank.sample_rate,
        );
        let f = bank.filters[k]->0;
        assert(derived(derive, asked, bank.filters[k]));
        assert(bank.filters[k] == Some(f));
        assert(call_ensures(derive, (asked,), Some(f)) || call_ensures(
            derive,
            (neutral(asked),),
            Some(f),
        ));
    }
}

/// One sample of silence: a bank at rest turns a quiet sample into a
/// quiet one and is at rest afterwards, whether it is switched on or
/// off and whichever channel the sample belongs to.
pub proof fn lemma_quiet_sample<F, S, R: Fn(F, S) -> (F, S)>(
    run: R,
    before: EqFiltersView<F>,
    after: EqFiltersView<F>,
    channel: int,
    input: S,
    output: S,
    rest: spec_fn(F) -> bool,
    quiet: spec_fn(S) -> bool,
)
    requires
        before.wf(),
        before.enabled ==> 0 <= channel < before.channels,
        before.processed(run, input, channel, after, output),
        quiet(input),
        all_at_rest(before.filters, rest),
        forall|f: F, x: S, g: F, y: S|
            rest(f) && quiet(x) && #[trigger] call_ensures(run, (f, x), (g, y)) ==> rest(g)
                && quiet(y),
    ensures
        after.wf(),
        quiet(output),
        all_at_rest(after.filters, rest),
{
    if before.enabled {
        let base = channel * NUM_BANDS;
        lemma_rest_is_kept(
            run,
            before.filters,
            after.filters,
            base,
            NUM_BANDS as int,
            input,
            output,
            rest,
            quiet,
        );
        assert forall|k: int| 0 <= k < after.filters.len() && (#[trigger] after.filters[k]) is Some
            implies rest(after.filters[k]->0) by {
            if !(base <= k < base + NUM_BANDS) {
                assert(after.filters[k] == before.filters[k]);
            }
        }
    }
}

/// True if a run of samples through a bank leaves `banks` and
/// `outputs`: sample `i` belongs to channel `channels[i]` and is
/// processed by the bank as `banks[i]` has it, which leaves the bank as
/// `banks[i + 1]` has it and gives `outputs[i]`.
pub open spec fn processed_all<F, S, R: Fn(F, S) -> (F, S)>(
    run: R,
    banks: Seq<EqFiltersView<F>>,
    channels: Seq<int>,
    inputs: Seq<S>,
    outputs: Seq<S>,
) -> bool {
    &&& banks.len() == inputs.len() + 1
    &&& channels.len() == inputs.len()
    &&& outputs.len() == inputs.len()
    &&& forall|i: int|
        #![trigger outputs[i]]
        0 <= i < inputs.len() ==> {
            &&& banks[i].enabled ==> 0 <= channels[i] < banks[i].channels
            &&& banks[i].processed(run, inputs[i], channels[i], banks[i + 1], outputs[i])
        }
}

/// Silence in, silence out. Let a filter at rest turn a quiet sample
/// into a quiet one and stay at rest. Then a bank that starts at rest
/// turns a run of quiet samples, of any length and on the channels in
/// any order, into quiet samples, one for one, and is at rest after each
/// of them: switched on or off.
pub proof fn lemma_silence_in_silence_out<F, S, R: Fn(F, S) -> (F, S)>(
    run: R,
    banks: Seq<EqFiltersView<F>>,
    channels: Seq<int>,
    inputs: Seq<S>,
    outputs: Seq<S>,
    rest: spec_fn(F) -> bool,
    quiet: spec_fn(S) -> bool,
)
    requires
        processed_all(run, banks, channels, inputs, outputs),
        banks[0].wf(),
        all_at_rest(banks[0].filters, rest),
        forall|i: int| 0 <= i < inputs.len() ==> quiet(#[trigger] inputs[i]),
        forall|f: F, x: S, g: F, y: S|
            rest(f) && quiet(x) && #[trigger] call_ensures(run, (f, x), (g, y)) ==> rest(g)
                && quiet(y),
    ensures
        forall|i: int| 0 <= i < outputs.len() ==> quiet(#[trigger] outputs[i]),
        forall|i: int| 0 <= i < banks.len() ==> all_at_rest((#[trigger] banks[i]).filters, rest),
{
    lemma_silence_so_far(run, banks, channels, inputs, outputs, rest, quiet, inputs.len() as int);
}

/// The first `upto` samples of a quiet run come out quiet, and leave the
/// bank whole and at rest.
proof fn lemma_silence_so_far<F, S, R: Fn(F, S) -> (F, S)>(
    run: R,
    banks: Seq<EqFiltersView<F>>,
    channels: Seq<int>,
    inputs: Seq<S>,
    outputs: Seq<S>,
    rest: spec_fn(F) -> bool,
    quiet: spec_fn(S) -> bool,
    upto: int,
)
    requires
        processed_all(run, banks, channels, inputs, outputs),
        banks[0].wf(),
        all_at_rest(banks[0].filters, rest),
        forall|i: int| 0 <= i < inputs.len() ==> quiet(#[trigger] inputs[i]),
        forall|f: F, x: S, g: F, y: S|
            rest(f) && quiet(x) && #[trigger] call_ensures(run, (f, x), (g, y)) ==> rest(g)
                && quiet(y),
        0 <= upto <= inputs.len(),
    ensures
        forall|i: int| 0 <= i < upto ==> quiet(#[trigger] outputs[i]),
        forall|i: int|
            0 <= i <= upto ==> (#[trigger] banks[i]).wf() && all_at_rest(banks[i].filters, rest),
    decreases upto,
{
    if upto > 0 {
        let last = upto - 1;
        lemma_silence_so_far(run, banks, channels, inputs, outputs, rest, quiet, last);
        assert(banks[last].wf() && all_at_rest(banks[last].filters, rest));
        assert(quiet(inputs[last]));
        assert(outputs[last] == outputs[last]);
        lemma_quiet_sample(
            run,
            banks[last],
            banks[last + 1],
            channels[last],
            inputs[last],
            outputs[last],
            rest,
            quiet,
        );
    }
}

} // verus!
