//! The processed sample source: what happens to every sample on its way
//! from the decoder to the playback device.
//!
//! The source is pulled by the device. It owns the filter bank and the
//! counters; the decoder behind it, the shared settings and the external
//! pipe stay with the caller, who hands in what they gave.

use vstd::prelude::*;
use crate::eq::{EqFilters, EqFiltersView, EqParams, FilterSpec};

verus! {

/// Number of samples between two looks at the shared equalizer settings.
pub const EQ_REFRESH_INTERVAL: u32 = 4096;

/// The source as a plain value.
pub struct ProcessedSourceView<F> {
    pub bank: EqFiltersView<F>,
    /// The channel that the next sample belongs to.
    pub channel: u16,
    pub channels: u16,
    /// Samples pulled since the settings were last looked at.
    pub counter: u32,
    /// Set once the decoder has run out: the signal for the hand-over to the next track.
    pub finished: bool,
}

impl<F> ProcessedSourceView<F> {
    pub open spec fn wf(self) -> bool {
        &&& self.bank.wf()
        &&& self.bank.channels == self.channels
        &&& self.channel < self.channels
        &&& self.counter < EQ_REFRESH_INTERVAL
    }

    /// True if the settings are looked at with the next sample.
    pub open spec fn refresh_due(self) -> bool {
        self.counter + 1 >= EQ_REFRESH_INTERVAL
    }

    /// The count of samples after the next one.
    pub open spec fn next_counter(self) -> u32 {
        if self.refresh_due() {
            0u32
        } else {
            (self.counter + 1) as u32
        }
    }

    /// The channel after the next sample: the channels take turns.
    pub open spec fn next_channel(self) -> u16 {
        ((self.channel + 1) % (self.channels as int)) as u16
    }
}

/// A stream stage between decoder and device.
pub struct ProcessedSource<F> {
    filters: EqFilters<F>,
    channel_idx: u16,
    channels: u16,
    update_counter: u32,
    finished: bool,
}

impl<F> View for ProcessedSource<F> {
    type V = ProcessedSourceView<F>;

    closed spec fn view(&self) -> ProcessedSourceView<F> {
        ProcessedSourceView {
            bank: self.filters@,
            channel: self.channel_idx,
            channels: self.channels,
            counter: self.update_counter,
            finished: self.finished,
        }
    }
}

impl<F: Copy> ProcessedSource<F> {
    /// A source for a track of `channels` channels at a sample rate,
    /// with the filters that the settings ask for.
    pub fn new<D: Fn(FilterSpec) -> Option<F>>(
        channels: u16,
        sample_rate: u32,
        params: &EqParams,
        derive: &D,
    ) -> (source: ProcessedSource<F>)
        requires
            channels >= 1,
            forall|spec: FilterSpec| call_requires(*derive, (spec,)),
        ensures
            source@.wf(),
            source@.channels == channels,
            source@.channel == 0,
            source@.counter == 0,
            !source@.finished,
            source@.bank.sample_rate == sample_rate,
            source@.bank.gains == params.gains@,
            source@.bank.enabled == params.enabled,
            source@.bank.made_by(*derive),
    {
        ProcessedSource {
            filters: EqFilters::new(channels, sample_rate, params, derive),
            channel_idx: 0,
            channels,
            update_counter: 0,
            finished: false,
        }
    }

    pub fn channels(&self) -> (c: u16)
        ensures
            c == self@.channels,
    {
        self.channels
    }

    pub fn sample_rate(&self) -> (r: u32)
        ensures
            r == self@.bank.sample_rate,
    {
        self.filters.sample_rate()
    }

    /// Tells whether the decoder has run out.
    pub fn is_finished(&self) -> (b: bool)
        ensures
            b == self@.finished,
    {
        self.finished
    }

    /// Tells whether the next pull looks at the shared settings. Only
    /// then is it worth trying the lock that guards them.
    pub fn refresh_due(&self) -> (b: bool)
        requires
            self@.wf(),
        ensures
            b == self@.refresh_due(),
    {
        self.update_counter + 1 >= EQ_REFRESH_INTERVAL
    }

    /// One pull. `raw` is what the decoder gave, and `settings` the shared
    /// equalizer settings where their lock was free.
    ///
    /// When the decoder has run out, the source sets its finished flag
    /// and runs out too. Otherwise, every 4096 samples the filters take
    /// over the settings if they were handed in, and are left for later
    /// if not; then the sample runs through the filters of its channel
    /// and through `gain`, the normalization of the track, and the next
    /// channel has its turn.
    pub fn pull<S, D: Fn(FilterSpec) -> Option<F>, R: Fn(F, S) -> (F, S), G: Fn(S) -> S>(
        &mut self,
        raw: Option<S>,
        settings: Option<EqParams>,
        derive: &D,
        run: &R,
        gain: &G,
    ) -> (out: Option<S>)
        requires
            old(self)@.wf(),
            forall|spec: FilterSpec| call_requires(*derive, (spec,)),
            forall|f: F, s: S| call_requires(*run, (f, s)),
            forall|s: S| call_requires(*gain, (s,)),
        ensures
            final(self)@.wf(),
            raw is None ==> out is None && final(self)@ == (ProcessedSourceView {
                finished: true,
                ..old(self)@
            }),
            raw is Some ==> {
                &&& out is Some
                &&& final(self)@ == (ProcessedSourceView {
                    bank: final(self)@.bank,
                    channel: old(self)@.next_channel(),
                    counter: old(self)@.next_counter(),
                    ..old(self)@
                })
                &&& exists|fresh: EqFiltersView<F>, filtered: S|
                    {
                        &&& if old(self)@.refresh_due() && settings is Some {
                            old(self)@.bank.updated(settings->0, *derive, fresh)
                        } else {
                            fresh == old(self)@.bank
                        }
                        &&& #[trigger] fresh.processed(
                            *run,
                            raw->0,
                            old(self)@.channel as int,
                            final(self)@.bank,
                            filtered,
                        )
                        &&& call_ensures(*gain, (filtered,), out->0)
                    }
            },
    {
        let sample = match raw {
            Some(s) => s,
            None => {
                self.finished = true;
                return None;
            },
        };
        self.update_counter = self.update_counter + 1;
        if self.update_counter >= EQ_REFRESH_INTERVAL {
            self.update_counter = 0;
            match settings {
                Some(params) => {
                    let _ = self.filters.update_if_changed(&params, derive);
                },
                None => {},
            }
        }
        let ghost fresh = self.filters@;
        let filtered = self.filters.process(sample, self.channel_idx as usize, run);
        let out = gain(filtered);
        self.channel_idx = (self.channel_idx + 1) % self.channels;
        proof {
            assert(fresh.processed(
                *run,
                sample,
                old(self)@.channel as int,
                self@.bank,
                filtered,
            ));
        }
        Some(out)
    }
}

/// The two bytes of a sample as they go to the external pipe: 16 bits, low byte first.
pub open spec fn pcm_le(sample: i16) -> Seq<u8> {
    seq![(sample as u16 & 0xFF) as u8, (sample as u16 >> 8) as u8]
}

/// The sample that two bytes from the pipe stand for.
pub open spec fn pcm_sample(low: u8, high: u8) -> i16 {
    (((high as u16) << 8) | (low as u16)) as i16
}

/// The bytes of a sample for the external pipe.
pub fn pcm_bytes(sample: i16) -> (bytes: [u8; 2])
    ensures
        bytes@ == pcm_le(sample),
{
    let word = sample as u16;
    let bytes = [(word & 0xFF) as u8, (word >> 8) as u8];
    proof {
        assert(bytes@ =~= pcm_le(sample));
    }
    bytes
}

/// The bytes of a sample read back give the sample.
pub proof fn lemma_pcm_round_trip(sample: i16)
    ensures
        pcm_sample(pcm_le(sample)[0], pcm_le(sample)[1]) == sample,
{
    assert(((((sample as u16 >> 8) as u8) as u16) << 8 | (((sample as u16 & 0xFF) as u8) as u16))
        as i16 == sample) by (bit_vector);
}

/// The tap to the external pipe. The pipe is opened when it is wanted and
/// not open; a write that fails closes it, until it is wanted again.
#[derive(Clone, Copy, PartialEq, Eq, Structural, Debug)]
pub struct PipeTap {
    pub open: bool,
}

impl PipeTap {
    /// A tap whose pipe is not open.
    pub fn new() -> (tap: PipeTap)
        ensures
            !tap.open,
    {
        PipeTap { open: false }
    }

    /// Tells whether to try to open the pipe: it is not open, and a reader may be there.
    pub fn wants_open(&self, ready: bool) -> (b: bool)
        ensures
            b == (!self.open && ready),
    {
        !self.open && ready
    }

    /// Records how an attempt to open the pipe went.
    pub fn opened(&mut self, ok: bool)
        ensures
            final(self).open == (old(self).open || ok),
    {
        if ok {
            self.open = true;
        }
    }

    /// Records how a write went: a failure closes the pipe.
    pub fn wrote(&mut self, ok: bool)
        ensures
            final(self).open == (old(self).open && ok),
    {
        if !ok {
            self.open = false;
        }
    }
}

} // verus!
