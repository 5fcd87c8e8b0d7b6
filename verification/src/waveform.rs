//! The waveform behind the progress bar: the peaks of a track, gathered
//! while it is read through once, and scaled for the gauge.
//!
//! Amplitudes are magnitudes of samples, from 0 to 65535.

use vstd::prelude::*;

verus! {

/// Number of peaks that a whole track is divided into.
pub const WAVEFORM_BINS: usize = 1024;

/// Number of peaks that are handed on together.
pub const BATCH_SIZE: usize = 32;

/// The larger of two amplitudes.
pub open spec fn louder(a: u16, b: u16) -> u16 {
    if a >= b {
        a
    } else {
        b
    }
}

/// The state of a scan as a plain value.
pub struct ScanView {
    pub channels: usize,
    /// Number of frames that make one peak.
    pub frames_per_bin: usize,
    /// The peaks that are ready and not handed on yet.
    pub batch: Seq<u16>,
    /// The loudest frame of the peak in the making.
    pub current_peak: u16,
    /// The loudest sample of the frame in the making.
    pub frame_peak: u16,
    /// Frames in the peak in the making.
    pub frame_count: usize,
    /// Samples in the frame in the making.
    pub ch_count: usize,
}

impl ScanView {
    pub open spec fn wf(self) -> bool {
        &&& self.frames_per_bin >= 1
        &&& self.batch.len() < BATCH_SIZE
        &&& self.frame_count < self.frames_per_bin
        &&& self.ch_count < self.channels || self.ch_count == 0
    }

    /// True if the sample that comes next completes a frame.
    pub open spec fn ends_frame(self) -> bool {
        self.ch_count + 1 >= self.channels
    }

    /// True if the sample that comes next completes a peak.
    pub open spec fn ends_bin(self) -> bool {
        self.ends_frame() && self.frame_count + 1 >= self.frames_per_bin
    }

    /// True if the sample that comes next completes a batch.
    pub open spec fn ends_batch(self) -> bool {
        self.ends_bin() && self.batch.len() + 1 >= BATCH_SIZE
    }

    /// The peak that the next sample completes.
    pub open spec fn closing_peak(self, magnitude: u16) -> u16 {
        louder(self.current_peak, louder(self.frame_peak, magnitude))
    }

    /// The scan after a sample of the given magnitude.
    pub open spec fn after(self, magnitude: u16) -> ScanView {
        if !self.ends_frame() {
            ScanView {
                frame_peak: louder(self.frame_peak, magnitude),
                ch_count: (self.ch_count + 1) as usize,
                ..self
            }
        } else if !self.ends_bin() {
            ScanView {
                current_peak: self.closing_peak(magnitude),
                frame_peak: 0,
                ch_count: 0,
                frame_count: (self.frame_count + 1) as usize,
                ..self
            }
        } else {
            ScanView {
                batch: if self.ends_batch() {
                    Seq::<u16>::empty()
                } else {
                    self.batch.push(self.closing_peak(magnitude))
                },
                current_peak: 0,
                frame_peak: 0,
                ch_count: 0,
                frame_count: 0,
                ..self
            }
        }
    }

    /// The peaks that are left at the end of the track: the batch, and
    /// the peak in the making if it has a frame.
    pub open spec fn rest(self) -> Seq<u16> {
        if self.frame_count > 0 {
            self.batch.push(self.current_peak)
        } else {
            self.batch
        }
    }
}

/// Number of frames that make one peak of a track: a 1024th of its
/// frames, and at least one.
pub open spec fn frames_per_bin_of(sample_rate: u32, total_ms: u64) -> int {
    let frames = total_ms as int * sample_rate as int / 1000;
    if frames / (WAVEFORM_BINS as int) >= 1 {
        if frames / (WAVEFORM_BINS as int) > usize::MAX {
            usize::MAX as int
        } else {
            frames / (WAVEFORM_BINS as int)
        }
    } else {
        1
    }
}

/// A scan of a track for its peaks.
pub struct WaveformScan {
    channels: usize,
    frames_per_bin: usize,
    batch: Vec<u16>,
    current_peak: u16,
    frame_peak: u16,
    frame_count: usize,
    ch_count: usize,
}

impl View for WaveformScan {
    type V = ScanView;

    closed spec fn view(&self) -> ScanView {
        ScanView {
            channels: self.channels,
            frames_per_bin: self.frames_per_bin,
            batch: self.batch@,
            current_peak: self.current_peak,
            frame_peak: self.frame_peak,
            frame_count: self.frame_count,
            ch_count: self.ch_count,
        }
    }
}

impl WaveformScan {
    /// A scan of a track of the given channels, sample rate and duration.
    pub fn new(channels: u16, sample_rate: u32, total_ms: u64) -> (scan: WaveformScan)
        ensures
            scan@.wf(),
            scan@ == (ScanView {
                channels: channels as usize,
                frames_per_bin: frames_per_bin_of(sample_rate, total_ms) as usize,
                batch: Seq::<u16>::empty(),
                current_peak: 0,
                frame_peak: 0,
                frame_count: 0,
                ch_count: 0,
            }),
    {
        assert(total_ms as int * sample_rate as int <= 0xFFFF_FFFF_FFFF_FFFF * 0xFFFF_FFFF)
            by (nonlinear_arith)
            requires
                0 <= total_ms <= 0xFFFF_FFFF_FFFF_FFFF,
                0 <= sample_rate <= 0xFFFF_FFFF,
        ;
        let frames: u128 = total_ms as u128 * sample_rate as u128 / 1000;
        let per_bin: u128 = frames / WAVEFORM_BINS as u128;
        let frames_per_bin: usize = if per_bin >= 1 {
            if per_bin > usize::MAX as u128 {
                usize::MAX
            } else {
                per_bin as usize
            }
        } else {
            1
        };
        WaveformScan {
            channels: channels as usize,
            frames_per_bin,
            batch: Vec::new(),
            current_peak: 0,
            frame_peak: 0,
            frame_count: 0,
            ch_count: 0,
        }
    }

    /// Takes in the magnitude of the next sample. Returns a batch of 32
    /// peaks whenever one is complete.
    pub fn push(&mut self, magnitude: u16) -> (batch: Option<Vec<u16>>)
        requires
            old(self)@.wf(),
        ensures
            final(self)@.wf(),
            final(self)@ == old(self)@.after(magnitude),
            batch is Some <==> old(self)@.ends_batch(),
            batch matches Some(b) ==> b@ == old(self)@.batch.push(
                old(self)@.closing_peak(magnitude),
            ),
    {
        if magnitude > self.frame_peak {
            self.frame_peak = magnitude;
        }
        if self.ch_count + 1 < self.channels {
            self.ch_count = self.ch_count + 1;
            return None;
        }
        if self.frame_peak > self.current_peak {
            self.current_peak = self.frame_peak;
        }
        self.frame_peak = 0;
        self.ch_count = 0;
        if self.frame_count + 1 < self.frames_per_bin {
            self.frame_count = self.frame_count + 1;
            return None;
        }
        let peak = self.current_peak;
        self.current_peak = 0;
        self.frame_count = 0;
        if self.batch.len() + 1 >= BATCH_SIZE {
            let mut full: Vec<u16> = Vec::new();
            core::mem::swap(&mut self.batch, &mut full);
            full.push(peak);
            Some(full)
        } else {
            self.batch.push(peak);
            None
        }
    }

    /// Ends the scan and returns the peaks that are left.
    pub fn finish(self) -> (rest: Vec<u16>)
        ensures
            rest@ == self@.rest(),
    {
        let mut rest = self.batch;
        if self.frame_count > 0 {
            rest.push(self.current_peak);
        }
        rest
    }
}

/// The largest of the amplitudes `peaks[..n]`.
pub open spec fn loudest(peaks: Seq<u16>, n: int) -> u16
    decreases n,
{
    if n <= 0 {
        0
    } else {
        louder(loudest(peaks, n - 1), peaks[n - 1])
    }
}

/// The peaks in thousandths of the loudest one. `None` while there is
/// no peak yet, or nothing but silence.
pub fn normalize_waveform(peaks: &Vec<u16>) -> (scaled: Option<Vec<u16>>)
    ensures
        scaled is Some <==> loudest(peaks@, peaks@.len() as int) > 0,
        scaled matches Some(s) ==> {
            &&& s@.len() == peaks@.len()
            &&& forall|i: int|
                0 <= i < s@.len() ==> #[trigger] s@[i] as int == peaks@[i] as int * 1000 / (loudest(
                    peaks@,
                    peaks@.len() as int,
                ) as int)
        },
{
    let mut top: u16 = 0;
    let mut i: usize = 0;
    while i < peaks.len()
        invariant
            i <= peaks@.len(),
            top == loudest(peaks@, i as int),
            forall|k: int| 0 <= k < i ==> peaks@[k] <= top,
        decreases peaks@.len() - i,
    {
        if peaks[i] > top {
            top = peaks[i];
        }
        i += 1;
    }
    if top == 0 {
        return None;
    }
    let mut scaled: Vec<u16> = Vec::new();
    let mut j: usize = 0;
    while j < peaks.len()
        invariant
            j <= peaks@.len(),
            top > 0,
            top == loudest(peaks@, peaks@.len() as int),
            forall|k: int| 0 <= k < peaks@.len() ==> peaks@[k] <= top,
            scaled@.len() == j,
            forall|k: int|
                0 <= k < j ==> #[trigger] scaled@[k] as int == peaks@[k] as int * 1000 / (top as int),
        decreases peaks@.len() - j,
    {
        let p = peaks[j] as u32;
        assert(p * 1000 / (top as int) <= 1000) by (nonlinear_arith)
            requires
                0 <= p <= top,
                top > 0,
        ;
        scaled.push((p * 1000 / top as u32) as u16);
        j += 1;
    }
    Some(scaled)
}

} // verus!
