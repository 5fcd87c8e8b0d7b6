//! The transport controller: ordering policy, shuffle, and the state of playback.
//!
//! The controller decides; its caller owns the decoder and the playback
//! device and carries the decisions out. Times are in milliseconds, the
//! volume is counted in steps of 0.05.

pub mod order;
pub mod shuffle;

use vstd::prelude::*;
use crate::meta::TrackMeta;
use crate::ring::SampleRing;
use crate::transport::order::{find_next_path, find_prev_path, next_track, path_text, prev_track, track_names, RepeatMode};
use crate::transport::shuffle::{is_permutation, shuffle_indices, shuffled};

verus! {

/// The volume in steps of 0.05 that stands for 2.0, the loudest setting.
pub const MAX_VOLUME_STEPS: u8 = 40;

/// The volume in steps of 0.05 that stands for 1.0.
pub const UNITY_VOLUME_STEPS: u8 = 20;

/// A track that is open for playback.
#[derive(Clone, Debug)]
pub struct TrackHandle {
    /// Where the track was read from.
    pub path: String,
    /// The name shown for the track: its title, or else its file name.
    pub file_name: String,
    pub meta: TrackMeta,
    /// Total duration in milliseconds, where the container tells it.
    pub duration_ms: Option<u64>,
    pub channels: u16,
    pub sample_rate: u32,
    /// ReplayGain in hundredths of a decibel, where the tags give one.
    pub gain_centi_db: Option<i32>,
}

/// The state of the transport as a plain value.
pub struct TransportView {
    /// False while no track has been chosen, and after playback has run out.
    pub loaded: bool,
    pub paused: bool,
    /// Volume in steps of 0.05.
    pub volume: u8,
    /// Position in the track at which the current pipeline was attached.
    pub seek_base: u64,
    pub current: Option<TrackHandle>,
    /// The track that was opened ahead and appended to the device's queue.
    pub queued: Option<TrackHandle>,
    pub repeat: RepeatMode,
    pub shuffle: bool,
    pub order: Seq<usize>,
    /// Generation of the playback pipeline. It changes whenever the
    /// pipeline is torn down and built anew.
    pub pipeline: u64,
}

impl TransportView {
    /// The path of the current track, or the empty text.
    pub open spec fn current_path(self) -> Seq<char> {
        match self.current {
            Some(t) => t.path@,
            None => Seq::<char>::empty(),
        }
    }

    /// The track that follows the current one, by the ordering policy.
    pub open spec fn following(self, names: Seq<Seq<char>>) -> Option<Seq<char>> {
        match self.current {
            Some(t) => next_track(names, t.path@, self.repeat, self.shuffle, self.order),
            None => None,
        }
    }

    /// The track that precedes the current one, by the ordering policy.
    pub open spec fn preceding(self, names: Seq<Seq<char>>) -> Option<Seq<char>> {
        match self.current {
            Some(t) => prev_track(names, t.path@, self.repeat, self.shuffle, self.order),
            None => None,
        }
    }

    /// The track to open ahead: the one that follows the current one,
    /// unless a track is queued already or none is loaded.
    pub open spec fn upcoming(self, names: Seq<Seq<char>>) -> Option<Seq<char>> {
        if self.loaded && self.queued is None {
            self.following(names)
        } else {
            None
        }
    }

    /// The state after `track` was loaded: it plays from its start on a
    /// new pipeline, and nothing is queued.
    pub open spec fn after_load(self, track: TrackHandle) -> TransportView {
        TransportView {
            loaded: true,
            paused: false,
            seek_base: 0,
            current: Some(track),
            queued: None,
            pipeline: self.pipeline.wrapping_add(1),
            ..self
        }
    }

    /// The state after a seek: a new pipeline attached at the target, and nothing queued.
    pub open spec fn after_seek(self, target: u64) -> TransportView {
        TransportView {
            seek_base: self.seek_target(target),
            queued: None,
            pipeline: self.pipeline.wrapping_add(1),
            ..self
        }
    }

    /// The state after the queued track took over: it is the current
    /// track, at its start, on the pipeline that was there.
    pub open spec fn after_advance(self) -> TransportView {
        TransportView { seek_base: 0, current: self.queued, queued: None, ..self }
    }

    /// The position to seek to for a wanted position: no later than the end of the track.
    pub open spec fn seek_target(self, target: u64) -> u64 {
        match self.current {
            Some(t) => match t.duration_ms {
                Some(d) => if target > d {
                    d
                } else {
                    target
                },
                None => target,
            },
            None => target,
        }
    }

    /// The position, given the time that the device has played since the pipeline was attached.
    pub open spec fn position(self, elapsed: u64) -> u64 {
        if self.seek_base + elapsed > u64::MAX {
            u64::MAX
        } else {
            (self.seek_base + elapsed) as u64
        }
    }
}

/// A position moved by a number of seconds, kept within what a `u64` holds.
pub open spec fn shifted(position: u64, delta_s: i64) -> u64 {
    let t = position as int + delta_s as int * 1000;
    if t < 0 {
        0
    } else if t > u64::MAX {
        u64::MAX
    } else {
        t as u64
    }
}

/// A volume in thousandths, limited to 2.0 and rounded to the nearest step of 0.05.
pub open spec fn snapped_volume(thousandths: u32) -> u8 {
    if (thousandths + 25) / 50 > MAX_VOLUME_STEPS as int {
        MAX_VOLUME_STEPS
    } else {
        ((thousandths + 25) / 50) as u8
    }
}

/// What to do after a seek: rebuild the pipeline at `position_ms`.
pub struct SeekPlan {
    /// Where the new decoder starts, and what the position reads right after.
    pub position_ms: u64,
    /// Whether the new sink starts paused.
    pub paused: bool,
    /// The track to open ahead next, if any.
    pub prefetch: Option<String>,
}

/// What became of a finished track.
pub enum Advance {
    /// No track was queued: nothing changed.
    Nothing,
    /// The queued track is the current one now, on the same pipeline.
    Promoted {
        /// The track to open ahead next, if any.
        prefetch: Option<String>,
    },
}

/// What to do when the device has nothing left to play.
#[derive(Clone, Copy, PartialEq, Eq, Structural, Debug)]
pub enum Ending {
    /// Playback goes on, or is paused, or no track is loaded.
    Continue,
    /// Playback has run out: show the file browser.
    OpenBrowser,
    /// Playback has run out and there is nothing to browse: leave.
    Quit,
}

/// The transport controller.
pub struct Transport {
    loaded: bool,
    paused: bool,
    volume: u8,
    seek_base_ms: u64,
    current: Option<TrackHandle>,
    queued: Option<TrackHandle>,
    repeat: RepeatMode,
    shuffle: bool,
    order: Vec<usize>,
    pipeline: u64,
}

impl View for Transport {
    type V = TransportView;

    closed spec fn view(&self) -> TransportView {
        TransportView {
            loaded: self.loaded,
            paused: self.paused,
            volume: self.volume,
            seek_base: self.seek_base_ms,
            current: self.current,
            queued: self.queued,
            repeat: self.repeat,
            shuffle: self.shuffle,
            order: self.order@,
            pipeline: self.pipeline,
        }
    }
}

impl Transport {
    /// What holds of every transport: the volume is on the scale, a loaded
    /// transport has a current track, and only a loaded one has a track queued.
    pub open spec fn wf(&self) -> bool {
        &&& self@.volume <= MAX_VOLUME_STEPS
        &&& self@.loaded ==> self@.current is Some
        &&& self@.queued is Some ==> self@.loaded
    }

    /// An idle transport with the given settings.
    pub fn new(volume_thousandths: u32, repeat: RepeatMode, shuffle: bool) -> (t: Transport)
        ensures
            t.wf(),
            t@ == (TransportView {
                loaded: false,
                paused: true,
                volume: snapped_volume(volume_thousandths),
                seek_base: 0,
                current: None,
                queued: None,
                repeat,
                shuffle,
                order: Seq::<usize>::empty(),
                pipeline: 0,
            }),
    {
        Transport {
            loaded: false,
            paused: true,
            volume: snap_volume(volume_thousandths),
            seek_base_ms: 0,
            current: None,
            queued: None,
            repeat,
            shuffle,
            order: Vec::new(),
            pipeline: 0,
        }
    }

    pub fn is_loaded(&self) -> (b: bool)
        ensures
            b == self@.loaded,
    {
        self.loaded
    }

    pub fn is_paused(&self) -> (b: bool)
        ensures
            b == self@.paused,
    {
        self.paused
    }

    /// The volume in steps of 0.05.
    pub fn volume_steps(&self) -> (v: u8)
        ensures
            v == self@.volume,
    {
        self.volume
    }

    pub fn seek_base_ms(&self) -> (t: u64)
        ensures
            t == self@.seek_base,
    {
        self.seek_base_ms
    }

    pub fn repeat_mode(&self) -> (m: RepeatMode)
        ensures
            m == self@.repeat,
    {
        self.repeat
    }

    pub fn shuffle(&self) -> (b: bool)
        ensures
            b == self@.shuffle,
    {
        self.shuffle
    }

    pub fn shuffle_order(&self) -> (o: &Vec<usize>)
        ensures
            o@ == self@.order,
    {
        &self.order
    }

    pub fn pipeline(&self) -> (p: u64)
        ensures
            p == self@.pipeline,
    {
        self.pipeline
    }

    pub fn current(&self) -> (t: Option<&TrackHandle>)
        ensures
            match t {
                Some(h) => self@.current == Some(*h),
                None => self@.current is None,
            },
    {
        self.current.as_ref()
    }

    pub fn queued(&self) -> (t: Option<&TrackHandle>)
        ensures
            match t {
                Some(h) => self@.queued == Some(*h),
                None => self@.queued is None,
            },
    {
        self.queued.as_ref()
    }

    /// The position in the current track: the position at which the
    /// pipeline was attached, plus what the device has played since.
    pub fn position(&self, elapsed_ms: u64) -> (p: u64)
        ensures
            p == self@.position(elapsed_ms),
    {
        self.seek_base_ms.saturating_add(elapsed_ms)
    }
}

impl Transport {
    /// The path of the track that follows the current one.
    pub fn find_next_path(&self, files: &Vec<String>) -> (r: Option<String>)
        ensures
            path_text(r) == self@.following(track_names(files@)),
    {
        match &self.current {
            Some(t) => find_next_path(files, &t.path, self.repeat, self.shuffle, &self.order),
            None => None,
        }
    }

    /// The path of the track that precedes the current one.
    pub fn find_prev_path(&self, files: &Vec<String>) -> (r: Option<String>)
        ensures
            path_text(r) == self@.preceding(track_names(files@)),
    {
        match &self.current {
            Some(t) => find_prev_path(files, &t.path, self.repeat, self.shuffle, &self.order),
            None => None,
        }
    }

    /// The path of the track to open ahead. `None` while a track is
    /// queued, so that at most one track is ever opened ahead.
    pub fn queue_next(&self, files: &Vec<String>) -> (r: Option<String>)
        ensures
            path_text(r) == self@.upcoming(track_names(files@)),
    {
        if !self.loaded || self.queued.is_some() {
            None
        } else {
            self.find_next_path(files)
        }
    }

    /// Records a track that was opened ahead and appended to the queue of
    /// the device. It is taken only if a track is loaded and none is
    /// queued yet; the result tells whether it was.
    pub fn prefetched(&mut self, track: TrackHandle) -> (taken: bool)
        requires
            old(self).wf(),
        ensures
            final(self).wf(),
            taken == (old(self)@.loaded && old(self)@.queued is None),
            taken ==> final(self)@ == (TransportView { queued: Some(track), ..old(self)@ }),
            !taken ==> final(self)@ == old(self)@,
    {
        if self.loaded && self.queued.is_none() {
            self.queued = Some(track);
            true
        } else {
            false
        }
    }

    /// Makes `track` the current track: it plays from its start on a new
    /// pipeline, the buffer of the displays is emptied, and whatever was
    /// queued is dropped. Returns the path of the track to open ahead.
    pub fn load<S>(
        &mut self,
        track: TrackHandle,
        files: &Vec<String>,
        ring: &mut SampleRing<S>,
    ) -> (prefetch: Option<String>)
        requires
            old(self).wf(),
        ensures
            final(self).wf(),
            final(self)@ == old(self)@.after_load(track),
            final(ring)@ == Seq::<S>::empty(),
            final(ring).spec_capacity() == old(ring).spec_capacity(),
            path_text(prefetch) == final(self)@.upcoming(track_names(files@)),
    {
        self.loaded = true;
        self.paused = false;
        self.seek_base_ms = 0;
        self.current = Some(track);
        self.queued = None;
        self.pipeline = self.pipeline.wrapping_add(1);
        ring.clear();
        self.queue_next(files)
    }

    /// Flips between playing and paused, and returns whether playback is
    /// paused now. The queued track is not touched.
    pub fn toggle_pause(&mut self) -> (paused: bool)
        requires
            old(self).wf(),
        ensures
            final(self).wf(),
            paused == !old(self)@.paused,
            final(self)@ == (TransportView { paused: !old(self)@.paused, ..old(self)@ }),
    {
        self.paused = !self.paused;
        self.paused
    }

    /// One step of 0.05 up, no further than 2.0. Returns the new volume in steps.
    pub fn volume_up(&mut self) -> (volume: u8)
        requires
            old(self).wf(),
        ensures
            final(self).wf(),
            volume == (if old(self)@.volume < MAX_VOLUME_STEPS {
                (old(self)@.volume + 1) as u8
            } else {
                MAX_VOLUME_STEPS
            }),
            final(self)@ == (TransportView { volume, ..old(self)@ }),
    {
        if self.volume < MAX_VOLUME_STEPS {
            self.volume = self.volume + 1;
        }
        self.volume
    }

    /// One step of 0.05 down, no further than silence. Returns the new volume in steps.
    pub fn volume_down(&mut self) -> (volume: u8)
        requires
            old(self).wf(),
        ensures
            final(self).wf(),
            volume == (if old(self)@.volume > 0 {
                (old(self)@.volume - 1) as u8
            } else {
                0u8
            }),
            final(self)@ == (TransportView { volume, ..old(self)@ }),
    {
        if self.volume > 0 {
            self.volume = self.volume - 1;
        }
        self.volume
    }

    /// Sets the volume, given in thousandths: limited to 2.0 and rounded
    /// to the nearest step of 0.05. Returns the new volume in steps.
    pub fn set_volume(&mut self, thousandths: u32) -> (volume: u8)
        requires
            old(self).wf(),
        ensures
            final(self).wf(),
            volume == snapped_volume(thousandths),
            final(self)@ == (TransportView { volume, ..old(self)@ }),
    {
        self.volume = snap_volume(thousandths);
        self.volume
    }

    /// Sets the volume in steps of 0.05, no further than 2.0. Returns the new volume in steps.
    pub fn set_volume_steps(&mut self, steps: u8) -> (volume: u8)
        requires
            old(self).wf(),
        ensures
            final(self).wf(),
            volume == (if steps > MAX_VOLUME_STEPS {
                MAX_VOLUME_STEPS
            } else {
                steps
            }),
            final(self)@ == (TransportView { volume, ..old(self)@ }),
    {
        self.volume = if steps > MAX_VOLUME_STEPS {
            MAX_VOLUME_STEPS
        } else {
            steps
        };
        self.volume
    }

    /// The position that a seek to `target_ms` goes to: no later than the
    /// end of the track, where the duration is known.
    pub fn seek_target(&self, target_ms: u64) -> (t: u64)
        ensures
            t == self@.seek_target(target_ms),
    {
        match &self.current {
            Some(track) => match track.duration_ms {
                Some(d) => if target_ms > d {
                    d
                } else {
                    target_ms
                },
                None => target_ms,
            },
            None => target_ms,
        }
    }

    /// Seeks to `target_ms`, limited to the track: the pipeline is built
    /// anew at the target, the buffer of the displays is emptied and the
    /// queued track is dropped. Without a loaded track nothing happens.
    pub fn seek_to<S>(&mut self, target_ms: u64, files: &Vec<String>, ring: &mut SampleRing<S>) -> (plan:
        Option<SeekPlan>)
        requires
            old(self).wf(),
        ensures
            final(self).wf(),
            final(ring).spec_capacity() == old(ring).spec_capacity(),
            plan is Some <==> old(self)@.loaded,
            !old(self)@.loaded ==> final(self)@ == old(self)@ && final(ring)@ == old(ring)@,
            old(self)@.loaded ==> {
                &&& final(self)@ == old(self)@.after_seek(target_ms)
                &&& final(self)@.position(0) == old(self)@.seek_target(target_ms)
                &&& final(ring)@ == Seq::<S>::empty()
                &&& plan->0.position_ms == old(self)@.seek_target(target_ms)
                &&& plan->0.paused == old(self)@.paused
                &&& path_text(plan->0.prefetch) == final(self)@.upcoming(track_names(files@))
            },
    {
        if !self.loaded {
            return None;
        }
        let position_ms = self.seek_target(target_ms);
        self.seek_base_ms = position_ms;
        self.queued = None;
        self.pipeline = self.pipeline.wrapping_add(1);
        ring.clear();
        let prefetch = self.queue_next(files);
        Some(SeekPlan { position_ms, paused: self.paused, prefetch })
    }

    /// Seeks by `delta_s` seconds from the present position.
    pub fn seek<S>(
        &mut self,
        elapsed_ms: u64,
        delta_s: i64,
        files: &Vec<String>,
        ring: &mut SampleRing<S>,
    ) -> (plan: Option<SeekPlan>)
        requires
            old(self).wf(),
        ensures
            final(self).wf(),
            final(ring).spec_capacity() == old(ring).spec_capacity(),
            plan is Some <==> old(self)@.loaded,
            !old(self)@.loaded ==> final(self)@ == old(self)@ && final(ring)@ == old(ring)@,
            old(self)@.loaded ==> {
                let target = shifted(old(self)@.position(elapsed_ms), delta_s);
                &&& final(self)@ == old(self)@.after_seek(target)
                &&& final(ring)@ == Seq::<S>::empty()
                &&& plan->0.position_ms == old(self)@.seek_target(target)
                &&& plan->0.paused == old(self)@.paused
                &&& path_text(plan->0.prefetch) == final(self)@.upcoming(track_names(files@))
            },
    {
        let target = shift_position(self.position(elapsed_ms), delta_s);
        self.seek_to(target, files, ring)
    }

    /// Builds the pipeline anew where playback is, so that what is opened
    /// ahead goes by the repeat mode and the shuffle as they are now.
    pub fn requeue<S>(&mut self, elapsed_ms: u64, files: &Vec<String>, ring: &mut SampleRing<S>) -> (plan:
        Option<SeekPlan>)
        requires
            old(self).wf(),
        ensures
            final(self).wf(),
            final(ring).spec_capacity() == old(ring).spec_capacity(),
            plan is Some <==> old(self)@.loaded,
            !old(self)@.loaded ==> final(self)@ == old(self)@ && final(ring)@ == old(ring)@,
            old(self)@.loaded ==> {
                let target = old(self)@.position(elapsed_ms);
                &&& final(self)@ == old(self)@.after_seek(target)
                &&& final(ring)@ == Seq::<S>::empty()
                &&& plan->0.position_ms == old(self)@.seek_target(target)
                &&& plan->0.paused == old(self)@.paused
                &&& path_text(plan->0.prefetch) == final(self)@.upcoming(track_names(files@))
            },
    {
        let target = self.position(elapsed_ms);
        self.seek_to(target, files, ring)
    }

    /// Tells whether the queued track is to take over: a track is loaded,
    /// its source has signalled its end, and a track is queued.
    pub fn should_advance(&self, current_finished: bool) -> (b: bool)
        ensures
            b == (self@.loaded && current_finished && self@.queued is Some),
    {
        self.loaded && current_finished && self.queued.is_some()
    }

    /// Lets the queued track take over after the current one has ended.
    /// The device plays on without a gap, so the pipeline stays; the
    /// position starts over, the buffer of the displays is emptied, and
    /// the next track is to be opened ahead.
    pub fn advance_to_queued<S>(&mut self, files: &Vec<String>, ring: &mut SampleRing<S>) -> (r:
        Advance)
        requires
            old(self).wf(),
        ensures
            final(self).wf(),
            final(ring).spec_capacity() == old(ring).spec_capacity(),
            old(self)@.queued is None ==> {
                &&& r is Nothing
                &&& final(self)@ == old(self)@
                &&& final(ring)@ == old(ring)@
            },
            old(self)@.queued is Some ==> {
                &&& final(self)@ == old(self)@.after_advance()
                &&& final(ring)@ == Seq::<S>::empty()
                &&& r is Promoted
                &&& path_text(r->prefetch) == final(self)@.upcoming(track_names(files@))
            },
    {
        if self.queued.is_none() {
            return Advance::Nothing;
        }
        let mut taken: Option<TrackHandle> = None;
        core::mem::swap(&mut self.queued, &mut taken);
        self.current = taken;
        self.seek_base_ms = 0;
        ring.clear();
        let prefetch = self.queue_next(files);
        Advance::Promoted { prefetch }
    }

    /// Decides what to do when the device may have run out of samples.
    /// While a loaded track is not paused and the device has nothing left,
    /// playback is over: the transport goes idle, forgets what was
    /// queued, and the browser opens where there is one; otherwise the
    /// player leaves.
    pub fn end_of_queue(&mut self, sink_empty: bool, has_browser: bool) -> (e: Ending)
        requires
            old(self).wf(),
        ensures
            final(self).wf(),
            e == (if old(self)@.loaded && sink_empty && !old(self)@.paused {
                if has_browser {
                    Ending::OpenBrowser
                } else {
                    Ending::Quit
                }
            } else {
                Ending::Continue
            }),
            e == Ending::OpenBrowser ==> final(self)@ == (TransportView {
                loaded: false,
                queued: None,
                ..old(self)@
            }),
            e != Ending::OpenBrowser ==> final(self)@ == old(self)@,
    {
        if self.loaded && sink_empty && !self.paused {
            if has_browser {
                self.loaded = false;
                self.queued = None;
                Ending::OpenBrowser
            } else {
                Ending::Quit
            }
        } else {
            Ending::Continue
        }
    }

    /// Draws a new shuffle order for `tracks` tracks: the shuffle of the
    /// seed that the clock gives, whichever that is.
    pub fn regenerate_shuffle(&mut self, tracks: usize)
        requires
            old(self).wf(),
        ensures
            final(self).wf(),
            is_permutation(final(self)@.order, tracks as nat),
            exists|seed: u64| final(self)@.order == shuffled(tracks as nat, seed),
            final(self)@ == (TransportView { order: final(self)@.order, ..old(self)@ }),
    {
        self.order = shuffle_indices(tracks);
    }

    /// Switches shuffle on or off and returns the new setting. Switching
    /// it on draws a new order for `tracks` tracks, the shuffle of the
    /// seed that the clock gives; switching it off forgets the order.
    pub fn toggle_shuffle(&mut self, tracks: usize) -> (on: bool)
        requires
            old(self).wf(),
        ensures
            final(self).wf(),
            on == !old(self)@.shuffle,
            on ==> is_permutation(final(self)@.order, tracks as nat),
            on ==> exists|seed: u64| final(self)@.order == shuffled(tracks as nat, seed),
            !on ==> final(self)@.order == Seq::<usize>::empty(),
            final(self)@ == (TransportView {
                shuffle: on,
                order: final(self)@.order,
                ..old(self)@
            }),
    {
        self.shuffle = !self.shuffle;
        if self.shuffle {
            self.order = shuffle_indices(tracks);
        } else {
            self.order = Vec::new();
        }
        self.shuffle
    }

    /// Moves on to the next repeat mode and returns it.
    pub fn cycle_repeat(&mut self) -> (mode: RepeatMode)
        requires
            old(self).wf(),
        ensures
            final(self).wf(),
            mode == old(self)@.repeat.next(),
            final(self)@ == (TransportView { repeat: mode, ..old(self)@ }),
    {
        self.repeat = self.repeat.next();
        self.repeat
    }
}

/// A position moved by a number of seconds.
pub fn shift_position(position_ms: u64, delta_s: i64) -> (t: u64)
    ensures
        t == shifted(position_ms, delta_s),
{
    let moved: i128 = position_ms as i128 + (delta_s as i128) * 1000;
    if moved < 0 {
        0
    } else if moved > u64::MAX as i128 {
        u64::MAX
    } else {
        moved as u64
    }
}

/// A seek to a place within the track reads back as that place, at once:
/// for every target up to the duration, the position right after the seek
/// is the target.
pub proof fn lemma_seek_reports_target(before: TransportView, target: u64)
    requires
        before.current is Some,
        before.current->0.duration_ms is Some ==> target <= before.current->0.duration_ms->0,
    ensures
        before.seek_target(target) == target,
        before.after_seek(target).position(0) == target,
{
}

/// The gapless hand-over: when the queued track takes over, the position
/// starts at zero, the pipeline is the one that was playing, and the track
/// to open ahead is again the one that the policy names after the new
/// current track.
pub proof fn lemma_gapless_handover(before: TransportView, names: Seq<Seq<char>>)
    requires
        before.loaded,
        before.queued is Some,
    ensures
        before.after_advance().position(0) == 0,
        before.after_advance().pipeline == before.pipeline,
        before.after_advance().paused == before.paused,
        before.after_advance().current == before.queued,
        before.after_advance().upcoming(names) == next_track(
            names,
            before.queued->0.path@,
            before.repeat,
            before.shuffle,
            before.order,
        ),
{
}

/// A volume in thousandths, limited to 2.0 and rounded to the nearest step.
pub fn snap_volume(thousandths: u32) -> (steps: u8)
    ensures
        steps == snapped_volume(thousandths),
        steps <= MAX_VOLUME_STEPS,
{
    let s: u64 = (thousandths as u64 + 25) / 50;
    if s > MAX_VOLUME_STEPS as u64 {
        MAX_VOLUME_STEPS
    } else {
        s as u8
    }
}

} // verus!
