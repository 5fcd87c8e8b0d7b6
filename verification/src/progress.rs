//! The progress and the volume as they are shown: their labels, and the
//! ratios of the gauges.

use vstd::prelude::*;
use crate::gauge::WHOLE;
use crate::text::{chars_of, digit_char, nat_text, push_char, push_chars, push_nat};
use crate::transport::MAX_VOLUME_STEPS;

verus! {

/// A time as minutes and seconds: `0:07`, `3:25`, `61:00`.
pub open spec fn duration_text(secs: u64) -> Seq<char> {
    nat_text((secs / 60) as nat) + seq![':', digit_char((secs % 60) as int / 10), digit_char(
        (secs % 60) as int % 10,
    )]
}

/// Appends a time as minutes and seconds.
fn push_duration(s: &mut String, secs: u64)
    ensures
        final(s)@ == old(s)@ + duration_text(secs),
{
    push_nat(s, secs / 60);
    push_char(s, ':');
    let rest = (secs % 60) as u8;
    push_char(s, (rest / 10 + 48) as char);
    push_char(s, (rest % 10 + 48) as char);
    proof {
        assert(s@ =~= old(s)@ + duration_text(secs));
    }
}

/// A time, given in seconds, as minutes and seconds.
pub fn format_duration(secs: u64) -> (s: String)
    ensures
        s@ == duration_text(secs),
{
    let mut s = String::new();
    push_duration(&mut s, secs);
    proof {
        assert(Seq::<char>::empty() + duration_text(secs) =~= duration_text(secs));
    }
    s
}

/// What the progress bar says: the time played, and the duration where it is known and not zero.
pub open spec fn progress_text(elapsed_ms: u64, total_ms: Option<u64>) -> Seq<char> {
    match total_ms {
        Some(t) => if t > 0 {
            duration_text(elapsed_ms / 1000) + " / "@ + duration_text(t / 1000)
        } else {
            duration_text(elapsed_ms / 1000)
        },
        None => duration_text(elapsed_ms / 1000),
    }
}

/// The label of the progress bar.
pub fn progress_label(elapsed_ms: u64, total_ms: Option<u64>) -> (s: String)
    ensures
        s@ == progress_text(elapsed_ms, total_ms),
{
    let mut s = format_duration(elapsed_ms / 1000);
    match total_ms {
        Some(t) => {
            if t > 0 {
                let sep = chars_of(" / ");
                push_chars(&mut s, &sep);
                push_duration(&mut s, t / 1000);
            }
        },
        None => {},
    }
    s
}

/// The part of the track that has been played, in millionths: no more
/// than the whole, and nothing while the duration is not known or zero.
pub open spec fn progress_ratio_of(elapsed_ms: u64, total_ms: Option<u64>) -> u32 {
    match total_ms {
        Some(t) => if t == 0 {
            0u32
        } else if elapsed_ms >= t {
            WHOLE
        } else {
            (elapsed_ms as int * 1_000_000 / t as int) as u32
        },
        None => 0u32,
    }
}

/// The ratio that the progress bar shows, in millionths.
pub fn progress_ratio(elapsed_ms: u64, total_ms: Option<u64>) -> (ratio: u32)
    ensures
        ratio == progress_ratio_of(elapsed_ms, total_ms),
        ratio <= WHOLE,
{
    match total_ms {
        Some(t) => {
            if t == 0 {
                0
            } else if elapsed_ms >= t {
                WHOLE
            } else {
                assert(elapsed_ms as int * 1_000_000 / t as int <= 1_000_000) by (nonlinear_arith)
                    requires
                        0 <= elapsed_ms < t,
                ;
                (elapsed_ms as u128 * 1_000_000 / t as u128) as u32
            }
        },
        None => 0,
    }
}

/// The volume in percent: 100 for the volume of the recording.
pub fn volume_percent(steps: u8) -> (pct: u16)
    ensures
        pct == steps * 5,
{
    steps as u16 * 5
}

/// The ratio that the volume bar shows, in millionths: the whole bar is 2.0.
pub fn volume_ratio(steps: u8) -> (ratio: u32)
    ensures
        ratio == (if steps >= MAX_VOLUME_STEPS {
            WHOLE as int
        } else {
            steps * 25_000
        }),
{
    if steps >= MAX_VOLUME_STEPS {
        WHOLE
    } else {
        steps as u32 * 25_000
    }
}

/// What the volume bar says: ` 100% `.
pub fn volume_label(steps: u8) -> (s: String)
    ensures
        s@ == seq![' '] + nat_text((steps * 5) as nat) + seq!['%', ' '],
{
    let mut s = String::new();
    push_char(&mut s, ' ');
    push_nat(&mut s, steps as u64 * 5);
    push_char(&mut s, '%');
    push_char(&mut s, ' ');
    proof {
        assert(s@ =~= seq![' '] + nat_text((steps * 5) as nat) + seq!['%', ' ']);
    }
    s
}

/// The time over which the pointer hovers on the progress bar: ` 3:25 `.
pub fn hover_time_label(secs: u64) -> (s: String)
    ensures
        s@ == seq![' '] + duration_text(secs) + seq![' '],
{
    let mut s = String::new();
    push_char(&mut s, ' ');
    push_duration(&mut s, secs);
    push_char(&mut s, ' ');
    proof {
        assert(s@ =~= seq![' '] + duration_text(secs) + seq![' ']);
    }
    s
}

} // verus!
