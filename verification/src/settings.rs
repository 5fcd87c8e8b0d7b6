//! The settings as text: how the volume, the modes and the equalizer are
//! written to their files, and how they are read back.
//!
//! Numbers with a fraction are fixed-point numbers with two decimals,
//! kept as hundredths.

use vstd::prelude::*;
use crate::eq::{clamp_gain, EqParams, MAX_GAIN, NUM_BANDS, PRESET_FLAT};
use crate::text::{
    all_digits, chars_of, digit_char, digit_value, digits_value, is_digit, is_space,
    lemma_nat_text, nat_text, push_char, push_chars, push_nat, read_digits, trim, trim_range,
};
use crate::transport::order::RepeatMode;
use crate::transport::{MAX_VOLUME_STEPS, UNITY_VOLUME_STEPS};
use crate::visualizer::VisMode;

verus! {

/// The place of the first `c` in `s`, or the length of `s` if there is none.
pub open spec fn find_char(s: Seq<char>, c: char) -> int
    decreases s.len(),
{
    if s.len() == 0 || s[0] == c {
        0
    } else {
        1 + find_char(s.drop_first(), c)
    }
}

/// The digits after the decimal point as hundredths, rounded at the third digit.
pub open spec fn frac_centi(frac: Seq<char>) -> int {
    let tenths = if frac.len() > 0 {
        digit_value(frac[0])
    } else {
        0
    };
    let hundredths = if frac.len() > 1 {
        digit_value(frac[1])
    } else {
        0
    };
    let up: int = if frac.len() > 2 && digit_value(frac[2]) >= 5 {
        1
    } else {
        0
    };
    tenths * 10 + hundredths + up
}

/// A number with a sign and two decimals as text, as short as it goes:
/// `0`, `-3`, `1.5`, `0.05`.
pub open spec fn centi_text(v: int) -> Seq<char> {
    let a = if v < 0 {
        -v
    } else {
        v
    };
    let sign = if v < 0 {
        seq!['-']
    } else {
        Seq::<char>::empty()
    };
    let whole = nat_text((a / 100) as nat);
    let frac = a % 100;
    let tail = if frac == 0 {
        Seq::<char>::empty()
    } else if frac % 10 == 0 {
        seq!['.', digit_char(frac / 10)]
    } else {
        seq!['.', digit_char(frac / 10), digit_char(frac % 10)]
    };
    sign + whole + tail
}

/// The part of a number before the decimal point, sign taken off.
pub open spec fn unsigned_part(t: Seq<char>) -> Seq<char> {
    if t.len() > 0 && (t[0] == '-' || t[0] == '+') {
        t.drop_first()
    } else {
        t
    }
}

/// What a text reads as, in hundredths: an optional sign, digits, and
/// optionally a point and more digits, with white space around. There
/// must be a digit, and nothing else. Digits beyond the second decimal
/// round the number, halves away from zero.
pub open spec fn parse_centi(s: Seq<char>) -> Option<int> {
    let t = trim(s);
    let negative = t.len() > 0 && t[0] == '-';
    let body = unsigned_part(t);
    let dot = find_char(body, '.');
    let whole = body.take(dot);
    let frac = if dot < body.len() {
        body.skip(dot + 1)
    } else {
        Seq::<char>::empty()
    };
    if all_digits(whole) && all_digits(frac) && whole.len() + frac.len() > 0 {
        let magnitude = digits_value(whole) * 100 + frac_centi(frac);
        Some(
            if negative {
                -magnitude
            } else {
                magnitude
            },
        )
    } else {
        None
    }
}

/// `v` limited to the range from `-limit` to `limit`.
pub open spec fn clamp_to(v: int, limit: int) -> int {
    if v > limit {
        limit
    } else if v < -limit {
        -limit
    } else {
        v
    }
}

proof fn lemma_find_char_bounds(s: Seq<char>, c: char)
    ensures
        0 <= find_char(s, c) <= s.len(),
        find_char(s, c) < s.len() ==> s[find_char(s, c)] == c,
        forall|i: int| 0 <= i < find_char(s, c) ==> s[i] != c,
    decreases s.len(),
{
    if s.len() == 0 || s[0] == c {
    } else {
        lemma_find_char_bounds(s.drop_first(), c);
        assert forall|i: int| 0 <= i < find_char(s, c) implies s[i] != c by {
            if i > 0 {
                assert(s[i] == s.drop_first()[i - 1]);
            }
        }
    }
}

/// The first `c` is found where the first `c` stands.
proof fn lemma_find_char_is(s: Seq<char>, c: char, k: int)
    requires
        0 <= k <= s.len(),
        forall|i: int| 0 <= i < k ==> s[i] != c,
        k < s.len() ==> s[k] == c,
    ensures
        find_char(s, c) == k,
{
    lemma_find_char_bounds(s, c);
    let f = find_char(s, c);
    if f < k {
        assert(s[f] == c);
    }
    if f > k {
        assert(s[k] != c);
    }
}

/// A text that neither starts nor ends with white space is its own trimmed form.
pub proof fn lemma_trim_is_identity(s: Seq<char>)
    requires
        s.len() > 0 ==> !is_space(s[0]) && !is_space(s.last()),
    ensures
        trim(s) == s,
{
}

/// Writing a number and reading it back gives the number.
pub proof fn lemma_centi_round_trip(v: int)
    ensures
        parse_centi(centi_text(v)) == Some(v),
{
    let a = if v < 0 {
        -v
    } else {
        v
    };
    let sign = if v < 0 {
        seq!['-']
    } else {
        Seq::<char>::empty()
    };
    let whole = nat_text((a / 100) as nat);
    let f = a % 100;
    let tail = if f == 0 {
        Seq::<char>::empty()
    } else if f % 10 == 0 {
        seq!['.', digit_char(f / 10)]
    } else {
        seq!['.', digit_char(f / 10), digit_char(f % 10)]
    };
    let s = centi_text(v);
    assert(s == sign + whole + tail);
    lemma_nat_text((a / 100) as nat);
    assert(is_digit(whole[0]));
    assert(is_digit(whole.last()));
    assert(s.len() > 0);
    if v < 0 {
        assert(s[0] == '-');
    } else {
        assert(s[0] == whole[0]);
    }
    if f == 0 {
        assert(s.last() == whole.last());
    } else if f % 10 == 0 {
        assert(s.last() == digit_char(f / 10));
    } else {
        assert(s.last() == digit_char(f % 10));
    }
    lemma_trim_is_identity(s);
    let t = trim(s);
    let body = unsigned_part(t);
    assert(body =~= whole + tail);
    assert forall|i: int| 0 <= i < whole.len() implies body[i] != '.' by {
        assert(body[i] == whole[i]);
        assert(is_digit(whole[i]));
    }
    lemma_find_char_is(body, '.', whole.len() as int);
    let dot = find_char(body, '.');
    assert(body.take(dot) =~= whole);
    let frac = if dot < body.len() {
        body.skip(dot + 1)
    } else {
        Seq::<char>::empty()
    };
    if f == 0 {
        assert(frac =~= Seq::<char>::empty());
    } else if f % 10 == 0 {
        assert(frac =~= seq![digit_char(f / 10)]);
    } else {
        assert(frac =~= seq![digit_char(f / 10), digit_char(f % 10)]);
    }
    assert(all_digits(frac));
    assert(frac_centi(frac) == f);
}

/// Appends a number with two decimals to `s`.
pub fn push_centi(s: &mut String, v: i32)
    ensures
        final(s)@ == old(s)@ + centi_text(v as int),
{
    let a: u64 = if v < 0 {
        (-(v as i64)) as u64
    } else {
        v as u64
    };
    if v < 0 {
        push_char(s, '-');
    }
    push_nat(s, a / 100);
    let f: u64 = a % 100;
    if f != 0 {
        push_char(s, '.');
        push_char(s, ((f / 10) as u8 + 48) as char);
        if f % 10 != 0 {
            push_char(s, ((f % 10) as u8 + 48) as char);
        }
    }
    proof {
        assert(s@ =~= old(s)@ + centi_text(v as int));
    }
}

/// A number with two decimals as text.
pub fn format_centi(v: i32) -> (s: String)
    ensures
        s@ == centi_text(v as int),
{
    let mut s = String::new();
    push_centi(&mut s, v);
    proof {
        assert(Seq::<char>::empty() + centi_text(v as int) =~= centi_text(v as int));
    }
    s
}

/// The place of the first `c` in `v[from..to]`, or `to`.
fn find_in(v: &Vec<char>, from: usize, to: usize, c: char) -> (at: usize)
    requires
        from <= to <= v@.len(),
    ensures
        from <= at <= to,
        at - from == find_char(v@.subrange(from as int, to as int), c),
{
    let ghost s = v@.subrange(from as int, to as int);
    let mut i: usize = from;
    while i < to && v[i] != c
        invariant
            from <= i <= to <= v@.len(),
            s == v@.subrange(from as int, to as int),
            forall|k: int| 0 <= k < i - from ==> s[k] != c,
        decreases to - i,
    {
        i += 1;
    }
    proof {
        lemma_find_char_is(s, c, i - from);
    }
    i
}

/// Reads `v[from..to]` as a number with a fraction, in hundredths and
/// limited to the range from `-limit` to `limit`. `None` if the text is
/// not a number.
pub fn read_centi(v: &Vec<char>, from: usize, to: usize, limit: i32) -> (r: Option<i32>)
    requires
        from <= to <= v@.len(),
        0 <= limit <= 1_000_000_000,
    ensures
        r is Some <==> parse_centi(v@.subrange(from as int, to as int)) is Some,
        r matches Some(n) ==> n as int == clamp_to(
            parse_centi(v@.subrange(from as int, to as int))->0,
            limit as int,
        ),
{
    let (a, b) = trim_range(v, from, to);
    let ghost t = v@.subrange(a as int, b as int);
    let negative = a < b && v[a] == '-';
    let start: usize = if a < b && (v[a] == '-' || v[a] == '+') {
        a + 1
    } else {
        a
    };
    let ghost body = v@.subrange(start as int, b as int);
    proof {
        assert(body =~= unsigned_part(t));
    }
    let dot = find_in(v, start, b, '.');
    let ghost whole = v@.subrange(start as int, dot as int);
    proof {
        assert(whole =~= body.take(dot - start));
    }
    let frac_from: usize = if dot < b {
        dot + 1
    } else {
        b
    };
    let ghost frac = v@.subrange(frac_from as int, b as int);
    proof {
        if dot < b {
            assert(frac =~= body.skip(dot - start + 1));
        } else {
            assert(frac =~= Seq::<char>::empty());
        }
    }
    let whole_value = match read_digits(v, start, dot, 100_000_000) {
        Some(n) => n,
        None => {
            return None;
        },
    };
    let frac_ok = match read_digits(v, frac_from, b, 0) {
        Some(_) => true,
        None => false,
    };
    if !frac_ok || (dot - start) + (b - frac_from) == 0 {
        return None;
    }
    let tenths: u128 = if b - frac_from > 0 {
        (v[frac_from] as u32 - 48) as u128
    } else {
        0
    };
    let hundredths: u128 = if b - frac_from > 1 {
        (v[frac_from + 1] as u32 - 48) as u128
    } else {
        0
    };
    let up: u128 = if b - frac_from > 2 && (v[frac_from + 2] as u32 - 48) >= 5 {
        1
    } else {
        0
    };
    proof {
        if frac.len() > 0 {
            assert(is_digit(frac[0]));
        }
        if frac.len() > 1 {
            assert(is_digit(frac[1]));
        }
        if frac.len() > 2 {
            assert(is_digit(frac[2]));
        }
        assert(tenths * 10 + hundredths + up == frac_centi(frac));
    }
    let magnitude: u128 = whole_value * 100 + tenths * 10 + hundredths + up;
    let limited: i32 = if magnitude > limit as u128 {
        limit
    } else {
        magnitude as i32
    };
    if negative {
        Some(-limited)
    } else {
        Some(limited)
    }
}

/// Tells whether `v[from..to]` is the text `word`.
fn range_is(v: &Vec<char>, from: usize, to: usize, word: &str) -> (same: bool)
    requires
        from <= to <= v@.len(),
    ensures
        same == (v@.subrange(from as int, to as int) == word@),
{
    let w = chars_of(word);
    if w.len() != to - from {
        return false;
    }
    let mut i: usize = 0;
    while i < w.len()
        invariant
            from <= to <= v@.len(),
            w@ == word@,
            w@.len() == to - from,
            i <= w@.len(),
            forall|k: int| 0 <= k < i ==> v@[from + k] == w@[k],
        decreases w@.len() - i,
    {
        if v[from + i] != w[i] {
            proof {
                let part = v@.subrange(from as int, to as int);
                assert(part[i as int] == v@[from + i]);
                if part == word@ {
                    assert(part[i as int] == w@[i as int]);
                }
            }
            return false;
        }
        i += 1;
    }
    proof {
        assert(v@.subrange(from as int, to as int) =~= w@);
    }
    true
}

/// Tells whether the text, white space at its ends aside, is `word`.
fn trimmed_is(v: &Vec<char>, word: &str) -> (same: bool)
    ensures
        same == (trim(v@) == word@),
{
    proof {
        assert(v@.subrange(0, v@.len() as int) =~= v@);
    }
    let (a, b) = trim_range(v, 0, v.len());
    range_is(v, a, b, word)
}

/// How a switch is written.
pub open spec fn flag_text(on: bool) -> Seq<char> {
    if on {
        "true"@
    } else {
        "false"@
    }
}

/// How a switch is read: it is on if the text says `true`.
pub open spec fn parse_flag(s: Seq<char>) -> bool {
    trim(s) == "true"@
}

/// What the file of a switch stands for; without a file the switch is off.
pub open spec fn flag_of_file(content: Option<Seq<char>>) -> bool {
    match content {
        Some(s) => parse_flag(s),
        None => false,
    }
}

/// The text of a switch.
pub fn format_flag(on: bool) -> (s: &'static str)
    ensures
        s@ == flag_text(on),
{
    if on {
        "true"
    } else {
        "false"
    }
}

/// Reads a switch, such as shuffle, from the content of its file;
/// `None` stands for a file that is not there.
pub fn flag_from_text(content: Option<&str>) -> (on: bool)
    ensures
        on == flag_of_file(text_of(content)),
{
    match content {
        Some(s) => {
            let v = chars_of(s);
            trimmed_is(&v, "true")
        },
        None => false,
    }
}

/// The content of a file as a text.
pub open spec fn text_of(content: Option<&str>) -> Option<Seq<char>> {
    match content {
        Some(s) => Some(s@),
        None => None,
    }
}

/// The volume in steps of 0.05 that a number of hundredths stands for:
/// limited to the scale from 0 to 2.0 and rounded to the nearest step.
pub open spec fn steps_of_centi(centi: int) -> u8 {
    if centi <= 0 {
        0u8
    } else if centi >= 200 {
        MAX_VOLUME_STEPS
    } else {
        ((2 * centi + 5) / 10) as u8
    }
}

/// How the volume is written: as a number, 1 for the volume of the recording.
pub open spec fn volume_text(steps: u8) -> Seq<char> {
    centi_text(steps as int * 5)
}

/// What the volume file stands for; without a file, or where the text is
/// no number, the volume is 1.0.
pub open spec fn volume_of_file(content: Option<Seq<char>>) -> u8 {
    match content {
        Some(s) => match parse_centi(s) {
            Some(centi) => steps_of_centi(centi),
            None => UNITY_VOLUME_STEPS,
        },
        None => UNITY_VOLUME_STEPS,
    }
}

/// The text of the volume.
pub fn format_volume(steps: u8) -> (s: String)
    ensures
        s@ == volume_text(steps),
{
    format_centi(steps as i32 * 5)
}

/// Reads the volume, in steps of 0.05, from the content of its file.
pub fn volume_from_text(content: Option<&str>) -> (steps: u8)
    ensures
        steps == volume_of_file(text_of(content)),
        steps <= MAX_VOLUME_STEPS,
{
    match content {
        Some(s) => {
            let v = chars_of(s);
            proof {
                assert(v@.subrange(0, v@.len() as int) =~= v@);
            }
            match read_centi(&v, 0, v.len(), 200) {
                Some(centi) => {
                    if centi <= 0 {
                        0
                    } else {
                        ((2 * centi + 5) / 10) as u8
                    }
                },
                None => UNITY_VOLUME_STEPS,
            }
        },
        None => UNITY_VOLUME_STEPS,
    }
}

/// How a display is written.
pub open spec fn vis_mode_text(mode: VisMode) -> Seq<char> {
    match mode {
        VisMode::Oscilloscope => "oscilloscope"@,
        VisMode::Vectorscope => "vectorscope"@,
        VisMode::Spectroscope => "spectroscope"@,
    }
}

/// What the file of the display stands for: the oscilloscope unless it names another display.
pub open spec fn vis_mode_of_file(content: Option<Seq<char>>) -> VisMode {
    match content {
        Some(s) => if trim(s) == "vectorscope"@ {
            VisMode::Vectorscope
        } else if trim(s) == "spectroscope"@ {
            VisMode::Spectroscope
        } else {
            VisMode::Oscilloscope
        },
        None => VisMode::Oscilloscope,
    }
}

/// The name under which a display is stored.
pub fn vis_mode_name(mode: VisMode) -> (s: &'static str)
    ensures
        s@ == vis_mode_text(mode),
{
    match mode {
        VisMode::Oscilloscope => "oscilloscope",
        VisMode::Vectorscope => "vectorscope",
        VisMode::Spectroscope => "spectroscope",
    }
}

/// Reads the display from the content of its file.
pub fn vis_mode_from_text(content: Option<&str>) -> (mode: VisMode)
    ensures
        mode == vis_mode_of_file(text_of(content)),
{
    match content {
        Some(s) => {
            let v = chars_of(s);
            if trimmed_is(&v, "vectorscope") {
                VisMode::Vectorscope
            } else if trimmed_is(&v, "spectroscope") {
                VisMode::Spectroscope
            } else {
                VisMode::Oscilloscope
            }
        },
        None => VisMode::Oscilloscope,
    }
}

/// How a repeat mode is written.
pub open spec fn repeat_mode_text(mode: RepeatMode) -> Seq<char> {
    match mode {
        RepeatMode::Off => "off"@,
        RepeatMode::All => "all"@,
        RepeatMode::One => "one"@,
    }
}

/// What the file of the repeat mode stands for: off unless it says `all` or `one`.
pub open spec fn repeat_mode_of_file(content: Option<Seq<char>>) -> RepeatMode {
    match content {
        Some(s) => if trim(s) == "all"@ {
            RepeatMode::All
        } else if trim(s) == "one"@ {
            RepeatMode::One
        } else {
            RepeatMode::Off
        },
        None => RepeatMode::Off,
    }
}

/// The name under which a repeat mode is stored.
pub fn repeat_mode_name(mode: RepeatMode) -> (s: &'static str)
    ensures
        s@ == repeat_mode_text(mode),
{
    match mode {
        RepeatMode::Off => "off",
        RepeatMode::All => "all",
        RepeatMode::One => "one",
    }
}

/// Reads the repeat mode from the content of its file.
pub fn repeat_mode_from_text(content: Option<&str>) -> (mode: RepeatMode)
    ensures
        mode == repeat_mode_of_file(text_of(content)),
{
    match content {
        Some(s) => {
            let v = chars_of(s);
            if trimmed_is(&v, "all") {
                RepeatMode::All
            } else if trimmed_is(&v, "one") {
                RepeatMode::One
            } else {
                RepeatMode::Off
            }
        },
        None => RepeatMode::Off,
    }
}

/// What a text reads as where a count is expected: digits, after an
/// optional plus sign and with white space around, that stand for a
/// number which a `usize` holds.
pub open spec fn parse_index(s: Seq<char>) -> Option<usize> {
    let t = trim(s);
    let body = if t.len() > 0 && t[0] == '+' {
        t.drop_first()
    } else {
        t
    };
    if body.len() > 0 && all_digits(body) && digits_value(body) <= usize::MAX {
        Some(digits_value(body) as usize)
    } else {
        None
    }
}

/// Reads `v[from..to]` as a count.
pub fn read_index(v: &Vec<char>, from: usize, to: usize) -> (r: Option<usize>)
    requires
        from <= to <= v@.len(),
    ensures
        r == parse_index(v@.subrange(from as int, to as int)),
{
    let (a, b) = trim_range(v, from, to);
    let start: usize = if a < b && v[a] == '+' {
        a + 1
    } else {
        a
    };
    proof {
        let t = v@.subrange(a as int, b as int);
        if a < b && v@[a as int] == '+' {
            assert(v@.subrange(start as int, b as int) =~= t.drop_first());
        }
    }
    if start == b {
        return None;
    }
    match read_digits(v, start, b, usize::MAX as u128 + 1) {
        Some(n) => {
            if n > usize::MAX as u128 {
                None
            } else {
                Some(n as usize)
            }
        },
        None => None,
    }
}

/// What the file of a choice among `count` items stands for: the first
/// item unless the file names another one that exists.
pub open spec fn choice_of_file(content: Option<Seq<char>>, count: usize) -> usize {
    match content {
        Some(s) => match parse_index(s) {
            Some(i) => if i < count {
                i
            } else {
                0
            },
            None => 0,
        },
        None => 0,
    }
}

/// Reads a choice among `count` items, such as the theme, from the content of its file.
pub fn choice_from_text(content: Option<&str>, count: usize) -> (index: usize)
    ensures
        index == choice_of_file(text_of(content), count),
{
    match content {
        Some(s) => {
            let v = chars_of(s);
            proof {
                assert(v@.subrange(0, v@.len() as int) =~= v@);
            }
            match read_index(&v, 0, v.len()) {
                Some(i) => if i < count {
                    i
                } else {
                    0
                },
                None => 0,
            }
        },
        None => 0,
    }
}

/// The text of a count.
pub fn format_index(index: usize) -> (s: String)
    ensures
        s@ == nat_text(index as nat),
{
    let mut s = String::new();
    push_nat(&mut s, index as u64);
    proof {
        assert(Seq::<char>::empty() + nat_text(index as nat) =~= nat_text(index as nat));
    }
    s
}

/// The settings of the equalizer as a plain value.
pub struct EqSettings {
    pub enabled: bool,
    pub preset_index: usize,
    /// The gains of the 32 bands in hundredths of a decibel.
    pub gains: Seq<i16>,
}

/// The settings that an `EqParams` holds.
pub open spec fn eq_settings(p: EqParams) -> EqSettings {
    EqSettings { enabled: p.enabled, preset_index: p.preset_index, gains: p.gains@ }
}

/// The settings without a file: enabled and flat.
pub open spec fn default_eq() -> EqSettings {
    EqSettings { enabled: true, preset_index: 0, gains: Seq::new(NUM_BANDS as nat, |i: int| 0i16) }
}

/// Gains as text, with commas between them.
pub open spec fn gains_text(gains: Seq<i16>) -> Seq<char>
    decreases gains.len(),
{
    if gains.len() == 0 {
        Seq::<char>::empty()
    } else if gains.len() == 1 {
        centi_text(gains[0] as int)
    } else {
        centi_text(gains[0] as int) + seq![','] + gains_text(gains.drop_first())
    }
}

/// How the equalizer is written: three lines, the switch, the number of
/// the preset, and the gains in decibels.
pub open spec fn eq_text(e: EqSettings) -> Seq<char> {
    flag_text(e.enabled) + seq!['\n'] + nat_text(e.preset_index as nat) + seq!['\n']
        + gains_text(e.gains)
}

/// The first line of a text.
pub open spec fn first_line(s: Seq<char>) -> Seq<char> {
    s.take(find_char(s, '\n'))
}

/// What follows the first line of a text.
pub open spec fn after_line(s: Seq<char>) -> Seq<char> {
    if find_char(s, '\n') < s.len() {
        s.skip(find_char(s, '\n') + 1)
    } else {
        Seq::<char>::empty()
    }
}

/// Field `i` of a line of fields with commas between them.
pub open spec fn nth_field(line: Seq<char>, i: nat) -> Option<Seq<char>>
    decreases i,
{
    let c = find_char(line, ',');
    if i == 0 {
        Some(line.take(c))
    } else if c < line.len() {
        nth_field(line.skip(c + 1), (i - 1) as nat)
    } else {
        None
    }
}

/// The gain that field `i` of a line stands for: the number in the
/// field, limited to 12 dB up and down, and 0 dB where there is no such
/// field or no number in it.
pub open spec fn gain_field(line: Seq<char>, i: nat) -> i16 {
    match nth_field(line, i) {
        Some(f) => match parse_centi(f) {
            Some(centi) => clamp_gain(centi),
            None => 0i16,
        },
        None => 0i16,
    }
}

/// What the content of the equalizer's file stands for. A line that is
/// missing stands for its default: enabled, the first preset, a flat
/// response.
pub open spec fn parse_eq(s: Seq<char>) -> EqSettings {
    if s.len() == 0 {
        default_eq()
    } else {
        let enabled = parse_flag(first_line(s));
        let rest = after_line(s);
        if rest.len() == 0 {
            EqSettings { enabled, ..default_eq() }
        } else {
            let preset_index = match parse_index(first_line(rest)) {
                Some(i) => i,
                None => 0,
            };
            let last = after_line(rest);
            let line = if last.len() == 0 {
                Seq::<char>::empty()
            } else {
                first_line(last)
            };
            EqSettings {
                enabled,
                preset_index,
                gains: Seq::new(NUM_BANDS as nat, |i: int| gain_field(line, i as nat)),
            }
        }
    }
}

/// What the equalizer's file stands for; without a file, the defaults.
pub open spec fn eq_of_file(content: Option<Seq<char>>) -> EqSettings {
    match content {
        Some(s) => parse_eq(s),
        None => default_eq(),
    }
}

/// The text of the equalizer's settings.
pub fn format_eq(params: &EqParams) -> (s: String)
    ensures
        s@ == eq_text(eq_settings(*params)),
{
    let mut s = String::new();
    let flag = chars_of(format_flag(params.enabled));
    push_chars(&mut s, &flag);
    push_char(&mut s, '\n');
    push_nat(&mut s, params.preset_index as u64);
    push_char(&mut s, '\n');
    let ghost head = s@;
    let ghost gains = params.gains@;
    proof {
        assert(head =~= flag_text(params.enabled) + seq!['\n'] + nat_text(
            params.preset_index as nat,
        ) + seq!['\n']);
        assert(gains.skip(NUM_BANDS as int) =~= Seq::<i16>::empty());
    }
    let mut i: usize = NUM_BANDS;
    let mut tail = String::new();
    while i > 0
        invariant
            i <= NUM_BANDS,
            gains == params.gains@,
            gains.len() == NUM_BANDS,
            tail@ == gains_text(gains.skip(i as int)),
        decreases i,
    {
        i -= 1;
        let ghost rest = gains.skip(i as int + 1);
        let ghost here = gains.skip(i as int);
        proof {
            assert(here.drop_first() =~= rest);
            assert(here[0] == gains[i as int]);
        }
        let mut piece = format_centi(params.gains[i] as i32);
        if i + 1 < NUM_BANDS {
            push_char(&mut piece, ',');
            let t = chars_of(tail.as_str());
            push_chars(&mut piece, &t);
        }
        tail = piece;
    }
    let t = chars_of(tail.as_str());
    push_chars(&mut s, &t);
    proof {
        assert(gains.skip(0) =~= gains);
    }
    s
}

/// The gain that `v[from..to]` stands for as a field of the gains line.
fn read_gain(v: &Vec<char>, from: usize, to: usize) -> (g: i16)
    requires
        from <= to <= v@.len(),
    ensures
        g == (match parse_centi(v@.subrange(from as int, to as int)) {
            Some(centi) => clamp_gain(centi),
            None => 0i16,
        }),
{
    match read_centi(v, from, to, MAX_GAIN as i32) {
        Some(centi) => centi as i16,
        None => 0,
    }
}

/// Reads the gains from the line `v[from..to]`.
fn read_gains(v: &Vec<char>, from: usize, to: usize) -> (gains: [i16; NUM_BANDS])
    requires
        from <= to <= v@.len(),
    ensures
        forall|i: int|
            0 <= i < NUM_BANDS ==> #[trigger] gains@[i] == gain_field(
                v@.subrange(from as int, to as int),
                i as nat,
            ),
        forall|i: int| 0 <= i < NUM_BANDS ==> -MAX_GAIN <= #[trigger] gains@[i] <= MAX_GAIN,
{
    let ghost line = v@.subrange(from as int, to as int);
    let mut gains: [i16; NUM_BANDS] = PRESET_FLAT;
    let mut at: usize = from;
    let mut i: usize = 0;
    let mut open: bool = true;
    while i < NUM_BANDS
        invariant
            from <= at <= to <= v@.len(),
            i <= NUM_BANDS,
            line == v@.subrange(from as int, to as int),
            forall|k: int| 0 <= k < i ==> #[trigger] gains@[k] == gain_field(line, k as nat),
            forall|k: int| i <= k < NUM_BANDS ==> #[trigger] gains@[k] == 0,
            open ==> forall|k: nat| #[trigger]
                nth_field(line, i as nat + k) == nth_field(v@.subrange(at as int, to as int), k),
            !open ==> forall|k: nat| (#[trigger] nth_field(line, i as nat + k)) is None,
        decreases NUM_BANDS - i,
    {
        if open {
            let ghost here = v@.subrange(at as int, to as int);
            let comma = find_in(v, at, to, ',');
            proof {
                assert(here.take(comma - at) =~= v@.subrange(at as int, comma as int));
                assert(nth_field(line, i as nat + 0) == nth_field(here, 0));
            }
            let g = read_gain(v, at, comma);
            gains[i] = g;
            if comma < to {
                proof {
                    assert(here.skip(comma - at + 1) =~= v@.subrange(comma as int + 1, to as int));
                    assert forall|k: nat| #[trigger]
                        nth_field(line, (i + 1) as nat + k) == nth_field(
                            v@.subrange(comma as int + 1, to as int),
                            k,
                        ) by {
                        assert(nth_field(line, i as nat + (k + 1)) == nth_field(here, k + 1));
                    }
                }
                at = comma + 1;
            } else {
                proof {
                    assert forall|k: nat| (#[trigger] nth_field(line, (i + 1) as nat + k)) is None by {
                        assert(nth_field(line, i as nat + (k + 1)) == nth_field(here, k + 1));
                    }
                }
                open = false;
            }
        } else {
            proof {
                assert(nth_field(line, i as nat + 0) is None);
                assert forall|k: nat| (#[trigger] nth_field(line, (i + 1) as nat + k)) is None by {
                    assert(nth_field(line, i as nat + (k + 1)) is None);
                }
            }
        }
        i += 1;
    }
    gains
}

/// The bounds of the first line of `v[from..]`: where it ends, and where the next line starts.
fn line_bounds(v: &Vec<char>, from: usize) -> (r: (usize, usize))
    requires
        from <= v@.len(),
    ensures
        from <= r.0 <= r.1 <= v@.len(),
        v@.subrange(from as int, r.0 as int) == first_line(
            v@.subrange(from as int, v@.len() as int),
        ),
        v@.subrange(r.1 as int, v@.len() as int) == after_line(
            v@.subrange(from as int, v@.len() as int),
        ),
{
    let n = v.len();
    let ghost s = v@.subrange(from as int, n as int);
    let end = find_in(v, from, n, '\n');
    let next: usize = if end < n {
        end + 1
    } else {
        n
    };
    proof {
        assert(v@.subrange(from as int, end as int) =~= s.take(end - from));
        if end < n {
            assert(v@.subrange(next as int, n as int) =~= s.skip(end - from + 1));
        } else {
            assert(v@.subrange(next as int, n as int) =~= Seq::<char>::empty());
        }
    }
    (end, next)
}

/// Reads the settings of the equalizer from the characters of its file.
fn read_eq(v: &Vec<char>) -> (params: EqParams)
    ensures
        eq_settings(params) == parse_eq(v@),
        params.in_range(),
{
    let n = v.len();
    proof {
        assert(v@.subrange(0, n as int) =~= v@);
    }
    if n == 0 {
        let params = EqParams::default();
        proof {
            assert(params.gains@ =~= default_eq().gains);
        }
        return params;
    }
    let (end1, start2) = line_bounds(v, 0);
    let (a, b) = trim_range(v, 0, end1);
    let enabled = range_is(v, a, b, "true");
    if start2 == n {
        let params = EqParams { enabled, ..EqParams::default() };
        proof {
            assert(v@.subrange(n as int, n as int).len() == 0);
            assert(params.gains@ =~= default_eq().gains);
        }
        return params;
    }
    let (end2, start3) = line_bounds(v, start2);
    let preset_index = match read_index(v, start2, end2) {
        Some(i) => i,
        None => 0,
    };
    let end3 = if start3 == n {
        n
    } else {
        line_bounds(v, start3).0
    };
    let gains = read_gains(v, start3, end3);
    let params = EqParams { enabled, gains, preset_index };
    proof {
        let rest = after_line(v@);
        let last = after_line(rest);
        let line = v@.subrange(start3 as int, end3 as int);
        assert(rest.len() == n - start2);
        assert(last.len() == n - start3);
        if start3 == n {
            assert(line =~= Seq::<char>::empty());
        }
        assert(params.gains@ =~= Seq::new(NUM_BANDS as nat, |i: int| gain_field(line, i as nat)));
    }
    params
}

/// Reads the settings of the equalizer from the content of its file.
/// Whatever the file holds, the gains are within 12 dB up and down.
pub fn eq_from_text(content: Option<&str>) -> (params: EqParams)
    ensures
        eq_settings(params) == eq_of_file(text_of(content)),
        params.in_range(),
{
    match content {
        Some(text) => {
            let v = chars_of(text);
            read_eq(&v)
        },
        None => {
            let params = EqParams::default();
            proof {
                assert(params.gains@ =~= default_eq().gains);
            }
            params
        },
    }
}

/// True if `c` may occur in a number as it is written: a digit, the sign or the point.
pub open spec fn is_number_char(c: char) -> bool {
    is_digit(c) || c == '-' || c == '.'
}

/// A written number consists of digits, the sign and the point, and is not empty.
proof fn lemma_centi_chars(v: int)
    ensures
        centi_text(v).len() > 0,
        forall|i: int| 0 <= i < centi_text(v).len() ==> is_number_char(#[trigger] centi_text(v)[i]),
{
    let a = if v < 0 {
        -v
    } else {
        v
    };
    lemma_nat_text((a / 100) as nat);
    let whole = nat_text((a / 100) as nat);
    let s = centi_text(v);
    let sign_len: int = if v < 0 {
        1
    } else {
        0
    };
    assert forall|i: int| 0 <= i < s.len() implies is_number_char(#[trigger] s[i]) by {
        if i < sign_len {
        } else if i < sign_len + whole.len() {
            assert(s[i] == whole[i - sign_len]);
            assert(is_digit(whole[i - sign_len]));
        } else {
        }
    }
}

/// A text without `c` has its first line, or field, end at its own end.
proof fn lemma_find_char_absent(s: Seq<char>, c: char)
    requires
        forall|i: int| 0 <= i < s.len() ==> s[i] != c,
    ensures
        find_char(s, c) == s.len(),
{
    lemma_find_char_is(s, c, s.len() as int);
}

/// In `head + [c] + tail`, where `head` is without `c`, the first `c` is the one in the middle.
proof fn lemma_find_char_split(head: Seq<char>, c: char, tail: Seq<char>)
    requires
        forall|i: int| 0 <= i < head.len() ==> head[i] != c,
    ensures
        find_char(head + seq![c] + tail, c) == head.len(),
        (head + seq![c] + tail).take(head.len() as int) == head,
        (head + seq![c] + tail).skip(head.len() as int + 1) == tail,
{
    let s = head + seq![c] + tail;
    assert forall|i: int| 0 <= i < head.len() implies s[i] != c by {
        assert(s[i] == head[i]);
    }
    assert(s[head.len() as int] == c);
    lemma_find_char_is(s, c, head.len() as int);
    assert(s.take(head.len() as int) =~= head);
    assert(s.skip(head.len() as int + 1) =~= tail);
}

/// The gains are written without a line break.
proof fn lemma_gains_text_chars(gains: Seq<i16>)
    ensures
        forall|i: int|
            0 <= i < gains_text(gains).len() ==> {
                let c = #[trigger] gains_text(gains)[i];
                is_number_char(c) || c == ','
            },
    decreases gains.len(),
{
    if gains.len() == 0 {
    } else if gains.len() == 1 {
        lemma_centi_chars(gains[0] as int);
    } else {
        lemma_centi_chars(gains[0] as int);
        lemma_gains_text_chars(gains.drop_first());
        let first = centi_text(gains[0] as int);
        let rest = gains_text(gains.drop_first());
        let s = gains_text(gains);
        assert(s == first + seq![','] + rest);
        assert forall|i: int| 0 <= i < s.len() implies {
            let c = #[trigger] s[i];
            is_number_char(c) || c == ','
        } by {
            if i < first.len() {
                assert(s[i] == first[i]);
            } else if i == first.len() {
            } else {
                assert(s[i] == rest[i - first.len() - 1]);
            }
        }
    }
}

/// Field `i` of the written gains is gain `i` as it is written.
proof fn lemma_field_of_gains(gains: Seq<i16>, i: nat)
    requires
        i < gains.len(),
    ensures
        nth_field(gains_text(gains), i) == Some(centi_text(gains[i as int] as int)),
    decreases i,
{
    let first = centi_text(gains[0] as int);
    lemma_centi_chars(gains[0] as int);
    assert forall|k: int| 0 <= k < first.len() implies first[k] != ',' by {
        assert(is_number_char(first[k]));
    }
    if gains.len() == 1 {
        lemma_find_char_absent(first, ',');
        assert(first.take(first.len() as int) =~= first);
    } else {
        let rest = gains_text(gains.drop_first());
        lemma_find_char_split(first, ',', rest);
        if i > 0 {
            lemma_field_of_gains(gains.drop_first(), (i - 1) as nat);
        }
    }
}

/// A switch that is written and read back is the switch.
pub proof fn lemma_flag_round_trip(on: bool)
    ensures
        parse_flag(flag_text(on)) == on,
        flag_of_file(Some(flag_text(on))) == on,
{
    reveal_strlit("true");
    reveal_strlit("false");
    lemma_trim_is_identity(flag_text(on));
    if !on {
        assert("false"@.len() != "true"@.len());
    }
}

/// A volume that is written and read back is the volume.
pub proof fn lemma_volume_round_trip(steps: u8)
    requires
        steps <= MAX_VOLUME_STEPS,
    ensures
        volume_of_file(Some(volume_text(steps))) == steps,
{
    lemma_centi_round_trip(steps as int * 5);
}

/// A display that is written and read back is the display.
pub proof fn lemma_vis_mode_round_trip(mode: VisMode)
    ensures
        vis_mode_of_file(Some(vis_mode_text(mode))) == mode,
{
    reveal_strlit("oscilloscope");
    reveal_strlit("vectorscope");
    reveal_strlit("spectroscope");
    lemma_trim_is_identity(vis_mode_text(mode));
    assert("oscilloscope"@[0] != "vectorscope"@[0]);
    assert("oscilloscope"@[0] != "spectroscope"@[0]);
    assert("spectroscope"@[0] != "vectorscope"@[0]);
}

/// A repeat mode that is written and read back is the repeat mode.
pub proof fn lemma_repeat_mode_round_trip(mode: RepeatMode)
    ensures
        repeat_mode_of_file(Some(repeat_mode_text(mode))) == mode,
{
    reveal_strlit("off");
    reveal_strlit("all");
    reveal_strlit("one");
    lemma_trim_is_identity(repeat_mode_text(mode));
    assert("off"@[1] != "all"@[1]);
    assert("off"@[1] != "one"@[1]);
    assert("all"@[0] != "one"@[0]);
}

/// A count that is written and read back is the count.
pub proof fn lemma_index_round_trip(index: usize)
    ensures
        parse_index(nat_text(index as nat)) == Some(index),
{
    lemma_nat_text(index as nat);
    let s = nat_text(index as nat);
    assert(is_digit(s[0]));
    assert(is_digit(s.last()));
    lemma_trim_is_identity(s);
}

/// A choice that is written and read back is the choice.
pub proof fn lemma_choice_round_trip(index: usize, count: usize)
    requires
        index < count,
    ensures
        choice_of_file(Some(nat_text(index as nat)), count) == index,
{
    lemma_index_round_trip(index);
}

/// The settings of the equalizer that are written and read back are the
/// settings: the switch, the preset and every gain, as long as the gains
/// are within 12 dB up and down, where reading limits them.
pub proof fn lemma_eq_round_trip(e: EqSettings)
    requires
        e.gains.len() == NUM_BANDS,
        forall|i: int| 0 <= i < NUM_BANDS ==> -MAX_GAIN <= #[trigger] e.gains[i] <= MAX_GAIN,
    ensures
        parse_eq(eq_text(e)).enabled == e.enabled,
        parse_eq(eq_text(e)).preset_index == e.preset_index,
        parse_eq(eq_text(e)).gains =~= e.gains,
        parse_eq(eq_text(e)) == e,
        eq_of_file(Some(eq_text(e))) == e,
{
    reveal_strlit("true");
    reveal_strlit("false");
    let flag = flag_text(e.enabled);
    let index = nat_text(e.preset_index as nat);
    let gains = gains_text(e.gains);
    let rest = index + seq!['\n'] + gains;
    let s = eq_text(e);
    assert(s =~= flag + seq!['\n'] + rest);
    lemma_find_char_split(flag, '\n', rest);
    assert(first_line(s) == flag);
    assert(after_line(s) == rest);
    lemma_flag_round_trip(e.enabled);
    lemma_nat_text(e.preset_index as nat);
    assert forall|i: int| 0 <= i < index.len() implies index[i] != '\n' by {
        assert(is_digit(index[i]));
    }
    lemma_find_char_split(index, '\n', gains);
    assert(first_line(rest) == index);
    assert(after_line(rest) == gains);
    lemma_index_round_trip(e.preset_index);
    lemma_gains_text_chars(e.gains);
    assert forall|i: int| 0 <= i < gains.len() implies gains[i] != '\n' by {
        let c = gains[i];
        assert(is_number_char(c) || c == ',');
    }
    lemma_find_char_absent(gains, '\n');
    assert(gains.take(gains.len() as int) =~= gains);
    lemma_centi_chars(e.gains[0] as int);
    lemma_field_of_gains(e.gains, 0);
    assert(gains.len() > 0) by {
        lemma_find_char_bounds(gains, ',');
    }
    assert(first_line(gains) == gains);
    let read = parse_eq(s);
    assert forall|i: int| 0 <= i < NUM_BANDS implies read.gains[i] == e.gains[i] by {
        lemma_field_of_gains(e.gains, i as nat);
        lemma_centi_round_trip(e.gains[i] as int);
    }
    assert(read.gains =~= e.gains);
    assert(read.enabled == e.enabled);
    assert(read.preset_index == e.preset_index);
}

/// Persisting the settings and loading them again gives the settings
/// that were there: the volume, shuffle, the repeat mode, the display,
/// and the equalizer with its switch, its preset and its gains to two
/// decimals.
pub proof fn lemma_settings_round_trip(
    volume: u8,
    shuffle: bool,
    repeat: RepeatMode,
    display: VisMode,
    equalizer: EqParams,
)
    requires
        volume <= MAX_VOLUME_STEPS,
        equalizer.in_range(),
    ensures
        volume_of_file(Some(volume_text(volume))) == volume,
        flag_of_file(Some(flag_text(shuffle))) == shuffle,
        repeat_mode_of_file(Some(repeat_mode_text(repeat))) == repeat,
        vis_mode_of_file(Some(vis_mode_text(display))) == display,
        eq_of_file(Some(eq_text(eq_settings(equalizer)))) == eq_settings(equalizer),
{
    lemma_volume_round_trip(volume);
    lemma_flag_round_trip(shuffle);
    lemma_repeat_mode_round_trip(repeat);
    lemma_vis_mode_round_trip(display);
    lemma_eq_round_trip(eq_settings(equalizer));
}

} // verus!
