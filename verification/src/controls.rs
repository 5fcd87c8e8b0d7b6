//! The line of key hints at the bottom of the screen: which hints are
//! shown, and how they are broken into lines.

use vstd::prelude::*;
use crate::text::{chars_of, push_chars};

verus! {

/// How a piece of the hints is shown.
#[derive(Clone, Copy, PartialEq, Eq, Structural, Debug)]
pub enum SpanStyle {
    /// The name of a key: dark on a bright ground.
    Key,
    /// What the key does.
    Plain,
    /// A setting that is switched on.
    Active,
    /// A setting that is switched off.
    Inactive,
}

/// One piece of the hints.
#[derive(Clone, Debug)]
pub struct ControlSpan {
    pub text: String,
    pub style: SpanStyle,
}

/// A hint as a plain value: the key, what it does, and how that is shown.
pub struct Hint {
    pub key: Seq<char>,
    pub label: Seq<char>,
    pub style: SpanStyle,
}

/// The style of a setting.
pub open spec fn setting_style(on: bool) -> SpanStyle {
    if on {
        SpanStyle::Active
    } else {
        SpanStyle::Inactive
    }
}

/// The hints that are always shown first.
pub open spec fn leading_hints() -> Seq<Hint> {
    seq![
        Hint { key: " Space "@, label: " Play/Pause  "@, style: SpanStyle::Plain },
        Hint { key: " \u{2190}/\u{2192} "@, label: " Seek \u{b1}5s  "@, style: SpanStyle::Plain },
        Hint { key: " \u{2191}/\u{2193} "@, label: " Volume  "@, style: SpanStyle::Plain },
    ]
}

/// The hint for the display, shown where there is a display.
pub open spec fn display_hints(show_visualizer: bool) -> Seq<Hint> {
    if show_visualizer {
        seq![Hint { key: " v "@, label: " Vis Mode  "@, style: SpanStyle::Plain }]
    } else {
        Seq::<Hint>::empty()
    }
}

/// The hints for lyrics and equalizer.
pub open spec fn panel_hints() -> Seq<Hint> {
    seq![
        Hint { key: " l "@, label: " Lyrics  "@, style: SpanStyle::Plain },
        Hint { key: " e "@, label: " EQ  "@, style: SpanStyle::Plain },
    ]
}

/// The hints for moving through a list of tracks, shown where there is one.
pub open spec fn browser_hints(
    has_browser: bool,
    shuffle: bool,
    repeat_label: Seq<char>,
    crossfade_label: Seq<char>,
) -> Seq<Hint> {
    if has_browser {
        seq![
            Hint { key: " n/N "@, label: " Next/Prev  "@, style: SpanStyle::Plain },
            Hint {
                key: " s "@,
                label: if shuffle {
                    " Shuffle On  "@
                } else {
                    " Shuffle Off  "@
                },
                style: setting_style(shuffle),
            },
            Hint {
                key: " r "@,
                label: " "@ + repeat_label + "  "@,
                style: setting_style(repeat_label != "Repeat Off"@),
            },
            Hint {
                key: " c "@,
                label: " Crossfade "@ + crossfade_label + "  "@,
                style: setting_style(crossfade_label != "Off"@),
            },
            Hint { key: " f "@, label: " Files  "@, style: SpanStyle::Plain },
        ]
    } else {
        Seq::<Hint>::empty()
    }
}

/// The hints that are always shown last.
pub open spec fn trailing_hints() -> Seq<Hint> {
    seq![
        Hint { key: " x "@, label: " Clear Cache  "@, style: SpanStyle::Plain },
        Hint { key: " q "@, label: " Quit"@, style: SpanStyle::Plain },
    ]
}

/// All hints, in the order in which they are shown.
pub open spec fn control_hints(
    show_visualizer: bool,
    has_browser: bool,
    shuffle: bool,
    repeat_label: Seq<char>,
    crossfade_label: Seq<char>,
) -> Seq<Hint> {
    leading_hints() + display_hints(show_visualizer) + panel_hints() + browser_hints(
        has_browser,
        shuffle,
        repeat_label,
        crossfade_label,
    ) + trailing_hints()
}

/// True if `spans` shows `hints`: for every hint its key and then its label.
pub open spec fn shows(spans: Seq<ControlSpan>, hints: Seq<Hint>) -> bool {
    &&& spans.len() == 2 * hints.len()
    &&& forall|i: int|
        0 <= i < hints.len() ==> {
            &&& (#[trigger] spans[2 * i]).text@ == hints[i].key
            &&& spans[2 * i].style == SpanStyle::Key
            &&& spans[2 * i + 1].text@ == hints[i].label
            &&& spans[2 * i + 1].style == hints[i].style
        }
}

/// Appends a hint to the spans.
fn push_hint(spans: &mut Vec<ControlSpan>, key: &str, label: String, style: SpanStyle)
    ensures
        final(spans)@.len() == old(spans)@.len() + 2,
        forall|i: int| 0 <= i < old(spans)@.len() ==> final(spans)@[i] == old(spans)@[i],
        final(spans)@[old(spans)@.len() as int].text@ == key@,
        final(spans)@[old(spans)@.len() as int].style == SpanStyle::Key,
        final(spans)@[old(spans)@.len() as int + 1].text@ == label@,
        final(spans)@[old(spans)@.len() as int + 1].style == style,
{
    spans.push(ControlSpan { text: key.to_owned(), style: SpanStyle::Key });
    spans.push(ControlSpan { text: label, style });
}

/// The text `head`, then `middle`, then two blanks.
fn framed(head: &str, middle: &str) -> (s: String)
    ensures
        s@ == head@ + middle@ + "  "@,
{
    let mut s = head.to_owned();
    let m = chars_of(middle);
    push_chars(&mut s, &m);
    let t = chars_of("  ");
    push_chars(&mut s, &t);
    s
}

/// The pieces of the hints, in the order in which they are shown: a key
/// and what it does, for every hint.
pub fn build_control_spans(
    show_visualizer: bool,
    has_browser: bool,
    shuffle: bool,
    repeat_label: &str,
    crossfade_label: &str,
) -> (spans: Vec<ControlSpan>)
    ensures
        shows(
            spans@,
            control_hints(show_visualizer, has_browser, shuffle, repeat_label@, crossfade_label@),
        ),
{
    let mut spans: Vec<ControlSpan> = Vec::new();
    push_hint(&mut spans, " Space ", " Play/Pause  ".to_owned(), SpanStyle::Plain);
    push_hint(&mut spans, " \u{2190}/\u{2192} ", " Seek \u{b1}5s  ".to_owned(), SpanStyle::Plain);
    push_hint(&mut spans, " \u{2191}/\u{2193} ", " Volume  ".to_owned(), SpanStyle::Plain);
    if show_visualizer {
        push_hint(&mut spans, " v ", " Vis Mode  ".to_owned(), SpanStyle::Plain);
    }
    push_hint(&mut spans, " l ", " Lyrics  ".to_owned(), SpanStyle::Plain);
    push_hint(&mut spans, " e ", " EQ  ".to_owned(), SpanStyle::Plain);
    if has_browser {
        push_hint(&mut spans, " n/N ", " Next/Prev  ".to_owned(), SpanStyle::Plain);
        if shuffle {
            push_hint(&mut spans, " s ", " Shuffle On  ".to_owned(), SpanStyle::Active);
        } else {
            push_hint(&mut spans, " s ", " Shuffle Off  ".to_owned(), SpanStyle::Inactive);
        }
        let repeat_on = !same_text(repeat_label, "Repeat Off");
        push_hint(
            &mut spans,
            " r ",
            framed(" ", repeat_label),
            if repeat_on {
                SpanStyle::Active
            } else {
                SpanStyle::Inactive
            },
        );
        let crossfade_on = !same_text(crossfade_label, "Off");
        push_hint(
            &mut spans,
            " c ",
            framed(" Crossfade ", crossfade_label),
            if crossfade_on {
                SpanStyle::Active
            } else {
                SpanStyle::Inactive
            },
        );
        push_hint(&mut spans, " f ", " Files  ".to_owned(), SpanStyle::Plain);
    }
    push_hint(&mut spans, " x ", " Clear Cache  ".to_owned(), SpanStyle::Plain);
    push_hint(&mut spans, " q ", " Quit".to_owned(), SpanStyle::Plain);
    spans
}

/// Tells whether two texts are the same.
fn same_text(a: &str, b: &str) -> (same: bool)
    ensures
        same == (a@ == b@),
{
    let x = a.to_owned();
    let y = b.to_owned();
    x == y
}

/// The width of a text on the screen in columns, as `Span::width` of
/// ratatui tells it.
pub uninterp spec fn display_width(text: Seq<char>) -> nat;

/// Calls `Span::width` of ratatui on a span with this text. Trusted: the
/// width is a function of the text alone, which `display_width` names.
#[verifier::external_body]
fn width_of(text: &str) -> (w: usize)
    ensures
        w == display_width(text@),
{
    ratatui::text::Span::raw(text).width()
}

/// The widths of the hints: for every hint the width of its key plus that of its label.
pub open spec fn hint_widths(hints: Seq<Hint>) -> Seq<nat> {
    Seq::new(hints.len(), |i: int| display_width(hints[i].key) + display_width(hints[i].label))
}

/// Lines in the making: the sizes of the lines that are full, and the
/// size and the width of the line that is still open.
pub struct Wrap {
    pub full: Seq<nat>,
    pub open_size: nat,
    pub open_width: nat,
}

/// The lines after one more hint of width `w`: it goes on the open
/// line if it fits there, or if that line is empty; else the open line is
/// closed and the hint starts a new one.
pub open spec fn wrap_step(state: Wrap, w: nat, inner_w: nat) -> Wrap {
    if state.open_width + w > inner_w && state.open_width > 0 {
        Wrap { full: state.full.push(state.open_size), open_size: 1, open_width: w }
    } else {
        Wrap { open_size: state.open_size + 1, open_width: state.open_width + w, ..state }
    }
}

/// The lines after all hints of the given widths.
pub open spec fn wrap_state(widths: Seq<nat>, inner_w: nat) -> Wrap
    decreases widths.len(),
{
    if widths.len() == 0 {
        Wrap { full: Seq::<nat>::empty(), open_size: 0, open_width: 0 }
    } else {
        wrap_step(wrap_state(widths.drop_last(), inner_w), widths.last(), inner_w)
    }
}

/// The number of hints on every line, when hints of the given widths
/// are set on lines `inner_w` columns wide. A hint is never broken. In
/// no width at all, everything stands on one line.
pub open spec fn line_sizes(widths: Seq<nat>, inner_w: nat) -> Seq<nat> {
    if inner_w == 0 {
        seq![widths.len()]
    } else if widths.len() == 0 {
        Seq::<nat>::empty()
    } else {
        wrap_state(widths, inner_w).full.push(wrap_state(widths, inner_w).open_size)
    }
}

/// The widths as numbers.
pub open spec fn as_nats(widths: Seq<usize>) -> Seq<nat> {
    Seq::new(widths.len(), |i: int| widths[i] as nat)
}

/// The sizes as numbers.
pub open spec fn sizes_of(lines: Seq<usize>) -> Seq<nat> {
    Seq::new(lines.len(), |i: int| lines[i] as nat)
}

/// Sets hints of the given widths on lines `inner_w` columns wide, and
/// tells how many hints stand on each line.
pub fn wrap_lines(widths: &Vec<usize>, inner_w: usize) -> (lines: Vec<usize>)
    ensures
        sizes_of(lines@) == line_sizes(as_nats(widths@), inner_w as nat),
        lines@.len() <= widths@.len() || lines@.len() == 1,
{
    let ghost all = as_nats(widths@);
    let mut lines: Vec<usize> = Vec::new();
    if inner_w == 0 {
        lines.push(widths.len());
        proof {
            assert(sizes_of(lines@) =~= seq![all.len()]);
        }
        return lines;
    }
    let mut open_size: usize = 0;
    let mut open_width: u128 = 0;
    let mut i: usize = 0;
    proof {
        assert(all.take(0) =~= Seq::<nat>::empty());
        assert(sizes_of(lines@) =~= Seq::<nat>::empty());
    }
    while i < widths.len()
        invariant
            i <= widths@.len(),
            inner_w > 0,
            all == as_nats(widths@),
            sizes_of(lines@) == wrap_state(all.take(i as int), inner_w as nat).full,
            open_size == wrap_state(all.take(i as int), inner_w as nat).open_size,
            open_width == wrap_state(all.take(i as int), inner_w as nat).open_width,
            open_size <= i,
            lines@.len() + (if open_size > 0 { 1int } else { 0int }) <= i,
            i > 0 ==> open_size > 0,
            open_width <= i * 0x1_0000_0000_0000_0000,
        decreases widths@.len() - i,
    {
        let w = widths[i];
        proof {
            assert(all.take(i as int + 1).drop_last() =~= all.take(i as int));
            assert(all.take(i as int + 1).last() == w as nat);
        }
        let ghost before = lines@;
        if open_width + w as u128 > inner_w as u128 && open_width > 0 {
            lines.push(open_size);
            proof {
                assert(sizes_of(lines@) =~= sizes_of(before).push(open_size as nat));
            }
            open_size = 1;
            open_width = w as u128;
        } else {
            open_size = open_size + 1;
            open_width = open_width + w as u128;
        }
        i += 1;
    }
    proof {
        assert(all.take(widths@.len() as int) =~= all);
    }
    if open_size > 0 {
        let ghost before = lines@;
        lines.push(open_size);
        proof {
            assert(sizes_of(lines@) =~= sizes_of(before).push(open_size as nat));
        }
    }
    lines
}

/// The widths of the hints that the spans show.
pub fn group_widths(spans: &Vec<ControlSpan>) -> (widths: Vec<usize>)
    ensures
        widths@.len() == spans@.len() / 2,
        forall|i: int|
            0 <= i < widths@.len() ==> #[trigger] widths@[i] as nat == saturated(
                display_width(spans@[2 * i].text@) + display_width(spans@[2 * i + 1].text@),
            ),
{
    let mut widths: Vec<usize> = Vec::new();
    let mut i: usize = 0;
    while i + 1 < spans.len()
        invariant
            i % 2 == 0,
            i <= spans@.len(),
            widths@.len() == i / 2,
            forall|k: int|
                0 <= k < widths@.len() ==> #[trigger] widths@[k] as nat == saturated(
                    display_width(spans@[2 * k].text@) + display_width(spans@[2 * k + 1].text@),
                ),
        decreases spans@.len() - i,
    {
        let key = width_of(spans[i].text.as_str());
        let label = width_of(spans[i + 1].text.as_str());
        widths.push(key.saturating_add(label));
        i += 2;
    }
    widths
}

/// A width limited to what a `usize` holds.
pub open spec fn saturated(w: nat) -> nat {
    if w > usize::MAX {
        usize::MAX as nat
    } else {
        w
    }
}

/// The widths of hints, each limited to what a `usize` holds.
pub open spec fn saturated_widths(hints: Seq<Hint>) -> Seq<nat> {
    Seq::new(hints.len(), |i: int| saturated(hint_widths(hints)[i]))
}

/// The lines that are full never outnumber the hints before the last,
/// and once a hint is set a line is open.
proof fn lemma_wrap_count(widths: Seq<nat>, inner_w: nat)
    ensures
        widths.len() > 0 ==> wrap_state(widths, inner_w).full.len() < widths.len(),
        widths.len() > 0 ==> wrap_state(widths, inner_w).open_size > 0,
        widths.len() == 0 ==> wrap_state(widths, inner_w).full.len() == 0,
    decreases widths.len(),
{
    if widths.len() > 0 {
        lemma_wrap_count(widths.drop_last(), inner_w);
    }
}

/// On wider lines the hints are never further along: fewer lines are
/// full, or as many and the open line is no longer.
proof fn lemma_wrap_order(widths: Seq<nat>, narrow: nat, wide: nat)
    requires
        narrow <= wide,
    ensures
        ({
            let a = wrap_state(widths, narrow);
            let b = wrap_state(widths, wide);
            b.full.len() < a.full.len() || (b.full.len() == a.full.len() && b.open_width
                <= a.open_width)
        }),
    decreases widths.len(),
{
    if widths.len() > 0 {
        lemma_wrap_order(widths.drop_last(), narrow, wide);
    }
}

/// Hints stand on at least one line, and on no more lines than there
/// are hints.
pub proof fn lemma_line_count(widths: Seq<nat>, inner_w: nat)
    requires
        widths.len() > 0,
    ensures
        1 <= line_sizes(widths, inner_w).len() <= widths.len(),
{
    lemma_wrap_count(widths, inner_w);
}

/// Wider lines take no more of them: on lines of at least one column,
/// the hints stand on no more lines when the lines are wider.
pub proof fn lemma_wider_takes_no_more_lines(widths: Seq<nat>, narrow: nat, wide: nat)
    requires
        1 <= narrow <= wide,
    ensures
        line_sizes(widths, wide).len() <= line_sizes(widths, narrow).len(),
{
    lemma_wrap_order(widths, narrow, wide);
}

/// The columns within the border of a box `width` columns wide.
pub open spec fn inner_width(width: u16) -> nat {
    if width >= 2 {
        (width - 2) as nat
    } else {
        0
    }
}

/// The height of the hints in a box `width` columns wide: the lines
/// that the hints take within the border, and two more for the border.
pub open spec fn spec_controls_height(
    width: u16,
    show_visualizer: bool,
    has_browser: bool,
    shuffle: bool,
    repeat_label: Seq<char>,
    crossfade_label: Seq<char>,
) -> nat {
    line_sizes(
        saturated_widths(
            control_hints(show_visualizer, has_browser, shuffle, repeat_label, crossfade_label),
        ),
        inner_width(width),
    ).len() + 2
}

/// The box of the hints is at least three rows high, one line within
/// the border, and never higher than one line for each hint. In a box
/// of at least three columns, it is no higher when the box is wider.
pub proof fn lemma_controls_height_bounds(
    narrow: u16,
    wide: u16,
    show_visualizer: bool,
    has_browser: bool,
    shuffle: bool,
    repeat_label: Seq<char>,
    crossfade_label: Seq<char>,
)
    requires
        narrow <= wide,
    ensures
        3 <= spec_controls_height(
            wide,
            show_visualizer,
            has_browser,
            shuffle,
            repeat_label,
            crossfade_label,
        ) <= control_hints(
            show_visualizer,
            has_browser,
            shuffle,
            repeat_label,
            crossfade_label,
        ).len() + 2 <= 15,
        3 <= narrow ==> spec_controls_height(
            wide,
            show_visualizer,
            has_browser,
            shuffle,
            repeat_label,
            crossfade_label,
        ) <= spec_controls_height(
            narrow,
            show_visualizer,
            has_browser,
            shuffle,
            repeat_label,
            crossfade_label,
        ),
{
    let hints = control_hints(show_visualizer, has_browser, shuffle, repeat_label, crossfade_label);
    let widths = saturated_widths(hints);
    assert(2 <= hints.len() <= 13);
    lemma_line_count(widths, inner_width(wide));
    if 3 <= narrow {
        lemma_wider_takes_no_more_lines(widths, inner_width(narrow), inner_width(wide));
    }
}

/// The height of the hints in a box `width` columns wide: the lines
/// that the hints take within the border, and two more for the border.
pub fn controls_height(
    width: u16,
    show_visualizer: bool,
    has_browser: bool,
    shuffle: bool,
    repeat_label: &str,
    crossfade_label: &str,
) -> (height: u16)
    ensures
        height == spec_controls_height(
            width,
            show_visualizer,
            has_browser,
            shuffle,
            repeat_label@,
            crossfade_label@,
        ),
{
    let spans = build_control_spans(
        show_visualizer,
        has_browser,
        shuffle,
        repeat_label,
        crossfade_label,
    );
    let ghost hints = control_hints(
        show_visualizer,
        has_browser,
        shuffle,
        repeat_label@,
        crossfade_label@,
    );
    let inner_w: usize = if width >= 2 {
        (width - 2) as usize
    } else {
        0
    };
    let widths = group_widths(&spans);
    proof {
        assert(hints.len() <= 13);
        assert(as_nats(widths@) =~= saturated_widths(hints));
    }
    let lines = wrap_lines(&widths, inner_w);
    proof {
        assert(sizes_of(lines@).len() == lines@.len());
    }
    (lines.len() + 2) as u16
}

} // verus!
