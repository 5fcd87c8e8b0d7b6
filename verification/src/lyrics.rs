//! Lyrics: the query that is sent for a track, and the text that is
//! taken from the pages that come back.

use vstd::prelude::*;
use vstd::string::StringSliceAdditionalSpecFns;
use serde_json::Value;
use crate::file_browser::path_file_name;
use crate::meta::{opt_text, TrackMeta};
use crate::text::{
    char_from_u32, chars_of, find_from, find_sub, is_first_occurrence, is_scalar_value,
    occurs_at, push_char, push_chars, starts_with_at, string_of, trim, trim_range,
};

verus! {

/// Lyrics as they were found.
#[derive(Clone, Debug)]
pub struct LyricsResult {
    pub text: String,
    /// The page that the lyrics come from.
    pub url: String,
    /// The cover of the song, where the page names one.
    pub art_url: Option<String>,
}

/// True if a byte stands for itself in a URL: letters, digits, `-`, `_`, `.` and `~`.
pub open spec fn is_unreserved(b: u8) -> bool {
    (0x41 <= b && b <= 0x5A) || (0x61 <= b && b <= 0x7A) || (0x30 <= b && b <= 0x39) || b == 0x2D
        || b == 0x5F || b == 0x2E || b == 0x7E
}

/// The upper-case hexadecimal digit of a value from 0 to 15.
pub open spec fn hex_upper(d: int) -> char {
    if d < 10 {
        (d + 48) as char
    } else {
        (d + 55) as char
    }
}

/// How one byte is written in a URL: as itself, or as `%` and two hexadecimal digits.
pub open spec fn encode_byte(b: u8) -> Seq<char> {
    if is_unreserved(b) {
        seq![b as char]
    } else {
        seq!['%', hex_upper(b as int / 16), hex_upper(b as int % 16)]
    }
}

/// How a row of bytes is written in a URL.
pub open spec fn url_encoded(bytes: Seq<u8>) -> Seq<char>
    decreases bytes.len(),
{
    if bytes.len() == 0 {
        Seq::<char>::empty()
    } else {
        url_encoded(bytes.drop_last()) + encode_byte(bytes.last())
    }
}

/// The upper-case hexadecimal digit of a value from 0 to 15.
fn hex_digit(d: u8) -> (c: char)
    requires
        d < 16,
    ensures
        c == hex_upper(d as int),
{
    if d < 10 {
        (d + 48) as char
    } else {
        (d + 55) as char
    }
}

/// Writes a text for use in a URL: every byte of its UTF-8 form that is
/// not a letter, a digit or one of `-_.~` becomes `%` and two hexadecimal digits.
pub fn url_encode(s: &str) -> (out: String)
    ensures
        out@ == url_encoded(s.spec_bytes()),
{
    let bytes = s.as_bytes();
    let mut out = String::new();
    let mut i: usize = 0;
    proof {
        assert(bytes@.take(0) =~= Seq::<u8>::empty());
    }
    while i < bytes.len()
        invariant
            i <= bytes@.len(),
            out@ == url_encoded(bytes@.take(i as int)),
        decreases bytes@.len() - i,
    {
        let b = bytes[i];
        let ghost before = out@;
        proof {
            assert(bytes@.take(i as int + 1).drop_last() =~= bytes@.take(i as int));
            assert(bytes@.take(i as int + 1).last() == b);
        }
        if (0x41 <= b && b <= 0x5A) || (0x61 <= b && b <= 0x7A) || (0x30 <= b && b <= 0x39) || b
            == 0x2D || b == 0x5F || b == 0x2E || b == 0x7E {
            push_char(&mut out, b as char);
            proof {
                assert(out@ =~= before + encode_byte(b));
            }
        } else {
            push_char(&mut out, '%');
            push_char(&mut out, hex_digit(b / 16));
            push_char(&mut out, hex_digit(b % 16));
            proof {
                assert(out@ =~= before + encode_byte(b));
            }
        }
        i += 1;
    }
    proof {
        assert(bytes@.take(bytes@.len() as int) =~= bytes@);
    }
    out
}

/// An encoded text consists of unreserved characters and `%` escapes only.
pub proof fn lemma_url_encoded_is_safe(bytes: Seq<u8>)
    ensures
        forall|i: int|
            0 <= i < url_encoded(bytes).len() ==> {
                let c = #[trigger] url_encoded(bytes)[i];
                c == '%' || (c as u32 <= 0x7F && is_unreserved(c as u8))
            },
    decreases bytes.len(),
{
    if bytes.len() > 0 {
        lemma_url_encoded_is_safe(bytes.drop_last());
        let head = url_encoded(bytes.drop_last());
        let tail = encode_byte(bytes.last());
        let all = url_encoded(bytes);
        assert forall|i: int| 0 <= i < all.len() implies {
            let c = #[trigger] all[i];
            c == '%' || (c as u32 <= 0x7F && is_unreserved(c as u8))
        } by {
            if i < head.len() {
                assert(all[i] == head[i]);
            } else {
                assert(all[i] == tail[i - head.len()]);
            }
        }
    }
}

/// The value of a digit in a radix of 10 or 16, if it is one.
pub open spec fn digit_in(c: char, radix: u32) -> Option<int> {
    if '0' <= c && c <= '9' {
        Some(c as int - 48)
    } else if radix == 16 && 'a' <= c && c <= 'f' {
        Some(c as int - 87)
    } else if radix == 16 && 'A' <= c && c <= 'F' {
        Some(c as int - 55)
    } else {
        None
    }
}

/// True if `s` consists of digits of the radix.
pub open spec fn all_digits_in(s: Seq<char>, radix: u32) -> bool {
    forall|i: int| 0 <= i < s.len() ==> (#[trigger] digit_in(s[i], radix)) is Some
}

/// The number that a row of digits stands for in a radix.
pub open spec fn radix_value(s: Seq<char>, radix: u32) -> nat
    decreases s.len(),
{
    if s.len() == 0 {
        0
    } else {
        match digit_in(s.last(), radix) {
            Some(d) => (radix_value(s.drop_last(), radix) * radix + d) as nat,
            None => 0,
        }
    }
}

/// What a text reads as where a code point is expected: digits of the
/// radix after an optional plus sign, that stand for a number of 32 bits.
pub open spec fn parse_code(s: Seq<char>, radix: u32) -> Option<u32> {
    let body = if s.len() > 0 && s[0] == '+' {
        s.drop_first()
    } else {
        s
    };
    if body.len() > 0 && all_digits_in(body, radix) && radix_value(body, radix) <= u32::MAX {
        Some(radix_value(body, radix) as u32)
    } else {
        None
    }
}

/// The character with a code, as a text; `fallback` where no character has that code.
pub open spec fn char_or(code: Option<u32>, fallback: Seq<char>) -> Seq<char> {
    match code {
        Some(c) => if is_scalar_value(c) {
            seq![c as char]
        } else {
            fallback
        },
        None => fallback,
    }
}

/// What an entity stands for. The known names and numeric entities, in
/// decimal or after an `x` in hexadecimal, stand for a character;
/// everything else stands for itself.
pub open spec fn decoded_entity(e: Seq<char>) -> Seq<char> {
    if e == "&amp;"@ {
        seq!['&']
    } else if e == "&lt;"@ {
        seq!['<']
    } else if e == "&gt;"@ {
        seq!['>']
    } else if e == "&quot;"@ {
        seq!['"']
    } else if e == "&apos;"@ || e == "&#x27;"@ {
        seq!['\'']
    } else if e == "&nbsp;"@ {
        seq![' ']
    } else if e.len() < 3 {
        e
    } else {
        let inner = e.subrange(2, e.len() - 1);
        if inner.len() > 0 && (inner[0] == 'x' || inner[0] == 'X') {
            char_or(parse_code(inner.drop_first(), 16), e)
        } else if e[0] == '&' && e[1] == '#' {
            char_or(parse_code(inner, 10), e)
        } else {
            e
        }
    }
}

/// Tells whether `v` is the text `word`.
fn is_word(v: &Vec<char>, word: &str) -> (same: bool)
    ensures
        same == (v@ == word@),
{
    let w = chars_of(word);
    if w.len() != v.len() {
        return false;
    }
    let mut i: usize = 0;
    while i < w.len()
        invariant
            w@ == word@,
            w@.len() == v@.len(),
            i <= w@.len(),
            forall|k: int| 0 <= k < i ==> v@[k] == w@[k],
        decreases w@.len() - i,
    {
        if v[i] != w[i] {
            return false;
        }
        i += 1;
    }
    proof {
        assert(v@ =~= w@);
    }
    true
}

/// The value of a digit in a radix of 10 or 16.
fn digit_of(c: char, radix: u32) -> (d: Option<u32>)
    ensures
        d is Some <==> digit_in(c, radix) is Some,
        d matches Some(n) ==> n as int == digit_in(c, radix)->0 && n < 16,
{
    if '0' <= c && c <= '9' {
        Some(c as u32 - 48)
    } else if radix == 16 && 'a' <= c && c <= 'f' {
        Some(c as u32 - 87)
    } else if radix == 16 && 'A' <= c && c <= 'F' {
        Some(c as u32 - 55)
    } else {
        None
    }
}

/// Reads `v[from..to]` as a code point in a radix of 10 or 16.
fn read_code(v: &Vec<char>, from: usize, to: usize, radix: u32) -> (r: Option<u32>)
    requires
        from <= to <= v@.len(),
        radix == 10 || radix == 16,
    ensures
        r == parse_code(v@.subrange(from as int, to as int), radix),
{
    let start: usize = if from < to && v[from] == '+' {
        from + 1
    } else {
        from
    };
    let ghost body = v@.subrange(start as int, to as int);
    let ghost whole = v@.subrange(from as int, to as int);
    proof {
        if from < to && v@[from as int] == '+' {
            assert(body =~= whole.drop_first());
        }
    }
    if start == to {
        return None;
    }
    let cap: u64 = 0x1_0000_0000;
    let mut acc: u64 = 0;
    let mut i: usize = start;
    proof {
        assert(v@.subrange(start as int, start as int) =~= Seq::<char>::empty());
    }
    while i < to
        invariant
            start <= i <= to <= v@.len(),
            radix == 10 || radix == 16,
            cap == 0x1_0000_0000,
            body == v@.subrange(start as int, to as int),
            whole == v@.subrange(from as int, to as int),
            body == (if whole.len() > 0 && whole[0] == '+' {
                whole.drop_first()
            } else {
                whole
            }),
            all_digits_in(v@.subrange(start as int, i as int), radix),
            acc == (if radix_value(v@.subrange(start as int, i as int), radix) > cap {
                cap as nat
            } else {
                radix_value(v@.subrange(start as int, i as int), radix)
            }),
        decreases to - i,
    {
        let c = v[i];
        let ghost head = v@.subrange(start as int, i as int);
        let ghost next = v@.subrange(start as int, i as int + 1);
        proof {
            assert(next.drop_last() =~= head);
            assert(next.last() == c);
        }
        match digit_of(c, radix) {
            Some(d) => {
                proof {
                    assert forall|k: int| 0 <= k < next.len() implies (#[trigger] digit_in(
                        next[k],
                        radix,
                    )) is Some by {
                        if k < head.len() {
                            assert(next[k] == head[k]);
                        }
                    }
                    assert(radix_value(next, radix) == radix_value(head, radix) * radix + d);
                    assert(radix_value(head, radix) * radix >= radix_value(head, radix))
                        by (nonlinear_arith)
                        requires
                            radix >= 1,
                    ;
                    if radix_value(head, radix) > cap {
                        assert(radix_value(head, radix) * radix > cap);
                    }
                }
                let wide: u64 = acc * (radix as u64) + d as u64;
                acc = if wide > cap {
                    cap
                } else {
                    wide
                };
            },
            None => {
                proof {
                    assert(body[i - start] == c);
                    assert(digit_in(body[i - start], radix) is None);
                }
                return None;
            },
        }
        i += 1;
    }
    proof {
        assert(v@.subrange(start as int, to as int) == body);
    }
    if acc > 0xFFFF_FFFF {
        None
    } else {
        Some(acc as u32)
    }
}

/// The character with a code, or `fallback`.
fn char_or_else(code: Option<u32>, fallback: &Vec<char>) -> (out: Vec<char>)
    ensures
        out@ == char_or(code, fallback@),
{
    match code {
        Some(c) => match char_from_u32(c) {
            Some(ch) => {
                let mut out: Vec<char> = Vec::new();
                out.push(ch);
                proof {
                    assert(out@ =~= seq![c as char]);
                }
                out
            },
            None => fallback.clone(),
        },
        None => fallback.clone(),
    }
}

/// A text of one character.
fn one_char(c: char) -> (out: Vec<char>)
    ensures
        out@ == seq![c],
{
    let mut out: Vec<char> = Vec::new();
    out.push(c);
    proof {
        assert(out@ =~= seq![c]);
    }
    out
}

/// The characters that an entity stands for.
pub fn decode_entity_chars(e: &Vec<char>) -> (out: Vec<char>)
    ensures
        out@ == decoded_entity(e@),
{
    if is_word(e, "&amp;") {
        one_char('&')
    } else if is_word(e, "&lt;") {
        one_char('<')
    } else if is_word(e, "&gt;") {
        one_char('>')
    } else if is_word(e, "&quot;") {
        one_char('"')
    } else if is_word(e, "&apos;") || is_word(e, "&#x27;") {
        one_char('\'')
    } else if is_word(e, "&nbsp;") {
        one_char(' ')
    } else if e.len() < 3 {
        e.clone()
    } else {
        let n = e.len();
        let ghost inner = e@.subrange(2, n - 1);
        if n - 1 > 2 && (e[2] == 'x' || e[2] == 'X') {
            proof {
                assert(inner.drop_first() =~= e@.subrange(3, n - 1));
            }
            char_or_else(read_code(e, 3, n - 1, 16), e)
        } else if e[0] == '&' && e[1] == '#' {
            char_or_else(read_code(e, 2, n - 1, 10), e)
        } else {
            e.clone()
        }
    }
}

/// What an entity such as `&amp;` or `&#228;` stands for; an entity that
/// is not known stands for itself.
pub fn decode_entity(entity: &str) -> (out: String)
    ensures
        out@ == decoded_entity(entity@),
{
    let e = chars_of(entity);
    let d = decode_entity_chars(&e);
    proof {
        assert(d@.subrange(0, d@.len() as int) =~= d@);
    }
    string_of(&d, 0, d.len())
}

/// Number of bytes of a character in UTF-8.
pub open spec fn utf8_len(c: char) -> nat {
    if (c as u32) < 0x80 {
        1
    } else if (c as u32) < 0x800 {
        2
    } else if (c as u32) < 0x10000 {
        3
    } else {
        4
    }
}

/// Number of bytes of a text in UTF-8.
pub open spec fn utf8_size(s: Seq<char>) -> nat
    decreases s.len(),
{
    if s.len() == 0 {
        0
    } else {
        utf8_size(s.drop_last()) + utf8_len(s.last())
    }
}

/// The longest entity in bytes: what is longer is no entity and is taken as plain text.
pub const MAX_ENTITY_BYTES: usize = 10;

/// True if a tag is a line break: it starts with `<br`, in upper or lower case.
pub open spec fn is_break_tag(tag: Seq<char>) -> bool {
    tag.len() >= 3 && tag[0] == '<' && (tag[1] == 'b' || tag[1] == 'B') && (tag[2] == 'r' || tag[2]
        == 'R')
}

/// The state of the scanner that turns HTML into text.
pub struct Scan {
    /// The text so far.
    pub out: Seq<char>,
    /// The tag that is open, from its `<` on.
    pub tag: Option<Seq<char>>,
    /// The entity that is open, from its `&` on.
    pub entity: Option<Seq<char>>,
}

/// The scanner after one more character. Outside of tags and entities
/// a character is text, `<` opens a tag and `&` an entity. A tag ends
/// with `>` and leaves a line break if it is a break tag, and nothing
/// otherwise. An entity ends with `;` and leaves what it stands for; one
/// that grows beyond 10 bytes is no entity and is text after all.
pub open spec fn scan_step(s: Scan, ch: char) -> Scan {
    if s.entity is Some {
        let e = s.entity->0.push(ch);
        if ch == ';' {
            Scan { out: s.out + decoded_entity(e), entity: None, ..s }
        } else if utf8_size(e) > MAX_ENTITY_BYTES {
            Scan { out: s.out + e, entity: None, ..s }
        } else {
            Scan { entity: Some(e), ..s }
        }
    } else if s.tag is Some {
        let t = s.tag->0.push(ch);
        if ch == '>' {
            Scan {
                out: if is_break_tag(t) {
                    s.out.push('\n')
                } else {
                    s.out
                },
                tag: None,
                ..s
            }
        } else {
            Scan { tag: Some(t), ..s }
        }
    } else if ch == '<' {
        Scan { tag: Some(seq!['<']), ..s }
    } else if ch == '&' {
        Scan { entity: Some(seq!['&']), ..s }
    } else {
        Scan { out: s.out.push(ch), ..s }
    }
}

/// The scanner after a text.
pub open spec fn scan(html: Seq<char>) -> Scan
    decreases html.len(),
{
    if html.len() == 0 {
        Scan { out: Seq::<char>::empty(), tag: None, entity: None }
    } else {
        scan_step(scan(html.drop_last()), html.last())
    }
}

/// What is left open at the end of a text is text.
pub open spec fn scan_rest(s: Scan) -> Seq<char> {
    (match s.entity {
        Some(e) => e,
        None => Seq::<char>::empty(),
    }) + (match s.tag {
        Some(t) => t,
        None => Seq::<char>::empty(),
    })
}

/// The plain text of a piece of HTML: tags are left out, break tags
/// become line breaks, and entities become the characters that they stand for.
pub open spec fn html_text(html: Seq<char>) -> Seq<char> {
    scan(html).out + scan_rest(scan(html))
}

/// Number of bytes of a character in UTF-8.
fn char_bytes(c: char) -> (n: usize)
    ensures
        n == utf8_len(c),
{
    let u = c as u32;
    if u < 0x80 {
        1
    } else if u < 0x800 {
        2
    } else if u < 0x10000 {
        3
    } else {
        4
    }
}

/// Tells whether a tag is a line break.
fn is_break(tag: &Vec<char>) -> (b: bool)
    ensures
        b == is_break_tag(tag@),
{
    tag.len() >= 3 && tag[0] == '<' && (tag[1] == 'b' || tag[1] == 'B') && (tag[2] == 'r' || tag[2]
        == 'R')
}

/// The plain text of the HTML in `v[from..to]`.
pub fn html_to_text_range(v: &Vec<char>, from: usize, to: usize) -> (out: String)
    requires
        from <= to <= v@.len(),
    ensures
        out@ == html_text(v@.subrange(from as int, to as int)),
{
    let ghost html = v@.subrange(from as int, to as int);
    let mut out = String::new();
    let mut in_tag = false;
    let mut tag_buf: Vec<char> = Vec::new();
    let mut in_entity = false;
    let mut entity_buf: Vec<char> = Vec::new();
    let mut entity_bytes: usize = 0;
    let mut i: usize = from;
    proof {
        assert(html.take(0) =~= Seq::<char>::empty());
    }
    while i < to
        invariant
            from <= i <= to <= v@.len(),
            html == v@.subrange(from as int, to as int),
            out@ == scan(html.take(i - from)).out,
            in_tag == scan(html.take(i - from)).tag is Some,
            in_entity == scan(html.take(i - from)).entity is Some,
            in_tag ==> tag_buf@ == scan(html.take(i - from)).tag->0,
            in_entity ==> entity_buf@ == scan(html.take(i - from)).entity->0,
            in_entity ==> entity_bytes == utf8_size(entity_buf@) && entity_bytes
                <= MAX_ENTITY_BYTES,
        decreases to - i,
    {
        let ch = v[i];
        let ghost before = scan(html.take(i - from));
        proof {
            assert(html.take(i - from + 1).drop_last() =~= html.take(i - from));
            assert(html.take(i - from + 1).last() == ch);
            assert(scan(html.take(i - from + 1)) == scan_step(before, ch));
        }
        if in_entity {
            let ghost open = entity_buf@;
            entity_buf.push(ch);
            entity_bytes = entity_bytes + char_bytes(ch);
            proof {
                assert(entity_buf@.drop_last() =~= open);
            }
            if ch == ';' {
                let d = decode_entity_chars(&entity_buf);
                push_chars(&mut out, &d);
                entity_buf = Vec::new();
                in_entity = false;
            } else if entity_bytes > MAX_ENTITY_BYTES {
                push_chars(&mut out, &entity_buf);
                entity_buf = Vec::new();
                in_entity = false;
            }
        } else if in_tag {
            tag_buf.push(ch);
            if ch == '>' {
                if is_break(&tag_buf) {
                    push_char(&mut out, '\n');
                }
                tag_buf = Vec::new();
                in_tag = false;
            }
        } else if ch == '<' {
            in_tag = true;
            tag_buf = Vec::new();
            tag_buf.push(ch);
            proof {
                assert(tag_buf@ =~= seq!['<']);
            }
        } else if ch == '&' {
            in_entity = true;
            entity_buf = Vec::new();
            entity_buf.push(ch);
            entity_bytes = 1;
            proof {
                assert(entity_buf@ =~= seq!['&']);
                assert(entity_buf@.drop_last() =~= Seq::<char>::empty());
                assert(utf8_size(entity_buf@.drop_last()) == 0);
            }
        } else {
            push_char(&mut out, ch);
        }
        i += 1;
    }
    proof {
        assert(html.take(to - from) =~= html);
    }
    if in_entity {
        push_chars(&mut out, &entity_buf);
    }
    if in_tag {
        push_chars(&mut out, &tag_buf);
    }
    proof {
        assert(out@ =~= html_text(html));
    }
    out
}

/// The plain text of a piece of HTML.
pub fn html_to_text(html: &str) -> (out: String)
    ensures
        out@ == html_text(html@),
{
    let v = chars_of(html);
    proof {
        assert(v@.subrange(0, v@.len() as int) =~= v@);
    }
    html_to_text_range(&v, 0, v.len())
}

/// True if a text holds neither a tag nor an entity.
pub open spec fn is_plain(s: Seq<char>) -> bool {
    forall|i: int| 0 <= i < s.len() ==> #[trigger] s[i] != '<' && s[i] != '&'
}

/// Text without tags and entities is left as it is.
pub proof fn lemma_plain_text_is_kept(s: Seq<char>)
    requires
        is_plain(s),
    ensures
        scan(s).tag is None,
        scan(s).entity is None,
        scan(s).out == s,
        html_text(s) == s,
    decreases s.len(),
{
    if s.len() > 0 {
        lemma_plain_text_is_kept(s.drop_last());
        assert(s.drop_last().push(s.last()) =~= s);
    }
    assert(s + Seq::<char>::empty() + Seq::<char>::empty() =~= s);
}

/// What marks a container of lyrics in a page.
pub open spec fn container_marker() -> Seq<char> {
    "data-lyrics-container=\"true\""@
}

/// The tag that closes a `div` element.
pub open spec fn div_close() -> Seq<char> {
    seq!['<', '/', 'd', 'i', 'v', '>']
}

/// The start of a tag that opens a `div` element.
pub open spec fn div_open() -> Seq<char> {
    seq!['<', 'd', 'i', 'v']
}

/// Where the container ends that is open at place `i`, `depth` levels
/// deep in `div` elements: at the `</div>` that closes it, or at the end
/// of the page.
pub open spec fn container_end(page: Seq<char>, i: int, depth: int) -> int
    decreases page.len() - i,
{
    if i < 0 || i >= page.len() || depth <= 0 {
        i
    } else if occurs_at(page, div_close(), i) {
        if depth == 1 {
            i
        } else {
            container_end(page, i + 6, depth - 1)
        }
    } else if occurs_at(page, div_open(), i) {
        container_end(page, i + 4, depth + 1)
    } else {
        container_end(page, i + 1, depth)
    }
}

/// Lyrics with one more piece of text: pieces are on lines of their own, and empty ones are left out.
pub open spec fn with_piece(lyrics: Seq<char>, piece: Seq<char>) -> Seq<char> {
    if piece.len() == 0 {
        lyrics
    } else if lyrics.len() == 0 {
        piece
    } else {
        lyrics + seq!['\n'] + piece
    }
}

/// The lyrics of a page from place `from` on, after `lyrics`: the text
/// of every container whose marker stands at or after `from`.
pub open spec fn gathered(page: Seq<char>, from: int, lyrics: Seq<char>) -> Seq<char>
    decreases page.len() - from,
{
    match find_from(page, container_marker(), from) {
        None => lyrics,
        Some(at) => match find_from(page, seq!['>'], at) {
            None => lyrics,
            Some(gt) => {
                let start = gt + 1;
                let end = container_end(page, start, 1);
                let next = with_piece(lyrics, html_text(page.subrange(start, end)));
                if from < end <= page.len() {
                    gathered(page, end, next)
                } else {
                    next
                }
            },
        },
    }
}

/// The lyrics that a page holds: the text of its lyrics containers.
pub open spec fn page_lyrics(page: Seq<char>) -> Seq<char> {
    gathered(page, 0, Seq::<char>::empty())
}

proof fn lemma_container_end_bounds(page: Seq<char>, i: int, depth: int)
    requires
        0 <= i <= page.len(),
    ensures
        i <= container_end(page, i, depth) <= page.len(),
    decreases page.len() - i,
{
    if i >= page.len() || depth <= 0 {
    } else if occurs_at(page, div_close(), i) {
        if depth != 1 {
            lemma_container_end_bounds(page, i + 6, depth - 1);
        }
    } else if occurs_at(page, div_open(), i) {
        lemma_container_end_bounds(page, i + 4, depth + 1);
    } else {
        lemma_container_end_bounds(page, i + 1, depth);
    }
}

/// Where the container ends that starts at `start`.
fn find_container_end(page: &Vec<char>, start: usize) -> (end: usize)
    requires
        start <= page@.len(),
    ensures
        end == container_end(page@, start as int, 1),
        start <= end <= page@.len(),
{
    let close = chars_of("</div>");
    let open = chars_of("<div");
    proof {
        reveal_strlit("</div>");
        reveal_strlit("<div");
        assert(close@ =~= div_close());
        assert(open@ =~= div_open());
        lemma_container_end_bounds(page@, start as int, 1);
    }
    let mut depth: usize = 1;
    let mut i: usize = start;
    while i < page.len()
        invariant
            start <= i <= page@.len(),
            close@ == div_close(),
            open@ == div_open(),
            1 <= depth <= i - start + 1,
            container_end(page@, start as int, 1) == container_end(page@, i as int, depth as int),
        decreases page@.len() - i,
    {
        if starts_with_at(page, i, &close) {
            if depth == 1 {
                return i;
            }
            depth -= 1;
            i += 6;
        } else if starts_with_at(page, i, &open) {
            depth += 1;
            i += 4;
        } else {
            i += 1;
        }
    }
    i
}

/// The lyrics that a page holds: the text of every element that is
/// marked as a container of lyrics, one after the other.
pub fn extract_lyrics(page: &str) -> (lyrics: String)
    ensures
        lyrics@ == page_lyrics(page@),
{
    let v = chars_of(page);
    let marker = chars_of("data-lyrics-container=\"true\"");
    let gt = chars_of(">");
    let mut lyrics = String::new();
    let mut from: usize = 0;
    let n = v.len();
    proof {
        reveal_strlit(">");
        assert(gt@ =~= seq!['>']);
    }
    loop
        invariant_except_break
            gathered(v@, from as int, lyrics@) == page_lyrics(page@),
        invariant
            v@ == page@,
            n == v@.len(),
            marker@ == container_marker(),
            gt@ == seq!['>'],
            from <= v@.len(),
        ensures
            lyrics@ == page_lyrics(page@),
        decreases v@.len() - from,
    {
        let at = match find_sub(&v, &marker, from) {
            Some(at) => at,
            None => {
                break ;
            },
        };
        assert(gt@.len() == 1);
        let start = match find_sub(&v, &gt, at) {
            Some(p) => p + 1,
            None => {
                break ;
            },
        };
        let end = find_container_end(&v, start);
        let text = html_to_text_range(&v, start, end);
        let ghost before = lyrics@;
        if !text.as_str().is_empty() {
            if !lyrics.as_str().is_empty() {
                push_char(&mut lyrics, '\n');
            }
            let t = chars_of(text.as_str());
            push_chars(&mut lyrics, &t);
        }
        proof {
            assert(lyrics@ =~= with_piece(before, text@));
        }
        from = end;
    }
    lyrics
}

/// The lyrics of a page without the heading that the site puts before
/// them: what stands before the word ` Lyrics` is left out if it names
/// contributors or stands on the first line.
pub open spec fn without_header(lyrics: Seq<char>) -> Seq<char> {
    let text = trim(lyrics);
    match find_from(text, " Lyrics"@, 0) {
        Some(pos) => {
            let before = text.take(pos);
            if find_from(before, "Contributor"@, 0) is Some || find_from(before, seq!['\n'], 0)
                is None {
                trim(text.skip(pos + 7))
            } else {
                text
            }
        },
        None => text,
    }
}

/// The first place in `v[from..to]` where `pattern` stands, if there is one.
fn contains_in(v: &Vec<char>, from: usize, to: usize, pattern: &Vec<char>) -> (found: bool)
    requires
        from <= to <= v@.len(),
    ensures
        found == find_from(v@.subrange(from as int, to as int), pattern@, 0) is Some,
{
    let ghost part = v@.subrange(from as int, to as int);
    let n = pattern.len();
    let mut i: usize = from;
    loop
        invariant
            from <= i <= to <= v@.len(),
            n == pattern@.len(),
            part == v@.subrange(from as int, to as int),
            forall|j: int| 0 <= j < i - from ==> !occurs_at(part, pattern@, j),
        ensures
            forall|j: int| 0 <= j <= to - from ==> !occurs_at(part, pattern@, j),
        decreases to - i,
    {
        if n <= to - i && starts_with_at(v, i, pattern) {
            proof {
                assert(part.subrange(i - from, i - from + n) =~= v@.subrange(i as int, i + n));
                assert(is_first_occurrence(part, pattern@, 0, i - from));
            }
            return true;
        }
        proof {
            if occurs_at(part, pattern@, i - from) {
                assert(part.subrange(i - from, i - from + n) =~= v@.subrange(i as int, i + n));
            }
        }
        if i >= to {
            break ;
        }
        i += 1;
    }
    proof {
        assert forall|k: int| !is_first_occurrence(part, pattern@, 0, k) by {
            if 0 <= k && occurs_at(part, pattern@, k) {
                assert(k <= to - from);
            }
        }
    }
    false
}

/// Takes the heading off the lyrics of a page.
pub fn strip_header(lyrics: &str) -> (text: String)
    ensures
        text@ == without_header(lyrics@),
{
    let v = chars_of(lyrics);
    proof {
        assert(v@.subrange(0, v@.len() as int) =~= v@);
        reveal_strlit(" Lyrics");
    }
    let (a, b) = trim_range(&v, 0, v.len());
    let t = crate::text::vec_of(&v, a, b);
    let word = chars_of(" Lyrics");
    match find_sub(&t, &word, 0) {
        Some(pos) => {
            let names = chars_of("Contributor");
            let newline = chars_of("\n");
            proof {
                reveal_strlit("\n");
                assert(newline@ =~= seq!['\n']);
                assert(t@.subrange(0, pos as int) =~= t@.take(pos as int));
            }
            if contains_in(&t, 0, pos, &names) || !contains_in(&t, 0, pos, &newline) {
                proof {
                    assert(t@.subrange(pos as int + 7, t@.len() as int) =~= t@.skip(pos as int + 7));
                }
                let (c, d) = trim_range(&t, pos + 7, t.len());
                string_of(&t, c, d)
            } else {
                proof {
                    assert(t@.subrange(0, t@.len() as int) =~= t@);
                }
                string_of(&t, 0, t.len())
            }
        },
        None => {
            proof {
                assert(t@.subrange(0, t@.len() as int) =~= t@);
            }
            string_of(&t, 0, t.len())
        },
    }
}

/// A value of JSON, as serde_json holds it.
#[verifier::external_type_specification]
#[verifier::external_body]
pub struct ExValue(serde_json::Value);

/// A step from a JSON value into it: to the member of an object under
/// a key, or to the item of an array at an index.
pub enum JsonStep {
    Key(Seq<char>),
    Index(nat),
}

/// The texts of a JSON value, each by its place: the steps that lead to
/// it from the value. A value that is itself a text holds it at the
/// empty place.
pub type JsonTexts = Map<Seq<JsonStep>, Seq<char>>;

/// The texts that a JSON value holds: what `Value::as_str` gives for the
/// value and for every value that `Value::get` and `Value::as_array`
/// reach from it.
pub uninterp spec fn json_texts(value: Value) -> Map<Seq<JsonStep>, Seq<char>>;

/// The texts of the value that `serde_json::from_str` reads from a
/// text; `None` where it reports an error.
pub uninterp spec fn parsed_texts(body: Seq<char>) -> Option<Map<Seq<JsonStep>, Seq<char>>>;

/// The place that is reached by `step` and then by the steps of `place`.
pub open spec fn after(step: JsonStep, place: Seq<JsonStep>) -> Seq<JsonStep> {
    seq![step] + place
}

/// The texts behind one step, each by its place from there.
pub open spec fn texts_under(texts: JsonTexts, step: JsonStep) -> JsonTexts {
    Map::new(
        |place: Seq<JsonStep>| texts.contains_key(after(step, place)),
        |place: Seq<JsonStep>| texts[after(step, place)],
    )
}

/// The texts of the member under `key`; none where there is no such member.
pub open spec fn member(texts: JsonTexts, key: Seq<char>) -> JsonTexts {
    texts_under(texts, JsonStep::Key(key))
}

/// The texts of the item at `index`; none where there is no such item.
pub open spec fn item(texts: JsonTexts, index: nat) -> JsonTexts {
    texts_under(texts, JsonStep::Index(index))
}

/// The text that a value itself is, if it is one.
pub open spec fn text_of(texts: JsonTexts) -> Option<Seq<char>> {
    if texts.contains_key(Seq::empty()) {
        Some(texts[Seq::empty()])
    } else {
        None
    }
}

/// Calls `serde_json::from_str` for a `Value`; `None` stands for an
/// error. Trusted: the texts of the value are those that the parser
/// reads from `body`, and there is an error where it reads none.
#[verifier::external_body]
fn parse_json(body: &str) -> (r: Option<Value>)
    ensures
        parsed_texts(body@) == (match r {
            Some(value) => Some(json_texts(value)),
            None => None,
        }),
{
    serde_json::from_str::<Value>(body).ok()
}

/// Calls `Value::get` with a key. Trusted: the result is the member of
/// an object under that key, so its texts are those of `value` behind
/// the key; without a result no text of `value` is behind the key.
#[verifier::external_body]
fn json_get<'a>(value: &'a Value, key: &str) -> (r: Option<&'a Value>)
    ensures
        member(json_texts(*value), key@) == (match r {
            Some(found) => json_texts(*found),
            None => Map::empty(),
        }),
{
    value.get(key)
}

/// Calls `Value::as_array`. Trusted: the result holds the items of an
/// array in their order, so the texts of each are those of `value`
/// behind its index; no text of `value` is behind another index.
#[verifier::external_body]
fn json_array<'a>(value: &'a Value) -> (r: Option<&'a Vec<Value>>)
    ensures
        forall|index: nat| #[trigger]
            item(json_texts(*value), index) == (match r {
                Some(items) => if index < items@.len() {
                    json_texts(items@[index as int])
                } else {
                    Map::empty()
                },
                None => Map::empty(),
            }),
{
    value.as_array()
}

/// Calls `Value::as_str` and copies the text. Trusted: the result is
/// the text that `value` itself is, if it is one.
#[verifier::external_body]
fn json_str(value: &Value) -> (r: Option<String>)
    ensures
        opt_text(r) == text_of(json_texts(*value)),
{
    value.as_str().map(|s| s.to_string())
}

/// Behind a step from nothing there is nothing.
proof fn lemma_nothing_under(step: JsonStep)
    ensures
        texts_under(Map::empty(), step) == Map::<Seq<JsonStep>, Seq<char>>::empty(),
        text_of(Map::empty()) is None,
{
    assert(texts_under(Map::empty(), step) =~= Map::<Seq<JsonStep>, Seq<char>>::empty());
}

/// What becomes of lyrics that were found: the text without the white
/// space around it, with its page and cover; nothing if no text is left.
pub open spec fn result_of(
    text: Seq<char>,
    url: Seq<char>,
    art_url: Option<Seq<char>>,
    r: Option<LyricsResult>,
) -> bool {
    if trim(text).len() == 0 {
        r is None
    } else {
        &&& r is Some
        &&& r->0.text@ == trim(text)
        &&& r->0.url@ == url
        &&& opt_text(r->0.art_url) == art_url
    }
}

/// The result for lyrics that were found: white space around the text
/// is taken off, and a text that is empty then is no result.
pub fn lyrics_result(text: &str, url: String, art_url: Option<String>) -> (r: Option<LyricsResult>)
    ensures
        result_of(text@, url@, opt_text(art_url), r),
{
    let v = chars_of(text);
    proof {
        assert(v@.subrange(0, v@.len() as int) =~= v@);
    }
    let (a, b) = trim_range(&v, 0, v.len());
    if a == b {
        None
    } else {
        Some(LyricsResult { text: string_of(&v, a, b), url, art_url })
    }
}

/// The text in the field `lyrics` of an answer of the lyrics service;
/// `None` where the answer is no JSON or has no such text.
pub open spec fn lyrics_field(body: Seq<char>) -> Option<Seq<char>> {
    match parsed_texts(body) {
        Some(texts) => text_of(member(texts, "lyrics"@)),
        None => None,
    }
}

/// The lyrics in an answer of the lyrics service: the text in its field
/// `lyrics`, without the white space around it, as found at `url`.
/// There is none if the answer has no such text or the text is blank.
pub fn ovh_lyrics(body: &str, url: String) -> (r: Option<LyricsResult>)
    ensures
        match lyrics_field(body@) {
            Some(text) => result_of(text, url@, None, r),
            None => r is None,
        },
{
    let json = match parse_json(body) {
        Some(j) => j,
        None => {
            return None;
        },
    };
    let field = match json_get(&json, "lyrics") {
        Some(f) => f,
        None => {
            proof {
                lemma_nothing_under(JsonStep::Key("lyrics"@));
            }
            return None;
        },
    };
    match json_str(field) {
        Some(text) => lyrics_result(text.as_str(), url, None),
        None => None,
    }
}

/// The first hit of a search: the page of the song, and its cover where one is named.
pub struct SongHit {
    pub url: String,
    pub art_url: Option<String>,
}

/// The texts of a hit: its page, and its cover where it has one.
pub open spec fn hit_texts(hit: Option<SongHit>) -> Option<(Seq<char>, Option<Seq<char>>)> {
    match hit {
        Some(h) => Some((h.url@, opt_text(h.art_url))),
        None => None,
    }
}

/// The hit that a search result with these two fields is: none without
/// the address of its page.
pub open spec fn hit_from(url: Option<Seq<char>>, art_url: Option<Seq<char>>) -> Option<
    (Seq<char>, Option<Seq<char>>),
> {
    match url {
        Some(page) => Some((page, art_url)),
        None => None,
    }
}

/// The `result` of the first of the `hits` of the `response` of an answer.
pub open spec fn first_result(texts: JsonTexts) -> JsonTexts {
    member(item(member(member(texts, "response"@), "hits"@), 0), "result"@)
}

/// The first hit in an answer of the search: the texts in the fields
/// `url` and `song_art_image_thumbnail_url` of its first result.
/// `None` where the answer is no JSON or that `url` is no text in it.
pub open spec fn first_hit(body: Seq<char>) -> Option<(Seq<char>, Option<Seq<char>>)> {
    match parsed_texts(body) {
        Some(texts) => hit_from(
            text_of(member(first_result(texts), "url"@)),
            text_of(member(first_result(texts), "song_art_image_thumbnail_url"@)),
        ),
        None => None,
    }
}

/// The hit of a search result whose field `url` is `url` and whose
/// cover is `art_url`, each where it is a text.
pub fn song_hit(url: Option<String>, art_url: Option<String>) -> (hit: Option<SongHit>)
    ensures
        hit_texts(hit) == hit_from(opt_text(url), opt_text(art_url)),
{
    match url {
        Some(page) => Some(SongHit { url: page, art_url }),
        None => None,
    }
}

/// The text that a JSON value holds in a field, where it is a text.
fn json_field(value: &Value, key: &str) -> (text: Option<String>)
    ensures
        opt_text(text) == text_of(member(json_texts(*value), key@)),
{
    match json_get(value, key) {
        Some(found) => json_str(found),
        None => {
            proof {
                lemma_nothing_under(JsonStep::Key(key@));
            }
            None
        },
    }
}

/// The first hit in an answer of the search: the field `url` of the
/// `result` of the first of the `hits` of the `response`, and its
/// field `song_art_image_thumbnail_url` where that is a text.
pub fn genius_hit(body: &str) -> (hit: Option<SongHit>)
    ensures
        hit_texts(hit) == first_hit(body@),
{
    let json = match parse_json(body) {
        Some(j) => j,
        None => {
            return None;
        },
    };
    let ghost texts = json_texts(json);
    let response = match json_get(&json, "response") {
        Some(r) => r,
        None => {
            proof {
                lemma_no_result(texts);
            }
            return None;
        },
    };
    let hits = match json_get(response, "hits") {
        Some(h) => h,
        None => {
            proof {
                lemma_no_result(texts);
            }
            return None;
        },
    };
    let list = match json_array(hits) {
        Some(l) => l,
        None => {
            proof {
                assert(item(json_texts(*hits), 0) == JsonTexts::empty());
                lemma_no_result(texts);
            }
            return None;
        },
    };
    if list.len() == 0 {
        proof {
            assert(item(json_texts(*hits), 0) == JsonTexts::empty());
            lemma_no_result(texts);
        }
        return None;
    }
    proof {
        assert(item(json_texts(*hits), 0) == json_texts(list@[0]));
    }
    let result = match json_get(&list[0], "result") {
        Some(r) => r,
        None => {
            proof {
                lemma_no_result(texts);
            }
            return None;
        },
    };
    let url = json_field(result, "url");
    let art_url = json_field(result, "song_art_image_thumbnail_url");
    song_hit(url, art_url)
}

/// An answer in which a step to the first result leads to nothing has
/// no text in that result.
proof fn lemma_no_result(texts: JsonTexts)
    requires
        member(texts, "response"@) == JsonTexts::empty() || member(
            member(texts, "response"@),
            "hits"@,
        ) == JsonTexts::empty() || item(member(member(texts, "response"@), "hits"@), 0)
            == JsonTexts::empty() || first_result(texts) == JsonTexts::empty(),
    ensures
        forall|key: Seq<char>| text_of(#[trigger] member(first_result(texts), key)) is None,
{
    lemma_nothing_under(JsonStep::Key("hits"@));
    lemma_nothing_under(JsonStep::Index(0));
    lemma_nothing_under(JsonStep::Key("result"@));
    assert(first_result(texts) == JsonTexts::empty());
    assert forall|key: Seq<char>| text_of(#[trigger] member(first_result(texts), key)) is None by {
        lemma_nothing_under(JsonStep::Key(key));
    }
}

/// The lyrics of a song page: the text of its lyrics containers,
/// without the heading of the site.
pub fn genius_lyrics(page: &str, hit: SongHit) -> (r: Option<LyricsResult>)
    ensures
        result_of(without_header(page_lyrics(page@)), hit.url@, opt_text(hit.art_url), r),
{
    let lyrics = extract_lyrics(page);
    let text = strip_header(lyrics.as_str());
    lyrics_result(text.as_str(), hit.url, hit.art_url)
}

/// The address of the lyrics service for a song.
pub fn ovh_url(artist: &str, title: &str) -> (url: String)
    ensures
        url@ == "https://api.lyrics.ovh/v1/"@ + url_encoded(artist.spec_bytes()) + seq!['/']
            + url_encoded(title.spec_bytes()),
{
    let mut url = "https://api.lyrics.ovh/v1/".to_owned();
    let a = url_encode(artist);
    let a_chars = chars_of(a.as_str());
    push_chars(&mut url, &a_chars);
    push_char(&mut url, '/');
    let t = url_encode(title);
    let t_chars = chars_of(t.as_str());
    push_chars(&mut url, &t_chars);
    url
}

/// What is searched for: the title, after the artist where one is known.
pub open spec fn search_words(artist: Seq<char>, title: Seq<char>) -> Seq<char> {
    if artist.len() == 0 {
        title
    } else {
        artist + seq![' '] + title
    }
}

/// The words of the search for a song.
pub fn search_query(artist: &str, title: &str) -> (query: String)
    ensures
        query@ == search_words(artist@, title@),
{
    if artist.is_empty() {
        title.to_owned()
    } else {
        let mut q = artist.to_owned();
        push_char(&mut q, ' ');
        let t = chars_of(title);
        push_chars(&mut q, &t);
        q
    }
}

/// The address of the search for a song.
pub fn genius_search_url(artist: &str, title: &str) -> (url: String)
    ensures
        url@ == "https://genius.com/api/search?q="@ + url_encoded(
            vstd::utf8::encode_utf8(search_words(artist@, title@)),
        ),
{
    let query = search_query(artist, title);
    let mut url = "https://genius.com/api/search?q=".to_owned();
    let q = url_encode(query.as_str());
    let q_chars = chars_of(q.as_str());
    push_chars(&mut url, &q_chars);
    url
}

/// What `Path::file_stem` finds in a path: its file name without the extension.
pub uninterp spec fn path_file_stem(path: Seq<char>) -> Option<Seq<char>>;

/// Calls `Path::file_stem` on the path. Trusted: the result is a function
/// of the path alone, which `path_file_stem` names.
#[verifier::external_body]
fn file_stem_of(path: &str) -> (stem: Option<String>)
    ensures
        stem is Some <==> path_file_stem(path@) is Some,
        stem matches Some(s) ==> s@ == path_file_stem(path@)->0,
{
    std::path::Path::new(path).file_stem().map(|s| s.to_string_lossy().into_owned())
}

/// The text of an optional text, or the empty text.
pub open spec fn text_or_empty(t: Option<Seq<char>>) -> Seq<char> {
    match t {
        Some(s) => s,
        None => Seq::<char>::empty(),
    }
}

/// The title that lyrics are looked up by: the title tag, or else the file name without extension.
pub open spec fn query_title(title: Option<Seq<char>>, path: Seq<char>) -> Seq<char> {
    match title {
        Some(t) => t,
        None => text_or_empty(path_file_stem(path)),
    }
}

/// Artist and title to look lyrics up by; `None` if there is no title to go by.
pub fn lyrics_query(meta: &TrackMeta, path: &str) -> (q: Option<(String, String)>)
    ensures
        q is Some <==> query_title(opt_text(meta.title), path@).len() > 0,
        q matches Some(pair) ==> pair.0@ == text_or_empty(opt_text(meta.artist)) && pair.1@
            == query_title(opt_text(meta.title), path@),
{
    let artist = match &meta.artist {
        Some(a) => a.clone(),
        None => String::new(),
    };
    let title = match &meta.title {
        Some(t) => t.clone(),
        None => match file_stem_of(path) {
            Some(s) => s,
            None => String::new(),
        },
    };
    if title.as_str().is_empty() {
        None
    } else {
        Some((artist, title))
    }
}

/// The name that a track is shown by: its title, or else its file name, or else "Unknown".
pub open spec fn shown_name(title: Option<Seq<char>>, path: Seq<char>) -> Seq<char> {
    match title {
        Some(t) => t,
        None => match path_file_name(path) {
            Some(n) => n,
            None => "Unknown"@,
        },
    }
}

/// The name that a track is shown by.
pub fn display_name(meta: &TrackMeta, path: &str) -> (name: String)
    ensures
        name@ == shown_name(opt_text(meta.title), path@),
{
    match &meta.title {
        Some(t) => t.clone(),
        None => match crate::file_browser::file_name_of(path) {
            Some(n) => n,
            None => "Unknown".to_owned(),
        },
    }
}

/// The lyrics of the track that plays, and the search for them.
///
/// Several sources are asked at once. The first that has lyrics wins, and
/// what comes later is left aside.
pub struct LyricsPanel {
    pub lyrics: Option<LyricsResult>,
    /// True while the answer of a source is awaited.
    pub loading: bool,
    /// The line that stands at the top of the panel.
    pub scroll: usize,
}

/// What a source of lyrics reports.
pub enum FetchEvent {
    /// A source has lyrics.
    Found(LyricsResult),
    /// A source has none.
    NotFound,
    /// Every source has answered.
    Exhausted,
}

impl LyricsPanel {
    /// The panel of a new track: no lyrics yet, the top of the text, and
    /// a search under way if there is something to search by.
    pub fn for_track(has_query: bool) -> (p: LyricsPanel)
        ensures
            p.lyrics is None,
            p.loading == has_query,
            p.scroll == 0,
    {
        LyricsPanel { lyrics: None, loading: has_query, scroll: 0 }
    }

    /// Takes in what a source reports, and tells whether to go on
    /// listening. While the search is under way, lyrics that are found
    /// are taken and end it, a source without lyrics changes nothing, and
    /// the last answer ends the search. Once the search is over, nothing
    /// is taken any more.
    pub fn on_fetch(&mut self, event: FetchEvent) -> (listening: bool)
        ensures
            final(self).scroll == old(self).scroll,
            !old(self).loading ==> !listening && *final(self) == *old(self),
            old(self).loading ==> match event {
                FetchEvent::Found(l) => !listening && !final(self).loading && final(self).lyrics
                    == Some(l),
                FetchEvent::NotFound => listening && *final(self) == *old(self),
                FetchEvent::Exhausted => !listening && !final(self).loading && final(self).lyrics
                    == old(self).lyrics,
            },
    {
        if !self.loading {
            return false;
        }
        match event {
            FetchEvent::Found(l) => {
                self.lyrics = Some(l);
                self.loading = false;
                false
            },
            FetchEvent::NotFound => true,
            FetchEvent::Exhausted => {
                self.loading = false;
                false
            },
        }
    }

    /// What the panel shows: a note while the search is under way, then
    /// the lyrics, or a note that there are none.
    pub fn body(&self, url: &str) -> (text: String)
        ensures
            text@ == (if self.loading {
                "Loading...\n\n"@ + url@
            } else {
                match self.lyrics {
                    Some(l) => l.text@,
                    None => "No lyrics found"@,
                }
            }),
    {
        if self.loading {
            let mut text = "Loading...\n\n".to_owned();
            let u = chars_of(url);
            push_chars(&mut text, &u);
            text
        } else {
            match &self.lyrics {
                Some(l) => l.text.clone(),
                None => "No lyrics found".to_owned(),
            }
        }
    }

    /// One line down.
    pub fn scroll_down(&mut self)
        ensures
            final(self).scroll == (if old(self).scroll < usize::MAX {
                (old(self).scroll + 1) as usize
            } else {
                usize::MAX
            }),
            final(self).lyrics == old(self).lyrics,
            final(self).loading == old(self).loading,
    {
        self.scroll = self.scroll.saturating_add(1);
    }

    /// One line up.
    pub fn scroll_up(&mut self)
        ensures
            final(self).scroll == (if old(self).scroll > 0 {
                (old(self).scroll - 1) as usize
            } else {
                0usize
            }),
            final(self).lyrics == old(self).lyrics,
            final(self).loading == old(self).loading,
    {
        self.scroll = self.scroll.saturating_sub(1);
    }
}

} // verus!
