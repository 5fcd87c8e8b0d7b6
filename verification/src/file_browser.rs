//! Choosing tracks: which files are audio files, and which of them match a search.

use vstd::prelude::*;
use crate::text::{chars_of, string_of};
use crate::transport::order::{path_text, track_at, track_names};

verus! {

/// Number of file extensions that count as audio.
pub const AUDIO_EXTENSION_COUNT: usize = 6;

/// The file extensions that count as audio, in lower case.
pub open spec fn audio_extensions() -> Seq<Seq<char>> {
    seq!["mp3"@, "flac"@, "ogg"@, "wav"@, "aac"@, "m4a"@]
}

/// The file extension that counts as audio at place `i`.
pub fn audio_extension(i: usize) -> (ext: &'static str)
    requires
        i < AUDIO_EXTENSION_COUNT,
    ensures
        ext@ == audio_extensions()[i as int],
{
    if i == 0 {
        "mp3"
    } else if i == 1 {
        "flac"
    } else if i == 2 {
        "ogg"
    } else if i == 3 {
        "wav"
    } else if i == 4 {
        "aac"
    } else {
        "m4a"
    }
}

/// A character with the upper-case letters `A` to `Z` turned into lower case.
pub open spec fn ascii_lower(c: char) -> char {
    if 'A' <= c && c <= 'Z' {
        ((c as u32) + 32) as char
    } else {
        c
    }
}

/// A text with its ASCII letters in lower case.
pub open spec fn ascii_lowered(s: Seq<char>) -> Seq<char> {
    Seq::new(s.len(), |i: int| ascii_lower(s[i]))
}

/// True if files with this extension are audio files, whatever the case of its letters.
pub open spec fn is_audio_extension(ext: Seq<char>) -> bool {
    exists|i: int|
        0 <= i < AUDIO_EXTENSION_COUNT && #[trigger] audio_extensions()[i] == ascii_lowered(ext)
}

/// What `Path::extension` finds in a path, where that is valid Unicode.
pub uninterp spec fn path_extension(path: Seq<char>) -> Option<Seq<char>>;

/// Calls `Path::extension` on the path, and `OsStr::to_str` on what it
/// finds. Trusted: the result is a function of the path alone, which
/// `path_extension` names.
#[verifier::external_body]
fn extension_of(path: &str) -> (ext: Option<String>)
    ensures
        ext is Some <==> path_extension(path@) is Some,
        ext matches Some(e) ==> e@ == path_extension(path@)->0,
{
    std::path::Path::new(path).extension().and_then(|e| e.to_str()).map(|e| e.to_string())
}

/// A character with the upper-case letters `A` to `Z` turned into lower case.
fn lower_ascii(c: char) -> (l: char)
    ensures
        l == ascii_lower(c),
{
    if 'A' <= c && c <= 'Z' {
        ((c as u8) + 32) as char
    } else {
        c
    }
}

/// Tells whether `ext`, with its letters in lower case, is the text `word`.
fn lowered_is(ext: &Vec<char>, word: &str) -> (same: bool)
    ensures
        same == (ascii_lowered(ext@) == word@),
{
    let w = chars_of(word);
    if w.len() != ext.len() {
        return false;
    }
    let mut i: usize = 0;
    while i < w.len()
        invariant
            w@ == word@,
            w@.len() == ext@.len(),
            i <= w@.len(),
            forall|k: int| 0 <= k < i ==> ascii_lower(ext@[k]) == w@[k],
        decreases w@.len() - i,
    {
        if lower_ascii(ext[i]) != w[i] {
            proof {
                assert(ascii_lowered(ext@)[i as int] != w@[i as int]);
            }
            return false;
        }
        i += 1;
    }
    proof {
        assert(ascii_lowered(ext@) =~= w@);
    }
    true
}

/// Tells whether files with this extension are audio files.
pub fn has_audio_extension(ext: &str) -> (audio: bool)
    ensures
        audio == is_audio_extension(ext@),
{
    let e = chars_of(ext);
    let mut i: usize = 0;
    while i < AUDIO_EXTENSION_COUNT
        invariant
            i <= AUDIO_EXTENSION_COUNT,
            e@ == ext@,
            forall|k: int| 0 <= k < i ==> #[trigger] audio_extensions()[k] != ascii_lowered(ext@),
        decreases AUDIO_EXTENSION_COUNT - i,
    {
        if lowered_is(&e, audio_extension(i)) {
            return true;
        }
        i += 1;
    }
    false
}

/// Tells whether a path names an audio file: whether it has one of the
/// audio extensions, in any case.
pub fn is_audio_file(path: &str) -> (audio: bool)
    ensures
        audio == match path_extension(path@) {
            Some(ext) => is_audio_extension(ext),
            None => false,
        },
{
    match extension_of(path) {
        Some(ext) => has_audio_extension(ext.as_str()),
        None => false,
    }
}

/// What `char::to_lowercase` yields for a character: its lower-case
/// form, which may be more than one character.
pub uninterp spec fn char_lowercase(c: char) -> Seq<char>;

/// Calls `char::to_lowercase` and collects what it yields. Trusted: the
/// result is a function of the character alone, which `char_lowercase` names.
#[verifier::external_body]
fn lowercase_of(c: char) -> (lower: Vec<char>)
    ensures
        lower@ == char_lowercase(c),
{
    c.to_lowercase().collect()
}

/// A text with every character in lower case.
pub open spec fn lowercased(s: Seq<char>) -> Seq<char>
    decreases s.len(),
{
    if s.len() == 0 {
        Seq::<char>::empty()
    } else {
        lowercased(s.drop_last()) + char_lowercase(s.last())
    }
}

/// The characters of a text in lower case.
pub fn lowercase_chars(s: &str) -> (lower: Vec<char>)
    ensures
        lower@ == lowercased(s@),
{
    let v = chars_of(s);
    let mut lower: Vec<char> = Vec::new();
    let mut i: usize = 0;
    proof {
        assert(v@.take(0) =~= Seq::<char>::empty());
    }
    while i < v.len()
        invariant
            i <= v@.len(),
            lower@ == lowercased(v@.take(i as int)),
        decreases v@.len() - i,
    {
        let mut piece = lowercase_of(v[i]);
        proof {
            assert(v@.take(i as int + 1).drop_last() =~= v@.take(i as int));
            assert(v@.take(i as int + 1).last() == v@[i as int]);
        }
        lower.append(&mut piece);
        i += 1;
    }
    proof {
        assert(v@.take(v@.len() as int) =~= v@);
    }
    lower
}

/// True if `at` shows where `needle` lies in `hay`: it names, for every
/// character of the needle, a place in the hay that holds it, and the
/// places go from left to right.
pub open spec fn is_embedding(needle: Seq<char>, hay: Seq<char>, at: Seq<int>) -> bool {
    &&& at.len() == needle.len()
    &&& forall|i: int|
        0 <= i < at.len() ==> 0 <= #[trigger] at[i] < hay.len() && hay[at[i]] == needle[i]
    &&& forall|i: int, j: int| 0 <= i < j < at.len() ==> #[trigger] at[i] < #[trigger] at[j]
}

/// True if the characters of `needle` occur in `hay` in their order,
/// with whatever between them.
pub open spec fn is_subsequence(needle: Seq<char>, hay: Seq<char>) -> bool {
    exists|at: Seq<int>| is_embedding(needle, hay, at)
}

/// The leftmost matching finds the longest part of the needle that lies in the hay so far.
proof fn lemma_greedy_step(needle: Seq<char>, hay: Seq<char>, hi: int, qi: int)
    requires
        0 <= hi < hay.len(),
        0 <= qi <= needle.len(),
        forall|k: int, w: Seq<int>|
            0 <= k <= needle.len() && #[trigger] is_embedding(needle.take(k), hay.take(hi), w)
                ==> k <= qi,
    ensures
        forall|k: int, w: Seq<int>|
            0 <= k <= needle.len() && #[trigger] is_embedding(
                needle.take(k),
                hay.take(hi + 1),
                w,
            ) ==> k <= (if qi < needle.len() && hay[hi] == needle[qi] {
                qi + 1
            } else {
                qi
            }),
{
    let qi2 = if qi < needle.len() && hay[hi] == needle[qi] {
        qi + 1
    } else {
        qi
    };
    assert forall|k: int, w: Seq<int>|
        0 <= k <= needle.len() && #[trigger] is_embedding(
            needle.take(k),
            hay.take(hi + 1),
            w,
        ) implies k <= qi2 by {
        if k > 0 {
            if w[k - 1] < hi {
                assert forall|i: int| 0 <= i < w.len() implies 0 <= #[trigger] w[i] < hay.take(
                    hi,
                ).len() && hay.take(hi)[w[i]] == needle.take(k)[i] by {
                    if i < k - 1 {
                        assert(w[i] < w[k - 1]);
                    }
                    assert(hay.take(hi + 1)[w[i]] == needle.take(k)[i]);
                }
                assert(is_embedding(needle.take(k), hay.take(hi), w));
            } else {
                let v = w.take(k - 1);
                assert(w[k - 1] == hi);
                assert forall|i: int| 0 <= i < v.len() implies 0 <= #[trigger] v[i] < hay.take(
                    hi,
                ).len() && hay.take(hi)[v[i]] == needle.take(k - 1)[i] by {
                    assert(v[i] == w[i]);
                    assert(w[i] < w[k - 1]);
                    assert(hay.take(hi + 1)[w[i]] == needle.take(k)[i]);
                }
                assert forall|i: int, j: int| 0 <= i < j < v.len() implies #[trigger] v[i]
                    < #[trigger] v[j] by {
                    assert(w[i] < w[j]);
                }
                assert(is_embedding(needle.take(k - 1), hay.take(hi), v));
                assert(k - 1 <= qi);
                if k - 1 == qi {
                    assert(hay.take(hi + 1)[w[k - 1]] == needle.take(k)[k - 1]);
                }
            }
        }
    }
}

/// Tells whether the characters of `needle` occur in `hay` in their order.
pub fn subsequence_of(needle: &Vec<char>, hay: &Vec<char>) -> (found: bool)
    ensures
        found == is_subsequence(needle@, hay@),
{
    let n = needle.len();
    let mut qi: usize = 0;
    let mut hi: usize = 0;
    let ghost mut at: Seq<int> = Seq::empty();
    proof {
        assert(is_embedding(needle@.take(0), hay@.take(0), at));
        assert forall|k: int, w: Seq<int>|
            0 <= k <= needle@.len() && #[trigger] is_embedding(
                needle@.take(k),
                hay@.take(0),
                w,
            ) implies k <= 0 by {
            if k > 0 {
                assert(0 <= w[0] < hay@.take(0).len());
            }
        }
    }
    while hi < hay.len()
        invariant
            n == needle@.len(),
            qi <= n,
            hi <= hay@.len(),
            is_embedding(needle@.take(qi as int), hay@.take(hi as int), at),
            forall|k: int, w: Seq<int>|
                0 <= k <= needle@.len() && #[trigger] is_embedding(
                    needle@.take(k),
                    hay@.take(hi as int),
                    w,
                ) ==> k <= qi,
        decreases hay@.len() - hi,
    {
        proof {
            lemma_greedy_step(needle@, hay@, hi as int, qi as int);
        }
        let ghost old_at = at;
        if qi < n && hay[hi] == needle[qi] {
            proof {
                at = old_at.push(hi as int);
                let nd = needle@.take(qi as int + 1);
                let hy = hay@.take(hi as int + 1);
                assert forall|i: int| 0 <= i < at.len() implies 0 <= #[trigger] at[i] < hy.len()
                    && hy[at[i]] == nd[i] by {
                    if i < old_at.len() {
                        assert(at[i] == old_at[i]);
                        assert(hay@.take(hi as int)[old_at[i]] == needle@.take(qi as int)[i]);
                    }
                }
                assert forall|i: int, j: int| 0 <= i < j < at.len() implies #[trigger] at[i]
                    < #[trigger] at[j] by {
                    assert(at[i] == old_at[i]);
                    assert(0 <= old_at[i] < hay@.take(hi as int).len());
                    if j < old_at.len() {
                        assert(at[j] == old_at[j]);
                        assert(old_at[i] < old_at[j]);
                    }
                }
            }
            qi += 1;
        } else {
            proof {
                let nd = needle@.take(qi as int);
                let hy = hay@.take(hi as int + 1);
                assert forall|i: int| 0 <= i < at.len() implies 0 <= #[trigger] at[i] < hy.len()
                    && hy[at[i]] == nd[i] by {
                    assert(hay@.take(hi as int)[at[i]] == nd[i]);
                }
            }
        }
        hi += 1;
    }
    proof {
        assert(hay@.take(hay@.len() as int) =~= hay@);
        assert(needle@.take(n as int) =~= needle@);
        if qi < n {
            if is_subsequence(needle@, hay@) {
                let w = choose|w: Seq<int>| is_embedding(needle@, hay@, w);
                assert(is_embedding(needle@.take(n as int), hay@.take(hay@.len() as int), w));
            }
        }
    }
    qi == n
}

/// The loose match of the search: the characters of the query occur in
/// the text in their order, where upper and lower case count as the same.
pub fn fuzzy_match(query: &str, haystack: &str) -> (found: bool)
    ensures
        found == is_subsequence(lowercased(query@), lowercased(haystack@)),
{
    let q = lowercase_chars(query);
    let h = lowercase_chars(haystack);
    subsequence_of(&q, &h)
}

/// An empty query matches every text.
pub proof fn lemma_empty_query_matches(hay: Seq<char>)
    ensures
        is_subsequence(Seq::<char>::empty(), hay),
{
    assert(is_embedding(Seq::<char>::empty(), hay, Seq::<int>::empty()));
}

/// Every text matches itself.
pub proof fn lemma_text_matches_itself(s: Seq<char>)
    ensures
        is_subsequence(s, s),
{
    let at = Seq::new(s.len(), |i: int| i);
    assert(is_embedding(s, s, at));
}

/// What `Path::file_name` finds in a path: its last component, if it has one.
pub uninterp spec fn path_file_name(path: Seq<char>) -> Option<Seq<char>>;

/// Calls `Path::file_name` on the path. Trusted: the result is a function
/// of the path alone, which `path_file_name` names.
#[verifier::external_body]
pub(crate) fn file_name_of(path: &str) -> (name: Option<String>)
    ensures
        name is Some <==> path_file_name(path@) is Some,
        name matches Some(n) ==> n@ == path_file_name(path@)->0,
{
    std::path::Path::new(path).file_name().map(|n| n.to_string_lossy().into_owned())
}

/// The name that a path is searched by: its file name, or the empty text.
pub open spec fn search_name(path: Seq<char>) -> Seq<char> {
    match path_file_name(path) {
        Some(name) => name,
        None => Seq::<char>::empty(),
    }
}

/// True if a path is found by a query: an empty query finds every path,
/// another one the paths whose file name it matches loosely.
pub open spec fn is_found(query: Seq<char>, path: Seq<char>) -> bool {
    query.len() == 0 || is_subsequence(lowercased(query), lowercased(search_name(path)))
}

/// The paths of a list that a query finds, in the order of the list.
pub open spec fn found_among(names: Seq<Seq<char>>, query: Seq<char>) -> Seq<Seq<char>>
    decreases names.len(),
{
    if names.len() == 0 {
        names
    } else if is_found(query, names.last()) {
        found_among(names.drop_last(), query).push(names.last())
    } else {
        found_among(names.drop_last(), query)
    }
}

/// Tells whether a file name is found by a query that is not empty.
pub fn name_matches(query: &Vec<char>, name: Option<&str>) -> (found: bool)
    ensures
        found == is_subsequence(
            query@,
            lowercased(
                match name {
                    Some(n) => n@,
                    None => Seq::<char>::empty(),
                },
            ),
        ),
{
    match name {
        Some(n) => {
            let h = lowercase_chars(n);
            subsequence_of(query, &h)
        },
        None => {
            let h: Vec<char> = Vec::new();
            proof {
                assert(h@ =~= lowercased(Seq::<char>::empty()));
            }
            subsequence_of(query, &h)
        },
    }
}

/// The files that a search finds, in the order of the list: all of them
/// for an empty query, and else those whose file name the query matches loosely.
pub fn filter_files(files: &Vec<String>, query: &str) -> (found: Vec<String>)
    ensures
        track_names(found@) == found_among(track_names(files@), query@),
{
    let ghost names = track_names(files@);
    let q = lowercase_chars(query);
    let all = query.is_empty();
    let mut found: Vec<String> = Vec::new();
    let mut i: usize = 0;
    proof {
        assert(names.take(0) =~= Seq::<Seq<char>>::empty());
        assert(track_names(found@) =~= found_among(names.take(0), query@));
    }
    while i < files.len()
        invariant
            i <= files@.len(),
            names == track_names(files@),
            q@ == lowercased(query@),
            all == (query@.len() == 0),
            track_names(found@) == found_among(names.take(i as int), query@),
        decreases files@.len() - i,
    {
        let path = &files[i];
        let keep = if all {
            true
        } else {
            let name = file_name_of(path.as_str());
            match &name {
                Some(n) => name_matches(&q, Some(n.as_str())),
                None => name_matches(&q, None),
            }
        };
        proof {
            assert(names.take(i as int + 1).drop_last() =~= names.take(i as int));
            assert(names.take(i as int + 1).last() == path@);
            assert(keep == is_found(query@, path@));
        }
        let ghost before = found@;
        if keep {
            let copy = path.clone();
            found.push(copy);
            proof {
                assert(track_names(found@) =~= track_names(before).push(path@));
            }
        }
        i += 1;
    }
    proof {
        assert(names.take(files@.len() as int) =~= names);
    }
    found
}

/// The search of the file browser as a plain value.
pub struct SearchView {
    pub searching: bool,
    pub query: Seq<char>,
    /// The paths that the query finds.
    pub found: Seq<Seq<char>>,
    /// The place of the selected path among the found ones.
    pub index: usize,
}

/// The search of the file browser: the query, what it finds, and which of that is selected.
pub struct BrowserSearch {
    searching: bool,
    query: Vec<char>,
    filtered: Vec<String>,
    index: usize,
}

impl View for BrowserSearch {
    type V = SearchView;

    closed spec fn view(&self) -> SearchView {
        SearchView {
            searching: self.searching,
            query: self.query@,
            found: track_names(self.filtered@),
            index: self.index,
        }
    }
}

/// A search that is closed.
pub open spec fn closed_search() -> SearchView {
    SearchView {
        searching: false,
        query: Seq::<char>::empty(),
        found: Seq::<Seq<char>>::empty(),
        index: 0,
    }
}

impl BrowserSearch {
    /// A search that is closed.
    pub fn new() -> (s: BrowserSearch)
        ensures
            s@ == closed_search(),
    {
        let s = BrowserSearch {
            searching: false,
            query: Vec::new(),
            filtered: Vec::new(),
            index: 0,
        };
        proof {
            assert(track_names(s.filtered@) =~= Seq::<Seq<char>>::empty());
        }
        s
    }

    pub fn is_searching(&self) -> (b: bool)
        ensures
            b == self@.searching,
    {
        self.searching
    }

    /// The query as a text.
    pub fn query(&self) -> (q: String)
        ensures
            q@ == self@.query,
    {
        proof {
            assert(self.query@.subrange(0, self.query@.len() as int) =~= self.query@);
        }
        string_of(&self.query, 0, self.query.len())
    }

    /// The paths that the query finds.
    pub fn found(&self) -> (f: &Vec<String>)
        ensures
            track_names(f@) == self@.found,
    {
        &self.filtered
    }

    pub fn index(&self) -> (i: usize)
        ensures
            i == self@.index,
    {
        self.index
    }

    /// Opens the search with an empty query, which finds every file.
    pub fn open(&mut self, files: &Vec<String>)
        ensures
            final(self)@ == (SearchView {
                searching: true,
                query: Seq::<char>::empty(),
                found: found_among(track_names(files@), Seq::<char>::empty()),
                index: 0,
            }),
    {
        self.searching = true;
        self.query = Vec::new();
        self.refilter(files);
        self.index = 0;
    }

    /// Closes the search and forgets the query.
    pub fn close(&mut self)
        ensures
            final(self)@ == closed_search(),
    {
        self.searching = false;
        self.query = Vec::new();
        self.filtered = Vec::new();
        self.index = 0;
        proof {
            assert(track_names(self.filtered@) =~= Seq::<Seq<char>>::empty());
        }
    }

    /// Finds the files for the query as it is now.
    fn refilter(&mut self, files: &Vec<String>)
        ensures
            final(self).searching == old(self).searching,
            final(self).query == old(self).query,
            final(self).index == old(self).index,
            track_names(final(self).filtered@) == found_among(
                track_names(files@),
                old(self).query@,
            ),
    {
        proof {
            assert(self.query@.subrange(0, self.query@.len() as int) =~= self.query@);
        }
        let q = string_of(&self.query, 0, self.query.len());
        self.filtered = filter_files(files, q.as_str());
    }

    /// Adds a character to the query; the first of what the new query finds is selected.
    pub fn type_char(&mut self, c: char, files: &Vec<String>)
        ensures
            final(self)@ == (SearchView {
                query: old(self)@.query.push(c),
                found: found_among(track_names(files@), old(self)@.query.push(c)),
                index: 0,
                ..old(self)@
            }),
    {
        self.query.push(c);
        self.refilter(files);
        self.index = 0;
    }

    /// Takes the last character off the query; the selection stays where
    /// it is, or goes to the last of what the query finds now.
    pub fn backspace(&mut self, files: &Vec<String>)
        ensures
            final(self)@.searching == old(self)@.searching,
            final(self)@.query == (if old(self)@.query.len() > 0 {
                old(self)@.query.drop_last()
            } else {
                old(self)@.query
            }),
            final(self)@.found == found_among(track_names(files@), final(self)@.query),
            final(self)@.index == (if old(self)@.index >= final(self)@.found.len() {
                if final(self)@.found.len() > 0 {
                    (final(self)@.found.len() - 1) as usize
                } else {
                    0usize
                }
            } else {
                old(self)@.index
            }),
    {
        let _ = self.query.pop();
        self.refilter(files);
        if self.index >= self.filtered.len() {
            self.index = if self.filtered.len() > 0 {
                self.filtered.len() - 1
            } else {
                0
            };
        }
    }

    /// Moves the selection up by one, no further than the first.
    pub fn up(&mut self)
        ensures
            final(self)@ == (SearchView {
                index: if old(self)@.index > 0 {
                    (old(self)@.index - 1) as usize
                } else {
                    0usize
                },
                ..old(self)@
            }),
    {
        if self.index > 0 {
            self.index = self.index - 1;
        }
    }

    /// Moves the selection down by one, no further than the last.
    pub fn down(&mut self)
        ensures
            final(self)@ == (SearchView {
                index: if old(self)@.found.len() == 0 {
                    old(self)@.index
                } else if old(self)@.index + 1 < old(self)@.found.len() {
                    (old(self)@.index + 1) as usize
                } else {
                    (old(self)@.found.len() - 1) as usize
                },
                ..old(self)@
            }),
    {
        let n = self.filtered.len();
        if n > 0 {
            self.index = if self.index < n - 1 {
                self.index + 1
            } else {
                n - 1
            };
        }
    }

    /// The selected path, if one is selected.
    pub fn chosen(&self) -> (path: Option<String>)
        ensures
            path_text(path) == track_at(self@.found, self@.index as int),
    {
        if self.index < self.filtered.len() {
            Some(self.filtered[self.index].clone())
        } else {
            None
        }
    }
}

/// Where an entry of a directory stands relative to another.
#[derive(Clone, Copy, PartialEq, Eq, Structural, Debug)]
pub enum Order {
    Before,
    Same,
    After,
}

/// Where a row of bytes stands relative to another in the order of the
/// dictionary, where upper-case letters count as lower-case ones.
pub open spec fn name_order(a: Seq<u8>, b: Seq<u8>) -> Order
    decreases a.len(),
{
    if a.len() == 0 {
        if b.len() == 0 {
            Order::Same
        } else {
            Order::Before
        }
    } else if b.len() == 0 {
        Order::After
    } else if lower_byte(a[0]) < lower_byte(b[0]) {
        Order::Before
    } else if lower_byte(a[0]) > lower_byte(b[0]) {
        Order::After
    } else {
        name_order(a.drop_first(), b.drop_first())
    }
}

/// A byte with the upper-case letters turned into lower case.
pub open spec fn lower_byte(b: u8) -> u8 {
    if 0x41 <= b && b <= 0x5A {
        (b + 32) as u8
    } else {
        b
    }
}

/// Where an entry stands relative to another in a listing: directories
/// come first, and within both kinds the names go by the dictionary.
pub open spec fn listing_order(a_dir: bool, a_name: Seq<u8>, b_dir: bool, b_name: Seq<u8>) -> Order {
    if a_dir && !b_dir {
        Order::Before
    } else if !a_dir && b_dir {
        Order::After
    } else {
        name_order(a_name, b_name)
    }
}

/// A byte with the upper-case letters turned into lower case.
fn to_lower_byte(b: u8) -> (l: u8)
    ensures
        l == lower_byte(b),
{
    if 0x41 <= b && b <= 0x5A {
        b + 32
    } else {
        b
    }
}

/// Where an entry of a directory stands relative to another in the
/// listing of the file browser.
pub fn entry_order(a_dir: bool, a_name: &[u8], b_dir: bool, b_name: &[u8]) -> (o: Order)
    ensures
        o == listing_order(a_dir, a_name@, b_dir, b_name@),
{
    if a_dir && !b_dir {
        return Order::Before;
    }
    if !a_dir && b_dir {
        return Order::After;
    }
    let mut i: usize = 0;
    proof {
        assert(a_name@.skip(0) =~= a_name@);
        assert(b_name@.skip(0) =~= b_name@);
    }
    while i < a_name.len() && i < b_name.len()
        invariant
            i <= a_name@.len(),
            i <= b_name@.len(),
            a_dir == b_dir,
            name_order(a_name@, b_name@) == name_order(a_name@.skip(i as int), b_name@.skip(i as int)),
        decreases a_name@.len() - i,
    {
        let x = to_lower_byte(a_name[i]);
        let y = to_lower_byte(b_name[i]);
        proof {
            assert(a_name@.skip(i as int).drop_first() =~= a_name@.skip(i as int + 1));
            assert(b_name@.skip(i as int).drop_first() =~= b_name@.skip(i as int + 1));
            assert(a_name@.skip(i as int)[0] == a_name@[i as int]);
            assert(b_name@.skip(i as int)[0] == b_name@[i as int]);
        }
        if x < y {
            return Order::Before;
        }
        if x > y {
            return Order::After;
        }
        i += 1;
    }
    if i < b_name.len() {
        Order::Before
    } else if i < a_name.len() {
        Order::After
    } else {
        Order::Same
    }
}

/// An entry of the tree of the file browser.
pub struct TreeEntry {
    pub path: String,
    /// True if the path names a file that is there.
    pub is_file: bool,
    pub children: Vec<TreeEntry>,
}

/// True if a path counts as an audio file by its extension.
pub open spec fn is_audio_path(path: Seq<char>) -> bool {
    match path_extension(path) {
        Some(ext) => is_audio_extension(ext),
        None => false,
    }
}

/// The audio files of an entry and of what is below it, in the order of the tree.
pub open spec fn audio_files_of(entry: TreeEntry) -> Seq<Seq<char>>
    decreases entry, 1nat, 0nat,
{
    (if entry.is_file && is_audio_path(entry.path@) {
        seq![entry.path@]
    } else {
        Seq::<Seq<char>>::empty()
    }) + audio_files_from(entry, 0)
}

/// The audio files below an entry, from its child `from` on.
pub open spec fn audio_files_from(entry: TreeEntry, from: nat) -> Seq<Seq<char>>
    decreases entry, 0nat, entry.children@.len() - from,
{
    if from >= entry.children@.len() {
        Seq::<Seq<char>>::empty()
    } else {
        audio_files_of(entry.children@[from as int]) + audio_files_from(entry, from + 1)
    }
}

/// The audio files of the first `n` of some entries, in the order of the tree.
pub open spec fn audio_files_among(entries: Seq<TreeEntry>, n: nat) -> Seq<Seq<char>>
    decreases n,
{
    if n == 0 {
        Seq::<Seq<char>>::empty()
    } else {
        audio_files_among(entries, (n - 1) as nat) + audio_files_of(entries[n - 1])
    }
}

/// Appends the audio files of an entry and of what is below it.
fn walk(entry: &TreeEntry, files: &mut Vec<String>)
    ensures
        track_names(final(files)@) == track_names(old(files)@) + audio_files_of(*entry),
    decreases entry,
{
    let ghost start = track_names(files@);
    if entry.is_file && is_audio_file(entry.path.as_str()) {
        files.push(entry.path.clone());
        proof {
            assert(track_names(files@) =~= start + seq![entry.path@]);
        }
    }
    let ghost head = track_names(files@);
    let n = entry.children.len();
    let mut k: usize = 0;
    while k < n
        invariant
            k <= n,
            n == entry.children@.len(),
            track_names(files@) + audio_files_from(*entry, k as nat) == head + audio_files_from(
                *entry,
                0,
            ),
        decreases n - k,
    {
        let ghost before = track_names(files@);
        walk(&entry.children[k], files);
        proof {
            assert(before + audio_files_from(*entry, k as nat) =~= (before + audio_files_of(
                entry.children@[k as int],
            )) + audio_files_from(*entry, k as nat + 1));
        }
        k += 1;
    }
    proof {
        assert(track_names(files@) + audio_files_from(*entry, n as nat) =~= track_names(files@));
        assert(start + audio_files_of(*entry) =~= head + audio_files_from(*entry, 0));
    }
}

/// The audio files of a tree, in the order in which the tree shows them.
pub fn collect_audio_files(entries: &Vec<TreeEntry>) -> (files: Vec<String>)
    ensures
        track_names(files@) == audio_files_among(entries@, entries@.len()),
{
    let mut files: Vec<String> = Vec::new();
    let mut i: usize = 0;
    proof {
        assert(track_names(files@) =~= audio_files_among(entries@, 0));
    }
    while i < entries.len()
        invariant
            i <= entries@.len(),
            track_names(files@) == audio_files_among(entries@, i as nat),
        decreases entries@.len() - i,
    {
        walk(&entries[i], &mut files);
        i += 1;
    }
    files
}

/// The file that is selected in the tree: the last part of the
/// selection, if it is a file that is there and an audio file.
pub fn selected_file(selected: &Vec<String>, last_is_file: bool) -> (path: Option<String>)
    ensures
        path_text(path) == (if selected@.len() > 0 && last_is_file && is_audio_path(
            selected@.last()@,
        ) {
            Some(selected@.last()@)
        } else {
            None
        }),
{
    if selected.len() == 0 {
        return None;
    }
    let last = &selected[selected.len() - 1];
    if last_is_file && is_audio_file(last.as_str()) {
        Some(last.clone())
    } else {
        None
    }
}

} // verus!
