//! What is known of a track apart from its samples: the tags that the
//! player shows, and the ReplayGain that it normalizes with.

use vstd::prelude::*;
use crate::settings::{parse_centi, read_centi};
use crate::text::{chars_of, trim, trim_range};

verus! {

/// The tags of a track that the player shows.
#[derive(Clone, Debug)]
pub struct TrackMeta {
    pub title: Option<String>,
    pub artist: Option<String>,
    pub album: Option<String>,
    pub date: Option<String>,
    pub genre: Option<String>,
}

impl Default for TrackMeta {
    /// No tag is known.
    fn default() -> (m: TrackMeta)
        ensures
            m.title is None,
            m.artist is None,
            m.album is None,
            m.date is None,
            m.genre is None,
    {
        TrackMeta { title: None, artist: None, album: None, date: None, genre: None }
    }
}

/// The meaning of a tag, as far as the player cares.
#[derive(Clone, Copy, PartialEq, Eq, Structural, Debug)]
pub enum TagKey {
    TrackTitle,
    Artist,
    AlbumArtist,
    Album,
    Date,
    Genre,
    ReplayGainTrackGain,
    ReplayGainAlbumGain,
    /// Any other tag.
    Other,
}

/// One tag of a track.
#[derive(Clone, Debug)]
pub struct Tag {
    pub key: TagKey,
    /// The value, if it is a text.
    pub value: Option<String>,
}

/// The largest ReplayGain that is read, in hundredths of a decibel.
pub const GAIN_LIMIT: i32 = 1_000_000;

/// `s` without the suffix `ab`, however often it stands at the end.
pub open spec fn strip_pairs(s: Seq<char>, a: char, b: char) -> Seq<char>
    decreases s.len(),
{
    if s.len() >= 2 && s[s.len() - 2] == a && s[s.len() - 1] == b {
        strip_pairs(s.take(s.len() - 2), a, b)
    } else {
        s
    }
}

/// The number in a ReplayGain text such as `-6.5 dB` or `-6.5`: the
/// unit, written `dB` or `db`, and white space are taken off.
pub open spec fn gain_body(s: Seq<char>) -> Seq<char> {
    strip_pairs(strip_pairs(trim(s), 'd', 'B'), 'd', 'b')
}

/// What a ReplayGain text stands for, in hundredths of a decibel and
/// limited to `GAIN_LIMIT` up and down.
pub open spec fn gain_of_text(s: Seq<char>) -> Option<int> {
    match parse_centi(gain_body(s)) {
        Some(v) => Some(
            if v > GAIN_LIMIT {
                GAIN_LIMIT as int
            } else if v < -GAIN_LIMIT {
                -GAIN_LIMIT as int
            } else {
                v
            },
        ),
        None => None,
    }
}

/// The end of `v[from..to]` without the suffix `ab`, however often it stands there.
fn strip_pairs_range(v: &Vec<char>, from: usize, to: usize, a: char, b: char) -> (end: usize)
    requires
        from <= to <= v@.len(),
    ensures
        from <= end <= to,
        v@.subrange(from as int, end as int) == strip_pairs(
            v@.subrange(from as int, to as int),
            a,
            b,
        ),
{
    let mut end: usize = to;
    while end - from >= 2 && v[end - 2] == a && v[end - 1] == b
        invariant
            from <= end <= to <= v@.len(),
            strip_pairs(v@.subrange(from as int, end as int), a, b) == strip_pairs(
                v@.subrange(from as int, to as int),
                a,
                b,
            ),
        decreases end - from,
    {
        proof {
            let s = v@.subrange(from as int, end as int);
            assert(s.take(s.len() - 2) =~= v@.subrange(from as int, end as int - 2));
        }
        end -= 2;
    }
    end
}

/// Reads a ReplayGain text such as `-6.5 dB` or `-6.5`, in hundredths of a decibel.
pub fn parse_gain_db(s: &str) -> (r: Option<i32>)
    ensures
        r is Some <==> gain_of_text(s@) is Some,
        r matches Some(g) ==> g as int == gain_of_text(s@)->0,
{
    let v = chars_of(s);
    proof {
        assert(v@.subrange(0, v@.len() as int) =~= v@);
    }
    let (a, b) = trim_range(&v, 0, v.len());
    let b1 = strip_pairs_range(&v, a, b, 'd', 'B');
    let b2 = strip_pairs_range(&v, a, b1, 'd', 'b');
    read_centi(&v, a, b2, GAIN_LIMIT)
}

/// The text of an optional string.
pub open spec fn opt_text(s: Option<String>) -> Option<Seq<char>> {
    match s {
        Some(t) => Some(t@),
        None => None,
    }
}

/// The value of the first tag with key `a` or `b` whose value is a text.
pub open spec fn first_text(tags: Seq<Tag>, a: TagKey, b: TagKey) -> Option<Seq<char>>
    decreases tags.len(),
{
    if tags.len() == 0 {
        None
    } else if (tags[0].key == a || tags[0].key == b) && tags[0].value is Some {
        Some(tags[0].value->0@)
    } else {
        first_text(tags.drop_first(), a, b)
    }
}

/// The gain of the first tag with key `key` whose value is a text that reads as a gain.
pub open spec fn first_gain(tags: Seq<Tag>, key: TagKey) -> Option<int>
    decreases tags.len(),
{
    if tags.len() == 0 {
        None
    } else if tags[0].key == key && tags[0].value is Some && gain_of_text(tags[0].value->0@)
        is Some {
        gain_of_text(tags[0].value->0@)
    } else {
        first_gain(tags.drop_first(), key)
    }
}

/// The ReplayGain of a track: the gain of the track where the tags give
/// one, and else that of its album.
pub open spec fn replay_gain(tags: Seq<Tag>) -> Option<int> {
    match first_gain(tags, TagKey::ReplayGainTrackGain) {
        Some(g) => Some(g),
        None => first_gain(tags, TagKey::ReplayGainAlbumGain),
    }
}

/// What the tags of a track tell.
#[derive(Clone, Debug)]
pub struct ProbeTags {
    pub meta: TrackMeta,
    /// ReplayGain in hundredths of a decibel.
    pub replay_gain: Option<i32>,
}

/// The value of the first tag with key `a` or `b` whose value is a text.
fn find_text(tags: &Vec<Tag>, a: TagKey, b: TagKey) -> (r: Option<String>)
    ensures
        opt_text(r) == first_text(tags@, a, b),
{
    let mut i: usize = 0;
    proof {
        assert(tags@.skip(0) =~= tags@);
    }
    while i < tags.len()
        invariant
            i <= tags@.len(),
            first_text(tags@, a, b) == first_text(tags@.skip(i as int), a, b),
        decreases tags@.len() - i,
    {
        proof {
            assert(tags@.skip(i as int).drop_first() =~= tags@.skip(i as int + 1));
        }
        if tags[i].key == a || tags[i].key == b {
            match &tags[i].value {
                Some(text) => {
                    return Some(text.clone());
                },
                None => {},
            }
        }
        i += 1;
    }
    None
}

/// The gain of the first tag with key `key` whose value reads as a gain.
fn find_gain(tags: &Vec<Tag>, key: TagKey) -> (r: Option<i32>)
    ensures
        r is Some <==> first_gain(tags@, key) is Some,
        r matches Some(g) ==> g as int == first_gain(tags@, key)->0,
{
    let mut i: usize = 0;
    proof {
        assert(tags@.skip(0) =~= tags@);
    }
    while i < tags.len()
        invariant
            i <= tags@.len(),
            first_gain(tags@, key) == first_gain(tags@.skip(i as int), key),
        decreases tags@.len() - i,
    {
        proof {
            assert(tags@.skip(i as int).drop_first() =~= tags@.skip(i as int + 1));
        }
        if tags[i].key == key {
            match &tags[i].value {
                Some(text) => {
                    match parse_gain_db(text.as_str()) {
                        Some(g) => {
                            return Some(g);
                        },
                        None => {},
                    }
                },
                None => {},
            }
        }
        i += 1;
    }
    None
}

/// Gathers what the tags of a track tell. Of several tags with the
/// same meaning the first that has a usable value counts; an album
/// artist counts as an artist; the gain of the track goes before that of
/// the album.
pub fn probe_tags(tags: &Vec<Tag>) -> (r: ProbeTags)
    ensures
        opt_text(r.meta.title) == first_text(tags@, TagKey::TrackTitle, TagKey::TrackTitle),
        opt_text(r.meta.artist) == first_text(tags@, TagKey::Artist, TagKey::AlbumArtist),
        opt_text(r.meta.album) == first_text(tags@, TagKey::Album, TagKey::Album),
        opt_text(r.meta.date) == first_text(tags@, TagKey::Date, TagKey::Date),
        opt_text(r.meta.genre) == first_text(tags@, TagKey::Genre, TagKey::Genre),
        r.replay_gain is Some <==> replay_gain(tags@) is Some,
        r.replay_gain matches Some(g) ==> g as int == replay_gain(tags@)->0,
{
    let meta = TrackMeta {
        title: find_text(tags, TagKey::TrackTitle, TagKey::TrackTitle),
        artist: find_text(tags, TagKey::Artist, TagKey::AlbumArtist),
        album: find_text(tags, TagKey::Album, TagKey::Album),
        date: find_text(tags, TagKey::Date, TagKey::Date),
        genre: find_text(tags, TagKey::Genre, TagKey::Genre),
    };
    let replay_gain = match find_gain(tags, TagKey::ReplayGainTrackGain) {
        Some(g) => Some(g),
        None => find_gain(tags, TagKey::ReplayGainAlbumGain),
    };
    ProbeTags { meta, replay_gain }
}

} // verus!
