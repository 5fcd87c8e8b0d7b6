//! The ordering policy: which track follows or precedes the current one,
//! given the linear order of the tracks, the repeat mode and the shuffle
//! permutation.

use vstd::prelude::*;

verus! {

/// What happens at the end of a track or of the list.
#[derive(Clone, Copy, PartialEq, Eq, Structural, Debug)]
pub enum RepeatMode {
    /// Play the list once.
    Off,
    /// Start over after the last track.
    All,
    /// Play the current track again.
    One,
}

impl RepeatMode {
    /// The mode that follows `self` in the cycle off, all, one, off.
    pub open spec fn spec_next(self) -> RepeatMode {
        match self {
            RepeatMode::Off => RepeatMode::All,
            RepeatMode::All => RepeatMode::One,
            RepeatMode::One => RepeatMode::Off,
        }
    }

    /// The text that the controls show for the mode.
    pub open spec fn spec_label(self) -> Seq<char> {
        match self {
            RepeatMode::Off => "Repeat Off"@,
            RepeatMode::All => "Repeat All"@,
            RepeatMode::One => "Repeat One"@,
        }
    }

    #[verifier::when_used_as_spec(spec_next)]
    pub fn next(self) -> (r: RepeatMode)
        ensures
            r == self.spec_next(),
    {
        match self {
            RepeatMode::Off => RepeatMode::All,
            RepeatMode::All => RepeatMode::One,
            RepeatMode::One => RepeatMode::Off,
        }
    }

    pub fn label(self) -> (r: &'static str)
        ensures
            r@ == self.spec_label(),
    {
        match self {
            RepeatMode::Off => "Repeat Off",
            RepeatMode::All => "Repeat All",
            RepeatMode::One => "Repeat One",
        }
    }
}

/// The paths of the tracks as texts.
pub open spec fn track_names(files: Seq<String>) -> Seq<Seq<char>> {
    Seq::new(files.len(), |i: int| files[i]@)
}

/// The text of an optional path.
pub open spec fn path_text(path: Option<String>) -> Option<Seq<char>> {
    match path {
        Some(p) => Some(p@),
        None => None,
    }
}

/// The track at place `i` of the list, if there is one.
pub open spec fn track_at(names: Seq<Seq<char>>, i: int) -> Option<Seq<char>> {
    if 0 <= i < names.len() {
        Some(names[i])
    } else {
        None
    }
}

/// True if `i` is the first place of the list that holds `current`.
pub open spec fn is_list_place(names: Seq<Seq<char>>, current: Seq<char>, i: int) -> bool {
    &&& 0 <= i < names.len()
    &&& names[i] == current
    &&& forall|j: int| 0 <= j < i ==> names[j] != current
}

/// The first place of the list that holds `current`.
pub open spec fn list_place(names: Seq<Seq<char>>, current: Seq<char>) -> Option<int> {
    if exists|i: int| is_list_place(names, current, i) {
        Some(choose|i: int| is_list_place(names, current, i))
    } else {
        None
    }
}

/// True if slot `p` of the shuffle order points at `current`.
pub open spec fn slot_holds(
    names: Seq<Seq<char>>,
    order: Seq<usize>,
    current: Seq<char>,
    p: int,
) -> bool {
    &&& 0 <= p < order.len()
    &&& order[p] < names.len()
    &&& names[order[p] as int] == current
}

/// True if `p` is the first slot of the shuffle order that points at `current`.
pub open spec fn is_shuffle_place(
    names: Seq<Seq<char>>,
    order: Seq<usize>,
    current: Seq<char>,
    p: int,
) -> bool {
    &&& slot_holds(names, order, current, p)
    &&& forall|q: int| 0 <= q < p ==> !slot_holds(names, order, current, q)
}

/// The first slot of the shuffle order that points at `current`.
pub open spec fn shuffle_place(
    names: Seq<Seq<char>>,
    order: Seq<usize>,
    current: Seq<char>,
) -> Option<int> {
    if exists|p: int| is_shuffle_place(names, order, current, p) {
        Some(choose|p: int| is_shuffle_place(names, order, current, p))
    } else {
        None
    }
}

/// The track that follows `current`.
///
/// With repeat one it is the current track, whatever the list holds.
/// With shuffle on (and an order at hand) it is the track of the next
/// slot of the shuffle order, and otherwise the next track of the list;
/// after the last one comes the first again if repeat is all, and
/// nothing if repeat is off. Nothing follows a track that is not found,
/// and so nothing follows in an empty list.
pub open spec fn next_track(
    names: Seq<Seq<char>>,
    current: Seq<char>,
    repeat: RepeatMode,
    shuffle: bool,
    order: Seq<usize>,
) -> Option<Seq<char>> {
    if repeat == RepeatMode::One {
        Some(current)
    } else if names.len() == 0 {
        None
    } else if shuffle && order.len() > 0 {
        match shuffle_place(names, order, current) {
            Some(p) => if p + 1 < order.len() {
                track_at(names, order[p + 1] as int)
            } else if repeat == RepeatMode::All {
                track_at(names, order[0] as int)
            } else {
                None
            },
            None => None,
        }
    } else {
        match list_place(names, current) {
            Some(i) => if i + 1 < names.len() {
                Some(names[i + 1])
            } else if repeat == RepeatMode::All {
                Some(names[0])
            } else {
                None
            },
            None => None,
        }
    }
}

/// The track that precedes `current`: as `next_track`, in the other
/// direction, where before the first one comes the last.
pub open spec fn prev_track(
    names: Seq<Seq<char>>,
    current: Seq<char>,
    repeat: RepeatMode,
    shuffle: bool,
    order: Seq<usize>,
) -> Option<Seq<char>> {
    if repeat == RepeatMode::One {
        Some(current)
    } else if names.len() == 0 {
        None
    } else if shuffle && order.len() > 0 {
        match shuffle_place(names, order, current) {
            Some(p) => if p > 0 {
                track_at(names, order[p - 1] as int)
            } else if repeat == RepeatMode::All {
                track_at(names, order[order.len() - 1] as int)
            } else {
                None
            },
            None => None,
        }
    } else {
        match list_place(names, current) {
            Some(i) => if i > 0 {
                Some(names[i - 1])
            } else if repeat == RepeatMode::All {
                Some(names[names.len() - 1])
            } else {
                None
            },
            None => None,
        }
    }
}

/// The first place of the list that holds `current`.
fn find_in_list(files: &Vec<String>, current: &String) -> (r: Option<usize>)
    ensures
        match r {
            Some(i) => list_place(track_names(files@), current@) == Some(i as int),
            None => list_place(track_names(files@), current@) is None,
        },
{
    let ghost names = track_names(files@);
    let mut i: usize = 0;
    while i < files.len()
        invariant
            i <= files@.len(),
            names == track_names(files@),
            forall|j: int| 0 <= j < i ==> names[j] != current@,
        decreases files@.len() - i,
    {
        if files[i] == *current {
            assert(is_list_place(names, current@, i as int));
            return Some(i);
        }
        i += 1;
    }
    None
}

/// The first slot of the shuffle order that points at `current`.
fn find_in_order(files: &Vec<String>, order: &Vec<usize>, current: &String) -> (r: Option<usize>)
    ensures
        match r {
            Some(p) => shuffle_place(track_names(files@), order@, current@) == Some(p as int),
            None => shuffle_place(track_names(files@), order@, current@) is None,
        },
{
    let ghost names = track_names(files@);
    let mut p: usize = 0;
    while p < order.len()
        invariant
            p <= order@.len(),
            names == track_names(files@),
            forall|q: int| 0 <= q < p ==> !slot_holds(names, order@, current@, q),
        decreases order@.len() - p,
    {
        let at = order[p];
        if at < files.len() && files[at] == *current {
            assert(is_shuffle_place(names, order@, current@, p as int));
            return Some(p);
        }
        p += 1;
    }
    None
}

/// With repeat one, the track that follows the current one and the track
/// that precedes it are the current track itself: whatever the list
/// holds, and whether shuffle is on or not.
pub proof fn lemma_repeat_one_stays(
    names: Seq<Seq<char>>,
    current: Seq<char>,
    shuffle: bool,
    order: Seq<usize>,
)
    ensures
        next_track(names, current, RepeatMode::One, shuffle, order) == Some(current),
        prev_track(names, current, RepeatMode::One, shuffle, order) == Some(current),
{
}

/// A copy of the path at place `i`, if the list has such a place.
fn path_at(files: &Vec<String>, i: usize) -> (r: Option<String>)
    ensures
        path_text(r) == track_at(track_names(files@), i as int),
{
    if i < files.len() {
        Some(files[i].clone())
    } else {
        None
    }
}

/// The path of the track that follows `current`, by the ordering policy.
pub fn find_next_path(
    files: &Vec<String>,
    current: &String,
    repeat: RepeatMode,
    shuffle: bool,
    order: &Vec<usize>,
) -> (r: Option<String>)
    ensures
        path_text(r) == next_track(track_names(files@), current@, repeat, shuffle, order@),
{
    if repeat == RepeatMode::One {
        return Some(current.clone());
    }
    if files.len() == 0 {
        return None;
    }
    if shuffle && order.len() > 0 {
        match find_in_order(files, order, current) {
            Some(p) => {
                if p + 1 < order.len() {
                    path_at(files, order[p + 1])
                } else if repeat == RepeatMode::All {
                    path_at(files, order[0])
                } else {
                    None
                }
            },
            None => None,
        }
    } else {
        match find_in_list(files, current) {
            Some(i) => {
                if i + 1 < files.len() {
                    path_at(files, i + 1)
                } else if repeat == RepeatMode::All {
                    path_at(files, 0)
                } else {
                    None
                }
            },
            None => None,
        }
    }
}

/// The path of the track that precedes `current`, by the ordering policy.
pub fn find_prev_path(
    files: &Vec<String>,
    current: &String,
    repeat: RepeatMode,
    shuffle: bool,
    order: &Vec<usize>,
) -> (r: Option<String>)
    ensures
        path_text(r) == prev_track(track_names(files@), current@, repeat, shuffle, order@),
{
    if repeat == RepeatMode::One {
        return Some(current.clone());
    }
    if files.len() == 0 {
        return None;
    }
    if shuffle && order.len() > 0 {
        match find_in_order(files, order, current) {
            Some(p) => {
                if p > 0 {
                    path_at(files, order[p - 1])
                } else if repeat == RepeatMode::All {
                    path_at(files, order[order.len() - 1])
                } else {
                    None
                }
            },
            None => None,
        }
    } else {
        match find_in_list(files, current) {
            Some(i) => {
                if i > 0 {
                    path_at(files, i - 1)
                } else if repeat == RepeatMode::All {
                    path_at(files, files.len() - 1)
                } else {
                    None
                }
            },
            None => None,
        }
    }
}

} // verus!
