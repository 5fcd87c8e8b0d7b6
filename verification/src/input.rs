//! What the keys and the mouse do: from an event and the state of the
//! screen to the command that it stands for.

use vstd::prelude::*;
use crate::layout::{hit, Rect};

verus! {

/// A key, as far as the player tells keys apart.
#[derive(Clone, Copy, PartialEq, Eq, Structural, Debug)]
pub enum Key {
    Char(char),
    Up,
    Down,
    Left,
    Right,
    Enter,
    Esc,
    Backspace,
    /// Any other key.
    Other,
}

/// The part of the screen that takes the keys.
#[derive(Clone, Copy, PartialEq, Eq, Structural, Debug)]
pub enum Focus {
    /// The search of the file browser.
    Search,
    /// The tree of the file browser.
    Tree,
    Equalizer,
    Player,
}

/// What the player is asked to do.
#[derive(Clone, Copy, PartialEq, Eq, Structural, Debug)]
pub enum Command {
    Nothing,
    Quit,
    SearchClose,
    SearchBackspace,
    SearchUp,
    SearchDown,
    SearchChoose,
    SearchType(char),
    TreeUp,
    TreeDown,
    TreeLeft,
    TreeRight,
    TreeEnter,
    TreeSearch,
    BrowserClose,
    EqLeft,
    EqRight,
    EqRaise,
    EqLower,
    EqNextPreset,
    EqFlat,
    EqToggle,
    EqClose,
    TogglePause,
    VolumeUp,
    VolumeDown,
    SeekForward,
    SeekBack,
    NextVisMode,
    ToggleLyrics,
    LyricsDown,
    LyricsUp,
    OpenBrowser,
    OpenEq,
    NextTrack,
    PrevTrack,
    CycleRepeat,
    ToggleShuffle,
}

/// Number of seconds that the arrow keys seek by.
pub const SEEK_STEP_SECS: i64 = 5;

/// The part of the screen that takes the keys: the file browser while
/// it is open, then the equalizer, then the player.
pub open spec fn focus_of(browser_open: bool, searching: bool, eq_open: bool) -> Focus {
    if browser_open {
        if searching {
            Focus::Search
        } else {
            Focus::Tree
        }
    } else if eq_open {
        Focus::Equalizer
    } else {
        Focus::Player
    }
}

/// The part of the screen that takes the keys.
pub fn focus(browser_open: bool, searching: bool, eq_open: bool) -> (f: Focus)
    ensures
        f == focus_of(browser_open, searching, eq_open),
{
    if browser_open {
        if searching {
            Focus::Search
        } else {
            Focus::Tree
        }
    } else if eq_open {
        Focus::Equalizer
    } else {
        Focus::Player
    }
}

/// What a key does in the search of the file browser.
pub open spec fn search_key(key: Key) -> Command {
    match key {
        Key::Esc => Command::SearchClose,
        Key::Backspace => Command::SearchBackspace,
        Key::Up => Command::SearchUp,
        Key::Down => Command::SearchDown,
        Key::Enter => Command::SearchChoose,
        Key::Char(c) => Command::SearchType(c),
        _ => Command::Nothing,
    }
}

/// What a key does in the tree of the file browser. The browser can be
/// closed only while a track is loaded.
pub open spec fn tree_key(key: Key, track_loaded: bool) -> Command {
    match key {
        Key::Up => Command::TreeUp,
        Key::Down => Command::TreeDown,
        Key::Left => Command::TreeLeft,
        Key::Right => Command::TreeRight,
        Key::Enter => Command::TreeEnter,
        Key::Char(c) => if c == '/' {
            Command::TreeSearch
        } else if c == 'f' && track_loaded {
            Command::BrowserClose
        } else {
            Command::Nothing
        },
        Key::Esc => if track_loaded {
            Command::BrowserClose
        } else {
            Command::Nothing
        },
        _ => Command::Nothing,
    }
}

/// What a key does in the equalizer.
pub open spec fn equalizer_key(key: Key) -> Command {
    match key {
        Key::Left => Command::EqLeft,
        Key::Right => Command::EqRight,
        Key::Up => Command::EqRaise,
        Key::Down => Command::EqLower,
        Key::Esc => Command::EqClose,
        Key::Char(c) => if c == 'p' {
            Command::EqNextPreset
        } else if c == '0' {
            Command::EqFlat
        } else if c == 's' {
            Command::EqToggle
        } else if c == 'e' {
            Command::EqClose
        } else {
            Command::Nothing
        },
        _ => Command::Nothing,
    }
}

/// What a key does in the player. Pausing, seeking and skipping need a
/// loaded track, and the file browser needs a directory to show.
pub open spec fn player_key(key: Key, track_loaded: bool, has_browser: bool) -> Command {
    match key {
        Key::Up => Command::VolumeUp,
        Key::Down => Command::VolumeDown,
        Key::Right => if track_loaded {
            Command::SeekForward
        } else {
            Command::Nothing
        },
        Key::Left => if track_loaded {
            Command::SeekBack
        } else {
            Command::Nothing
        },
        Key::Char(c) => if c == ' ' {
            if track_loaded {
                Command::TogglePause
            } else {
                Command::Nothing
            }
        } else if c == 'v' {
            Command::NextVisMode
        } else if c == 'l' {
            Command::ToggleLyrics
        } else if c == 'j' {
            Command::LyricsDown
        } else if c == 'k' {
            Command::LyricsUp
        } else if c == 'f' {
            if has_browser {
                Command::OpenBrowser
            } else {
                Command::Nothing
            }
        } else if c == 'e' {
            Command::OpenEq
        } else if c == 'n' {
            if track_loaded {
                Command::NextTrack
            } else {
                Command::Nothing
            }
        } else if c == 'N' {
            if track_loaded {
                Command::PrevTrack
            } else {
                Command::Nothing
            }
        } else if c == 'r' {
            Command::CycleRepeat
        } else if c == 's' {
            Command::ToggleShuffle
        } else {
            Command::Nothing
        },
        _ => Command::Nothing,
    }
}

/// What a key does. `q`, and `c` with the control key, leave the player
/// wherever the keys go; every other key goes to the part of the screen
/// that has the focus.
pub open spec fn command_of(
    key: Key,
    control: bool,
    focus: Focus,
    track_loaded: bool,
    has_browser: bool,
) -> Command {
    if key == Key::Char('q') || (key == Key::Char('c') && control) {
        Command::Quit
    } else {
        match focus {
            Focus::Search => search_key(key),
            Focus::Tree => tree_key(key, track_loaded),
            Focus::Equalizer => equalizer_key(key),
            Focus::Player => player_key(key, track_loaded, has_browser),
        }
    }
}

/// The command that a key stands for.
pub fn key_command(
    key: Key,
    control: bool,
    focus: Focus,
    track_loaded: bool,
    has_browser: bool,
) -> (command: Command)
    ensures
        command == command_of(key, control, focus, track_loaded, has_browser),
{
    match key {
        Key::Char(c) => {
            if c == 'q' || (c == 'c' && control) {
                return Command::Quit;
            }
        },
        _ => {},
    }
    match focus {
        Focus::Search => match key {
            Key::Esc => Command::SearchClose,
            Key::Backspace => Command::SearchBackspace,
            Key::Up => Command::SearchUp,
            Key::Down => Command::SearchDown,
            Key::Enter => Command::SearchChoose,
            Key::Char(c) => Command::SearchType(c),
            _ => Command::Nothing,
        },
        Focus::Tree => match key {
            Key::Up => Command::TreeUp,
            Key::Down => Command::TreeDown,
            Key::Left => Command::TreeLeft,
            Key::Right => Command::TreeRight,
            Key::Enter => Command::TreeEnter,
            Key::Char(c) => {
                if c == '/' {
                    Command::TreeSearch
                } else if c == 'f' && track_loaded {
                    Command::BrowserClose
                } else {
                    Command::Nothing
                }
            },
            Key::Esc => {
                if track_loaded {
                    Command::BrowserClose
                } else {
                    Command::Nothing
                }
            },
            _ => Command::Nothing,
        },
        Focus::Equalizer => match key {
            Key::Left => Command::EqLeft,
            Key::Right => Command::EqRight,
            Key::Up => Command::EqRaise,
            Key::Down => Command::EqLower,
            Key::Esc => Command::EqClose,
            Key::Char(c) => {
                if c == 'p' {
                    Command::EqNextPreset
                } else if c == '0' {
                    Command::EqFlat
                } else if c == 's' {
                    Command::EqToggle
                } else if c == 'e' {
                    Command::EqClose
                } else {
                    Command::Nothing
                }
            },
            _ => Command::Nothing,
        },
        Focus::Player => match key {
            Key::Up => Command::VolumeUp,
            Key::Down => Command::VolumeDown,
            Key::Right => {
                if track_loaded {
                    Command::SeekForward
                } else {
                    Command::Nothing
                }
            },
            Key::Left => {
                if track_loaded {
                    Command::SeekBack
                } else {
                    Command::Nothing
                }
            },
            Key::Char(c) => {
                if c == ' ' {
                    if track_loaded {
                        Command::TogglePause
                    } else {
                        Command::Nothing
                    }
                } else if c == 'v' {
                    Command::NextVisMode
                } else if c == 'l' {
                    Command::ToggleLyrics
                } else if c == 'j' {
                    Command::LyricsDown
                } else if c == 'k' {
                    Command::LyricsUp
                } else if c == 'f' {
                    if has_browser {
                        Command::OpenBrowser
                    } else {
                        Command::Nothing
                    }
                } else if c == 'e' {
                    Command::OpenEq
                } else if c == 'n' {
                    if track_loaded {
                        Command::NextTrack
                    } else {
                        Command::Nothing
                    }
                } else if c == 'N' {
                    if track_loaded {
                        Command::PrevTrack
                    } else {
                        Command::Nothing
                    }
                } else if c == 'r' {
                    Command::CycleRepeat
                } else if c == 's' {
                    Command::ToggleShuffle
                } else {
                    Command::Nothing
                }
            },
            _ => Command::Nothing,
        },
    }
}

/// Where the parts of the player were drawn last.
#[derive(Clone, Copy, Debug)]
pub struct LayoutRegions {
    pub now_playing: Rect,
    pub progress: Rect,
    pub volume: Rect,
    pub visualizer: Rect,
    pub lyrics: Rect,
    pub lyrics_title: Rect,
    pub eq_inner: Rect,
}

/// What the left mouse button points at in the player.
#[derive(Clone, Copy, PartialEq, Eq, Structural, Debug)]
pub enum ClickTarget {
    NowPlaying,
    Progress,
    Volume,
    /// The lyrics panel, to fold or unfold it.
    LyricsToggle,
    Visualizer,
    Nowhere,
}

/// What a click at a cell points at: the first of the panel of the
/// track, the progress bar, the volume bar, the lyrics and the display
/// that holds the cell. The folded lyrics panel unfolds at a click
/// anywhere on it, the unfolded one folds at a click on its title.
pub open spec fn click_target_of(
    regions: LayoutRegions,
    lyrics_visible: bool,
    col: u16,
    row: u16,
) -> ClickTarget {
    if regions.now_playing.contains(col, row) {
        ClickTarget::NowPlaying
    } else if regions.progress.contains(col, row) {
        ClickTarget::Progress
    } else if regions.volume.contains(col, row) {
        ClickTarget::Volume
    } else if (!lyrics_visible && regions.lyrics.contains(col, row)) || (lyrics_visible
        && regions.lyrics_title.contains(col, row)) {
        ClickTarget::LyricsToggle
    } else if regions.visualizer.contains(col, row) {
        ClickTarget::Visualizer
    } else {
        ClickTarget::Nowhere
    }
}

/// What a click of the left mouse button in the player points at.
pub fn click_target(regions: &LayoutRegions, lyrics_visible: bool, col: u16, row: u16) -> (target:
    ClickTarget)
    ensures
        target == click_target_of(*regions, lyrics_visible, col, row),
{
    if hit(regions.now_playing, col, row) {
        ClickTarget::NowPlaying
    } else if hit(regions.progress, col, row) {
        ClickTarget::Progress
    } else if hit(regions.volume, col, row) {
        ClickTarget::Volume
    } else if (!lyrics_visible && hit(regions.lyrics, col, row)) || (lyrics_visible && hit(
        regions.lyrics_title,
        col,
        row,
    )) {
        ClickTarget::LyricsToggle
    } else if hit(regions.visualizer, col, row) {
        ClickTarget::Visualizer
    } else {
        ClickTarget::Nowhere
    }
}

/// What the wheel does in the player.
#[derive(Clone, Copy, PartialEq, Eq, Structural, Debug)]
pub enum WheelTarget {
    /// The lyrics scroll.
    Lyrics,
    /// The volume changes.
    Volume,
}

/// What the wheel turns in the player: the lyrics while the pointer is
/// over the unfolded panel, and the volume everywhere else.
pub fn wheel_target(regions: &LayoutRegions, lyrics_visible: bool, col: u16, row: u16) -> (target:
    WheelTarget)
    ensures
        target == (if lyrics_visible && regions.lyrics.contains(col, row) {
            WheelTarget::Lyrics
        } else {
            WheelTarget::Volume
        }),
{
    if lyrics_visible && hit(regions.lyrics, col, row) {
        WheelTarget::Lyrics
    } else {
        WheelTarget::Volume
    }
}

} // verus!
