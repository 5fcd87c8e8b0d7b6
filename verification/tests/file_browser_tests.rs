use tui_player::file_browser::{
    audio_extension, collect_audio_files, entry_order, filter_files, fuzzy_match,
    has_audio_extension, is_audio_file, lowercase_chars, selected_file, subsequence_of,
    BrowserSearch, Order, TreeEntry,
};

fn names(list: &[&str]) -> Vec<String> {
    list.iter().map(|s| s.to_string()).collect()
}

fn chars(s: &str) -> Vec<char> {
    s.chars().collect()
}

fn file(path: &str) -> TreeEntry {
    TreeEntry { path: path.to_string(), is_file: true, children: Vec::new() }
}

fn dir(path: &str, children: Vec<TreeEntry>) -> TreeEntry {
    TreeEntry { path: path.to_string(), is_file: false, children }
}

#[test]
fn audio_files_go_by_their_extension() {
    for path in ["/a/b.mp3", "B.FLAC", "x.Ogg", "a.wav", "a.aac", "a.m4a", "dir.d/a.b.mp3", "\u{e4}.mp3", "a.mp3/", "..mp3"] {
        assert!(is_audio_file(path), "{path}");
    }
    for path in ["x.txt", "noext", ".mp3", "a.mp3.bak", "a.mp3/b", "a.mp3/..", "", "/", "a.mp4", "a.mp3 ", "a.", "a.MP3x"] {
        assert!(!is_audio_file(path), "{path}");
    }
}

#[test]
fn audio_extensions_in_any_case() {
    assert_eq!(audio_extension(0), "mp3");
    assert_eq!(audio_extension(5), "m4a");
    assert!(has_audio_extension("mp3"));
    assert!(has_audio_extension("Mp3"));
    assert!(has_audio_extension("FLAC"));
    assert!(!has_audio_extension("mp"));
    assert!(!has_audio_extension("mp33"));
    assert!(!has_audio_extension(""));
    assert!(!has_audio_extension("m\u{212a}a"));
}

#[test]
fn fuzzy_match_takes_the_characters_in_order() {
    assert!(fuzzy_match("abc", "aXbXc"));
    assert!(fuzzy_match("abc", "abc"));
    assert!(!fuzzy_match("abc", "acb"));
    assert!(!fuzzy_match("abc", "ab"));
    assert!(fuzzy_match("", "x"));
    assert!(fuzzy_match("", ""));
    assert!(!fuzzy_match("a", ""));
    assert!(fuzzy_match("aa", "aba"));
    assert!(!fuzzy_match("aa", "ab"));
}

#[test]
fn fuzzy_match_ignores_case() {
    assert!(fuzzy_match("ABC", "abc"));
    assert!(fuzzy_match("abc", "A-B-C"));
    assert!(fuzzy_match("\u{c4}", "\u{e4}"));
    assert!(fuzzy_match("queen", "01 - Queen - Bohemian Rhapsody.mp3"));
    assert_eq!(lowercase_chars("AbC\u{c4}"), chars("abc\u{e4}"));
    assert_eq!(lowercase_chars("\u{130}"), chars("i\u{307}"));
}

#[test]
fn subsequence_is_exact() {
    assert!(subsequence_of(&chars("ace"), &chars("abcde")));
    assert!(!subsequence_of(&chars("aec"), &chars("abcde")));
    assert!(!subsequence_of(&chars("A"), &chars("a")));
}

#[test]
fn filter_files_matches_file_names_only() {
    let files = names(&["/music/abc/one.mp3", "/music/two.flac", "/music/x/a-b-c.ogg", "/music/Three.wav"]);
    assert_eq!(filter_files(&files, ""), files);
    assert_eq!(filter_files(&files, "abc"), names(&["/music/x/a-b-c.ogg"]));
    assert_eq!(filter_files(&files, "T"), names(&["/music/two.flac", "/music/Three.wav"]));
    assert_eq!(filter_files(&files, "music"), Vec::<String>::new());
    assert_eq!(filter_files(&files, "o"), names(&["/music/abc/one.mp3", "/music/two.flac", "/music/x/a-b-c.ogg"]));
    assert_eq!(filter_files(&Vec::new(), "x"), Vec::<String>::new());
}

#[test]
fn browser_search_follows_the_keys() {
    let files = names(&["/m/alpha.mp3", "/m/beta.mp3", "/m/gamma.mp3", "/m/delta.mp3"]);
    let mut s = BrowserSearch::new();
    assert!(!s.is_searching());
    assert_eq!(s.chosen(), None);
    s.open(&files);
    assert!(s.is_searching());
    assert_eq!(s.query(), "");
    assert_eq!(*s.found(), files);
    assert_eq!(s.index(), 0);
    s.up();
    assert_eq!(s.index(), 0);
    s.down();
    s.down();
    s.down();
    s.down();
    assert_eq!(s.index(), 3);
    assert_eq!(s.chosen(), Some("/m/delta.mp3".to_string()));
    s.type_char('t', &files);
    assert_eq!(s.query(), "t");
    assert_eq!(*s.found(), names(&["/m/beta.mp3", "/m/delta.mp3"]));
    assert_eq!(s.index(), 0);
    s.down();
    assert_eq!(s.chosen(), Some("/m/delta.mp3".to_string()));
    s.type_char('z', &files);
    assert!(s.found().is_empty());
    assert_eq!(s.chosen(), None);
    s.down();
    assert_eq!(s.index(), 0);
    s.backspace(&files);
    assert_eq!(s.query(), "t");
    assert_eq!(s.found().len(), 2);
    s.down();
    assert_eq!(s.index(), 1);
    s.type_char('a', &files);
    s.backspace(&files);
    assert_eq!(s.index(), 0);
    s.backspace(&files);
    s.backspace(&files);
    assert_eq!(s.query(), "");
    assert_eq!(s.found().len(), 4);
    s.close();
    assert!(!s.is_searching());
    assert!(s.found().is_empty());
    assert_eq!(s.index(), 0);
}

#[test]
fn browser_search_backspace_pulls_the_selection_back() {
    let files = names(&["/m/ab.mp3", "/m/b.mp3", "/m/c.mp3"]);
    let mut s = BrowserSearch::new();
    s.open(&files);
    s.down();
    s.down();
    assert_eq!(s.index(), 2);
    // nothing to take off: all files stay, and the selection too
    s.backspace(&files);
    assert_eq!(s.index(), 2);
    assert_eq!(s.found().len(), 3);
    // fewer files than before: the selection goes to the last
    s.backspace(&names(&["/m/ab.mp3"]));
    assert_eq!(s.index(), 0);
}

#[test]
fn listing_puts_directories_first_and_ignores_case() {
    assert!(entry_order(true, b"zz", false, b"aa") == Order::Before);
    assert!(entry_order(false, b"aa", true, b"zz") == Order::After);
    assert!(entry_order(false, b"abc", false, b"ABD") == Order::Before);
    assert!(entry_order(true, b"B", true, b"a") == Order::After);
    assert!(entry_order(true, b"same", true, b"SAME") == Order::Same);
    assert!(entry_order(false, b"ab", false, b"abc") == Order::Before);
    assert!(entry_order(false, b"abc", false, b"ab") == Order::After);
    assert!(entry_order(false, b"", false, b"") == Order::Same);
    assert!(entry_order(false, b"_", false, b"a") == Order::Before);
    assert!(entry_order(false, b"[a", false, b"a") == Order::Before);
    assert!(entry_order(false, b"\xc3\xa4", false, b"z") == Order::After);
}

#[test]
fn tree_is_flattened_in_its_order() {
    let tree = vec![
        dir("/m/a", vec![
            file("/m/a/1.mp3"),
            dir("/m/a/sub", vec![file("/m/a/sub/2.flac"), file("/m/a/sub/cover.jpg")]),
            file("/m/a/3.ogg"),
        ]),
        dir("/m/empty.mp3", vec![]),
        file("/m/4.wav"),
        TreeEntry { path: "/m/gone.mp3".to_string(), is_file: false, children: vec![file("/m/5.m4a")] },
        file("/m/notes.txt"),
    ];
    assert_eq!(
        collect_audio_files(&tree),
        names(&["/m/a/1.mp3", "/m/a/sub/2.flac", "/m/a/3.ogg", "/m/4.wav", "/m/5.m4a"])
    );
    assert_eq!(collect_audio_files(&Vec::new()), Vec::<String>::new());
}

#[test]
fn selection_is_a_track_if_it_is_an_audio_file() {
    let path = names(&["/m/a", "/m/a/1.mp3"]);
    assert_eq!(selected_file(&path, true), Some("/m/a/1.mp3".to_string()));
    assert_eq!(selected_file(&path, false), None);
    assert_eq!(selected_file(&names(&["/m/a"]), true), None);
    assert_eq!(selected_file(&Vec::new(), true), None);
}
