use tui_player::meta::{parse_gain_db, probe_tags, Tag, TagKey, TrackMeta};

fn tag(key: TagKey, value: Option<&str>) -> Tag {
    Tag { key, value: value.map(|v| v.to_string()) }
}

#[test]
fn track_meta_default_is_empty() {
    let m = TrackMeta::default();
    assert!(m.title.is_none() && m.artist.is_none() && m.album.is_none());
    assert!(m.date.is_none() && m.genre.is_none());
}

#[test]
fn gain_text_with_and_without_unit() {
    assert_eq!(parse_gain_db("-6.5 dB"), Some(-650));
    assert_eq!(parse_gain_db("-6.5"), Some(-650));
    assert_eq!(parse_gain_db(" +3.25db "), Some(325));
    assert_eq!(parse_gain_db("0 dB"), Some(0));
    assert_eq!(parse_gain_db("5 dBdB"), Some(500));
    assert_eq!(parse_gain_db("5 dbdb"), Some(500));
    assert_eq!(parse_gain_db("-7.005 dB"), Some(-701));
}

#[test]
fn gain_text_that_is_no_gain() {
    assert_eq!(parse_gain_db("dB"), None);
    assert_eq!(parse_gain_db(""), None);
    assert_eq!(parse_gain_db("loud"), None);
    assert_eq!(parse_gain_db("5 DB"), None);
    assert_eq!(parse_gain_db("5 dB db"), None);
    assert_eq!(parse_gain_db("5 db dB"), None);
    assert_eq!(parse_gain_db("5dBdb"), None);
    assert_eq!(parse_gain_db("5dbdB"), Some(500));
}

#[test]
fn gain_text_is_limited() {
    assert_eq!(parse_gain_db("99999 dB"), Some(1_000_000));
    assert_eq!(parse_gain_db("-99999 dB"), Some(-1_000_000));
}

#[test]
fn first_usable_tag_counts() {
    let tags = vec![
        tag(TagKey::TrackTitle, None),
        tag(TagKey::TrackTitle, Some("First")),
        tag(TagKey::TrackTitle, Some("Second")),
        tag(TagKey::AlbumArtist, Some("Various")),
        tag(TagKey::Artist, Some("Someone")),
        tag(TagKey::Other, Some("x")),
        tag(TagKey::Album, Some("Album")),
        tag(TagKey::Date, Some("1999")),
    ];
    let p = probe_tags(&tags);
    assert_eq!(p.meta.title.as_deref(), Some("First"));
    assert_eq!(p.meta.artist.as_deref(), Some("Various"));
    assert_eq!(p.meta.album.as_deref(), Some("Album"));
    assert_eq!(p.meta.date.as_deref(), Some("1999"));
    assert_eq!(p.meta.genre, None);
    assert_eq!(p.replay_gain, None);
}

#[test]
fn track_gain_goes_before_album_gain() {
    let tags = vec![
        tag(TagKey::ReplayGainAlbumGain, Some("-3.00 dB")),
        tag(TagKey::ReplayGainTrackGain, Some("junk")),
        tag(TagKey::ReplayGainTrackGain, Some("-7.25 dB")),
        tag(TagKey::ReplayGainTrackGain, Some("-1 dB")),
    ];
    assert_eq!(probe_tags(&tags).replay_gain, Some(-725));
    let tags = vec![
        tag(TagKey::ReplayGainTrackGain, Some("junk")),
        tag(TagKey::ReplayGainAlbumGain, None),
        tag(TagKey::ReplayGainAlbumGain, Some("+2 dB")),
    ];
    assert_eq!(probe_tags(&tags).replay_gain, Some(200));
    assert_eq!(probe_tags(&vec![]).replay_gain, None);
}
