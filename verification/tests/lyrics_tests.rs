use tui_player::lyrics::{
    decode_entity, display_name, extract_lyrics, genius_hit, genius_lyrics, genius_search_url,
    html_to_text, lyrics_query, lyrics_result, ovh_lyrics, ovh_url, search_query, song_hit,
    strip_header, url_encode, SongHit,
};
use tui_player::meta::TrackMeta;

#[test]
fn url_encode_keeps_unreserved_characters() {
    assert_eq!(url_encode("AZaz09-_.~"), "AZaz09-_.~");
    assert_eq!(url_encode(""), "");
}

#[test]
fn url_encode_escapes_the_rest() {
    assert_eq!(url_encode("Hello World"), "Hello%20World");
    assert_eq!(url_encode("a/b?c=d&e"), "a%2Fb%3Fc%3Dd%26e");
    assert_eq!(url_encode("\u{e9}"), "%C3%A9");
    assert_eq!(url_encode("\u{1F3B5}"), "%F0%9F%8E%B5");
    assert_eq!(url_encode("\n\u{7f}"), "%0A%7F");
    assert_eq!(url_encode("100%"), "100%25");
}

#[test]
fn decode_entity_known_names() {
    assert_eq!(decode_entity("&amp;"), "&");
    assert_eq!(decode_entity("&lt;"), "<");
    assert_eq!(decode_entity("&gt;"), ">");
    assert_eq!(decode_entity("&quot;"), "\"");
    assert_eq!(decode_entity("&apos;"), "'");
    assert_eq!(decode_entity("&#x27;"), "'");
    assert_eq!(decode_entity("&nbsp;"), " ");
}

#[test]
fn decode_entity_numbers() {
    assert_eq!(decode_entity("&#65;"), "A");
    assert_eq!(decode_entity("&#x41;"), "A");
    assert_eq!(decode_entity("&#X41;"), "A");
    assert_eq!(decode_entity("&#xe9;"), "\u{e9}");
    assert_eq!(decode_entity("&#8217;"), "\u{2019}");
    assert_eq!(decode_entity("&#+65;"), "A");
    assert_eq!(decode_entity("&#x1F3B5;"), "\u{1F3B5}");
    assert_eq!(decode_entity("&#0;"), "\0");
}

#[test]
fn decode_entity_leaves_the_rest() {
    assert_eq!(decode_entity("&unknown;"), "&unknown;");
    assert_eq!(decode_entity("&#xZZ;"), "&#xZZ;");
    assert_eq!(decode_entity("&#1114112;"), "&#1114112;");
    assert_eq!(decode_entity("&#55296;"), "&#55296;");
    assert_eq!(decode_entity("&#4294967296;"), "&#4294967296;");
    assert_eq!(decode_entity("&#;"), "&#;");
    assert_eq!(decode_entity("&#x;"), "&#x;");
    assert_eq!(decode_entity("&#-65;"), "&#-65;");
    assert_eq!(decode_entity("&;"), "&;");
    assert_eq!(decode_entity(""), "");
    assert_eq!(decode_entity("&"), "&");
}

#[test]
fn decode_entity_reads_hexadecimal_after_any_two_characters() {
    assert_eq!(decode_entity("&ax41;"), "A");
    assert_eq!(decode_entity("&a65;"), "&a65;");
}

#[test]
fn html_to_text_drops_tags_and_keeps_breaks() {
    assert_eq!(html_to_text("a<br>b"), "a\nb");
    assert_eq!(html_to_text("a<BR/>b<Br class=\"x\">c"), "a\nb\nc");
    assert_eq!(html_to_text("<b>x</b>"), "x");
    assert_eq!(html_to_text("<p>Hi &amp; bye</p>"), "Hi & bye");
    assert_eq!(html_to_text("plain"), "plain");
    assert_eq!(html_to_text(""), "");
    assert_eq!(html_to_text("<bx>"), "");
    assert_eq!(html_to_text("<a href=\"?a=1&b=2\">x</a>"), "x");
}

#[test]
fn html_to_text_decodes_entities() {
    assert_eq!(html_to_text("&lt;tag&gt;"), "<tag>");
    assert_eq!(html_to_text("it&#x27;s"), "it's");
    assert_eq!(html_to_text("&#228;&#246;"), "\u{e4}\u{f6}");
    assert_eq!(html_to_text("a &bogus; b"), "a &bogus; b");
    assert_eq!(html_to_text("a&;b"), "a&;b");
}

#[test]
fn html_to_text_gives_up_on_long_entities() {
    assert_eq!(html_to_text("x &notanentityatall; y"), "x &notanentityatall; y");
    assert_eq!(html_to_text("R&B and more text"), "R&B and more text");
    assert_eq!(html_to_text("a & b &amp; c, far away"), "a & b &amp; c, far away");
    // an entity may have ten bytes before its semicolon, and no more
    assert_eq!(html_to_text("&#x0000041;"), "A");
    assert_eq!(html_to_text("&#x00000041;"), "&#x00000041;");
    assert_eq!(html_to_text("&\u{e4}\u{e4}\u{e4}\u{e4}\u{e4};<b>"), "&\u{e4}\u{e4}\u{e4}\u{e4}\u{e4};");
}

#[test]
fn html_to_text_flushes_what_is_left_open() {
    assert_eq!(html_to_text("a < b"), "a < b");
    assert_eq!(html_to_text("a &amp"), "a &amp");
    assert_eq!(html_to_text("x<br"), "x<br");
}

#[test]
fn extract_lyrics_takes_the_containers() {
    let page = "<html><div data-lyrics-container=\"true\" class=\"x\">Line1<br/>Line2<div>inner</div>tail</div>\
                <p>other</p><div data-lyrics-container=\"true\">More &amp; more</div></html>";
    assert_eq!(extract_lyrics(page), "Line1\nLine2innertail\nMore & more");
}

#[test]
fn extract_lyrics_without_containers() {
    assert_eq!(extract_lyrics("<html><div>nothing here</div></html>"), "");
    assert_eq!(extract_lyrics(""), "");
    assert_eq!(extract_lyrics("data-lyrics-container=\"true\""), "");
}

#[test]
fn extract_lyrics_skips_empty_containers_and_survives_open_ones() {
    let page = "<div data-lyrics-container=\"true\"></div>\
                <div data-lyrics-container=\"true\"><br></div>\
                <div data-lyrics-container=\"true\">open <div>deep";
    assert_eq!(extract_lyrics(page), "\n\nopen deep");
    let page = "<div data-lyrics-container=\"true\"><i></i></div><div data-lyrics-container=\"true\">x</div>";
    assert_eq!(extract_lyrics(page), "x");
}

#[test]
fn strip_header_takes_the_heading_off() {
    assert_eq!(
        strip_header("1 ContributorSong Title Lyrics[Verse 1]\nla la"),
        "[Verse 1]\nla la"
    );
    assert_eq!(strip_header("Song Lyrics\nla"), "la");
    assert_eq!(
        strip_header("3 Contributors\nTranslations\nSong Lyrics first line"),
        "first line"
    );
    assert_eq!(strip_header("  text  "), "text");
}

#[test]
fn strip_header_keeps_lyrics_that_say_lyrics() {
    assert_eq!(
        strip_header("la la\nSing my Lyrics today"),
        "la la\nSing my Lyrics today"
    );
    assert_eq!(strip_header("no heading"), "no heading");
    assert_eq!(strip_header(""), "");
}

#[test]
fn lyrics_result_trims_and_rejects_empty_text() {
    assert!(lyrics_result("  \n ", "u".to_string(), None).is_none());
    assert!(lyrics_result("", "u".to_string(), None).is_none());
    let r = lyrics_result("\n la la \n", "u".to_string(), Some("art".to_string())).unwrap();
    assert_eq!(r.text, "la la");
    assert_eq!(r.url, "u");
    assert_eq!(r.art_url.as_deref(), Some("art"));
}

#[test]
fn ovh_lyrics_reads_the_lyrics_field() {
    let r = ovh_lyrics("{\"lyrics\": \"  la\\nla  \"}", "http://x".to_string()).unwrap();
    assert_eq!(r.text, "la\nla");
    assert_eq!(r.url, "http://x");
    assert!(r.art_url.is_none());
    assert!(ovh_lyrics("{\"lyrics\": \"  \"}", "u".to_string()).is_none());
    assert!(ovh_lyrics("{\"lyrics\": 5}", "u".to_string()).is_none());
    assert!(ovh_lyrics("{\"error\": \"No lyrics found\"}", "u".to_string()).is_none());
    assert!(ovh_lyrics("not json", "u".to_string()).is_none());
    assert!(ovh_lyrics("[\"lyrics\"]", "u".to_string()).is_none());
}

#[test]
fn genius_hit_reads_the_first_hit() {
    let body = "{\"response\": {\"hits\": [\
                {\"result\": {\"url\": \"https://genius.com/a\", \"song_art_image_thumbnail_url\": \"https://img/a.jpg\"}},\
                {\"result\": {\"url\": \"https://genius.com/b\"}}]}}";
    let hit = genius_hit(body).unwrap();
    assert_eq!(hit.url, "https://genius.com/a");
    assert_eq!(hit.art_url.as_deref(), Some("https://img/a.jpg"));
    let body = "{\"response\": {\"hits\": [{\"result\": {\"url\": \"u\", \"song_art_image_thumbnail_url\": null}}]}}";
    let hit = genius_hit(body).unwrap();
    assert_eq!(hit.url, "u");
    assert!(hit.art_url.is_none());
}

#[test]
fn genius_hit_without_a_hit() {
    assert!(genius_hit("{\"response\": {\"hits\": []}}").is_none());
    assert!(genius_hit("{\"response\": {\"hits\": {}}}").is_none());
    assert!(genius_hit("{\"response\": {}}").is_none());
    assert!(genius_hit("{\"response\": {\"hits\": [{\"result\": {\"url\": 7}}]}}").is_none());
    assert!(genius_hit("{\"response\": {\"hits\": [{\"other\": 1}]}}").is_none());
    assert!(genius_hit("{}").is_none());
    assert!(genius_hit("").is_none());
}

#[test]
fn genius_hit_needs_the_page_of_the_song() {
    let body = "{\"response\": {\"hits\": [{\"result\": {\"song_art_image_thumbnail_url\": \"a\"}}]}}";
    assert!(genius_hit(body).is_none());
    let body = "{\"response\": {\"hits\": [{\"result\": {\"url\": \"u\", \"song_art_image_thumbnail_url\": 3}}]}}";
    let hit = genius_hit(body).unwrap();
    assert_eq!(hit.url, "u");
    assert!(hit.art_url.is_none());
    let body = "{\"response\": {\"hits\": [{\"result\": \"url\"}]}}";
    assert!(genius_hit(body).is_none());
    let body = "{\"response\": [{\"hits\": [{\"result\": {\"url\": \"u\"}}]}]}";
    assert!(genius_hit(body).is_none());
}

#[test]
fn song_hit_needs_the_page() {
    let hit = song_hit(Some("p".to_string()), Some("a".to_string())).unwrap();
    assert_eq!(hit.url, "p");
    assert_eq!(hit.art_url.as_deref(), Some("a"));
    let hit = song_hit(Some("p".to_string()), None).unwrap();
    assert_eq!(hit.url, "p");
    assert!(hit.art_url.is_none());
    assert!(song_hit(None, Some("a".to_string())).is_none());
    assert!(song_hit(None, None).is_none());
}

#[test]
fn genius_lyrics_from_a_page() {
    let page = "<div data-lyrics-container=\"true\">2 ContributorsSong Lyrics<br>la<br>la</div>";
    let hit = SongHit { url: "https://genius.com/a".to_string(), art_url: None };
    let r = genius_lyrics(page, hit).unwrap();
    assert_eq!(r.text, "la\nla");
    assert_eq!(r.url, "https://genius.com/a");
    let hit = SongHit { url: "u".to_string(), art_url: None };
    assert!(genius_lyrics("<html></html>", hit).is_none());
}

#[test]
fn addresses_of_the_services() {
    assert_eq!(ovh_url("AC/DC", "T.N.T."), "https://api.lyrics.ovh/v1/AC%2FDC/T.N.T.");
    assert_eq!(ovh_url("", "x y"), "https://api.lyrics.ovh/v1//x%20y");
    assert_eq!(search_query("", "Song"), "Song");
    assert_eq!(search_query("A B", "C"), "A B C");
    assert_eq!(genius_search_url("", "Song"), "https://genius.com/api/search?q=Song");
    assert_eq!(genius_search_url("A B", "C"), "https://genius.com/api/search?q=A%20B%20C");
}

#[test]
fn lyrics_query_goes_by_title_or_file_stem() {
    let mut meta = TrackMeta::default();
    assert_eq!(
        lyrics_query(&meta, "/music/01 Song.mp3"),
        Some(("".to_string(), "01 Song".to_string()))
    );
    assert_eq!(lyrics_query(&meta, "/"), None);
    assert_eq!(lyrics_query(&meta, ""), None);
    meta.artist = Some("Artist".to_string());
    meta.title = Some("Title".to_string());
    assert_eq!(
        lyrics_query(&meta, "/music/01 Song.mp3"),
        Some(("Artist".to_string(), "Title".to_string()))
    );
    meta.title = Some("".to_string());
    assert_eq!(lyrics_query(&meta, "/music/01 Song.mp3"), None);
}

#[test]
fn display_name_goes_by_title_or_file_name() {
    let mut meta = TrackMeta::default();
    assert_eq!(display_name(&meta, "/music/01 Song.mp3"), "01 Song.mp3");
    assert_eq!(display_name(&meta, "/"), "Unknown");
    assert_eq!(display_name(&meta, ".."), "Unknown");
    meta.title = Some("Title".to_string());
    assert_eq!(display_name(&meta, "/music/01 Song.mp3"), "Title");
}
