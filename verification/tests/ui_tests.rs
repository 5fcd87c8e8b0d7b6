use tui_player::eq_panel::{
    axis, band_label, bar_height_of, cell_text, eq_cell, format_freq, gain_label, panel_fits,
    scale_mark, select_left, select_right, EqCell,
};
use tui_player::eq::BAND_FREQS;
use tui_player::gauge::{GaugeCell, RoundedGauge};
use tui_player::input::{
    click_target, focus, key_command, wheel_target, ClickTarget, Command, Focus, Key,
    LayoutRegions, WheelTarget,
};
use tui_player::layout::{
    browser_popup, centered_popup, clamp_scroll, click_seek_target, click_volume,
    collapsed_lyrics_char, eq_band_at, eq_hover_band, eq_scroll_band, hit, hover_seconds,
    hover_volume_percent, inner_col_of, inner_width_of, tooltip, Rect,
};
use tui_player::lyrics::{FetchEvent, LyricsPanel, LyricsResult};
use tui_player::meta::TrackMeta;
use tui_player::now_playing::{
    album_art, art_rect, has_meta, now_playing_rows, pixel_rows, position_label, status_label,
    tags_rect, track_position, AlbumArtWidget,
};
use tui_player::progress::{
    format_duration, hover_time_label, progress_label, progress_ratio, volume_label,
    volume_percent, volume_ratio,
};
use tui_player::theme::{theme, Color, THEME_COUNT};
use tui_player::waveform::{normalize_waveform, WaveformScan};

fn rect(x: u16, y: u16, width: u16, height: u16) -> Rect {
    Rect { x, y, width, height }
}

#[test]
fn hit_is_within_the_rectangle() {
    let r = rect(2, 3, 4, 5);
    assert!(hit(r, 2, 3));
    assert!(hit(r, 5, 7));
    assert!(!hit(r, 6, 3));
    assert!(!hit(r, 2, 8));
    assert!(!hit(r, 1, 3));
    assert!(!hit(r, 2, 2));
    assert!(!hit(rect(0, 0, 0, 0), 0, 0));
    assert!(hit(rect(65535, 65535, 65535, 65535), 65535, 65535));
}

#[test]
fn popups_are_centred() {
    assert!(centered_popup(100, 40, 74, 22) == rect(13, 9, 74, 22));
    assert!(centered_popup(50, 10, 74, 22) == rect(0, 0, 50, 10));
    assert!(centered_popup(75, 23, 74, 22) == rect(0, 0, 74, 22));
    assert!(centered_popup(0, 0, 74, 22) == rect(0, 0, 0, 0));
    assert!(browser_popup(100, 50) == rect(10, 5, 80, 40));
    assert!(browser_popup(45, 11) == rect(2, 0, 40, 10));
    assert!(browser_popup(30, 8) == rect(0, 0, 30, 8));
    assert!(browser_popup(65535, 65535) == rect(6553, 6553, 52428, 52428));
}

#[test]
fn columns_inside_the_border() {
    let r = rect(10, 0, 22, 3);
    assert_eq!(inner_width_of(r), 20);
    assert_eq!(inner_col_of(r, 10), 0);
    assert_eq!(inner_col_of(r, 11), 0);
    assert_eq!(inner_col_of(r, 12), 1);
    assert_eq!(inner_col_of(r, 31), 20);
    assert_eq!(inner_col_of(r, 0), 0);
    assert_eq!(inner_width_of(rect(0, 0, 1, 1)), 0);
    assert_eq!(inner_col_of(rect(65535, 0, 5, 1), 65535), 0);
}

#[test]
fn click_on_the_progress_bar_seeks_in_proportion() {
    let r = rect(10, 0, 22, 3);
    assert_eq!(click_seek_target(r, 11, 200_000), Some(0));
    assert_eq!(click_seek_target(r, 21, 200_000), Some(100_000));
    assert_eq!(click_seek_target(r, 31, 200_000), Some(200_000));
    assert_eq!(click_seek_target(r, 14, 1_000), Some(150));
    assert_eq!(click_seek_target(r, 12, 7), Some(0));
    assert_eq!(click_seek_target(rect(0, 0, 2, 3), 1, 1000), None);
    assert_eq!(click_seek_target(rect(0, 0, 3, 3), 9, u64::MAX), Some(u64::MAX));
}

#[test]
fn click_on_the_volume_bar_sets_the_volume() {
    let r = rect(0, 0, 42, 3);
    assert_eq!(click_volume(r, 1), Some(0));
    assert_eq!(click_volume(r, 21), Some(20));
    assert_eq!(click_volume(r, 41), Some(40));
    assert_eq!(click_volume(r, 22), Some(21));
    assert_eq!(click_volume(rect(0, 0, 12, 3), 2), Some(4));
    assert_eq!(click_volume(rect(0, 0, 82, 3), 2), Some(1));
    assert_eq!(click_volume(rect(0, 0, 162, 3), 2), Some(0));
    assert_eq!(click_volume(rect(0, 0, 162, 3), 3), Some(1));
    assert_eq!(click_volume(rect(0, 0, 12, 3), 200), Some(40));
    assert_eq!(click_volume(rect(0, 0, 2, 3), 1), None);
}

#[test]
fn hovering_tells_time_and_volume() {
    let r = rect(10, 0, 22, 3);
    assert_eq!(hover_seconds(r, 21, 200_000), Some(100));
    assert_eq!(hover_seconds(r, 500, 200_000), Some(200));
    assert_eq!(hover_seconds(r, 12, 19_999), Some(0));
    assert_eq!(hover_seconds(r, 12, 20_000), Some(1));
    assert_eq!(hover_seconds(r, 21, 0), None);
    assert_eq!(hover_seconds(rect(0, 0, 1, 1), 0, 5), None);
    assert_eq!(hover_volume_percent(r, 21), Some(100));
    assert_eq!(hover_volume_percent(r, 500), Some(200));
    assert_eq!(hover_volume_percent(r, 0), Some(0));
    assert_eq!(hover_volume_percent(rect(0, 0, 5, 1), 2), Some(67));
    assert_eq!(hover_volume_percent(rect(0, 0, 2, 1), 1), None);
}

#[test]
fn tooltip_hangs_over_the_pointer_within_the_region() {
    let r = rect(10, 7, 40, 3);
    assert!(tooltip(r, 30, 6) == rect(27, 7, 6, 1));
    assert!(tooltip(r, 10, 6) == rect(10, 7, 6, 1));
    assert!(tooltip(r, 49, 6) == rect(44, 7, 6, 1));
    assert!(tooltip(r, 2, 6) == rect(10, 7, 6, 1));
    assert!(tooltip(r, 30, 50) == rect(10, 7, 50, 1));
    assert!(tooltip(rect(65530, 0, 65535, 1), 65535, 2) == rect(65534, 0, 2, 1));
}

#[test]
fn equalizer_bands_under_the_pointer() {
    let inner = rect(5, 2, 70, 20);
    assert_eq!(eq_band_at(inner, 5), None);
    assert_eq!(eq_band_at(inner, 6), Some(0));
    assert_eq!(eq_band_at(inner, 7), Some(0));
    assert_eq!(eq_band_at(inner, 8), Some(1));
    assert_eq!(eq_band_at(inner, 69), Some(31));
    assert_eq!(eq_band_at(inner, 70), None);
    assert_eq!(eq_band_at(rect(65535, 0, 1, 1), 65535), None);
    assert_eq!(eq_hover_band(inner, 8, 2), Some(1));
    assert_eq!(eq_hover_band(inner, 8, 21), Some(1));
    assert_eq!(eq_hover_band(inner, 8, 22), None);
    assert_eq!(eq_hover_band(inner, 8, 1), None);
    assert_eq!(eq_scroll_band(inner, 8, 17), 1);
    assert_eq!(eq_scroll_band(inner, 0, 17), 17);
    assert_eq!(select_left(0), 0);
    assert_eq!(select_left(5), 4);
    assert_eq!(select_right(5), 6);
    assert_eq!(select_right(31), 31);
    assert_eq!(select_right(usize::MAX), 31);
}

#[test]
fn lyrics_scroll_stays_within_the_text() {
    assert_eq!(clamp_scroll(0, 100, 12), 0);
    assert_eq!(clamp_scroll(50, 100, 12), 50);
    assert_eq!(clamp_scroll(95, 100, 12), 90);
    assert_eq!(clamp_scroll(5, 8, 12), 0);
    assert_eq!(clamp_scroll(5, 8, 0), 5);
    assert_eq!(clamp_scroll(9, 8, 1), 8);
    assert_eq!(clamp_scroll(usize::MAX, usize::MAX, 2), usize::MAX);
}

#[test]
fn folded_lyrics_panel_shows_its_name_top_down() {
    let column: String = (0..10).map(|i| collapsed_lyrics_char(i, 10)).collect();
    assert_eq!(column, "  Lyrics  ");
    let column: String = (0..9).map(|i| collapsed_lyrics_char(i, 9)).collect();
    assert_eq!(column, " Lyrics  ");
    let column: String = (0..4).map(|i| collapsed_lyrics_char(i, 4)).collect();
    assert_eq!(column, "Lyri");
    assert_eq!(collapsed_lyrics_char(usize::MAX, 3), ' ');
}

#[test]
fn frequencies_as_the_axis_shows_them() {
    let want = [
        "16", "20", "25", "31.5", "40", "50", "63", "80", "100", "125", "160", "200", "250",
        "315", "400", "500", "630", "800", "1k", "1.2k", "1.6k", "2k", "2.5k", "3.2k", "4k",
        "5k", "6.3k", "8k", "10k", "12.5k", "16k", "20k",
    ];
    for (i, text) in want.iter().enumerate() {
        assert_eq!(format_freq(BAND_FREQS[i]), *text, "band {i}");
    }
    assert_eq!(format_freq(0), "0");
    assert_eq!(format_freq(9_999), "999.9");
    assert_eq!(format_freq(10_001), "1.0k");
    assert_eq!(format_freq(13_500), "1.4k");
    assert_eq!(format_freq(14_500), "1.4k");
    assert_eq!(format_freq(99_600), "10.0k");
    assert_eq!(format_freq(u32::MAX), "429496.7k");
}

#[test]
fn gains_as_the_panel_shows_them() {
    assert_eq!(gain_label(0), "+0");
    assert_eq!(gain_label(300), "+3");
    assert_eq!(gain_label(-1200), "-12");
    assert_eq!(gain_label(49), "+0");
    assert_eq!(gain_label(50), "+0");
    assert_eq!(gain_label(51), "+1");
    assert_eq!(gain_label(150), "+2");
    assert_eq!(gain_label(250), "+2");
    assert_eq!(gain_label(-30), "-0");
    assert_eq!(gain_label(-150), "-2");
    assert_eq!(gain_label(i16::MIN), "-328");
    assert_eq!(gain_label(i16::MAX), "+328");
    assert_eq!(band_label(18, 300), " 1k Hz  +3 dB ");
    assert_eq!(band_label(3, -100), " 31.5 Hz  -1 dB ");
}

#[test]
fn bars_of_the_equalizer() {
    // 13 rows: 12 dB at row 0, 0 dB at row 6, -12 dB at row 12, 2 dB a row
    assert!(eq_cell(600, 3, 13, false) == EqCell::PositiveBar);
    assert!(eq_cell(600, 2, 13, false) == EqCell::Blank);
    assert!(eq_cell(600, 6, 13, false) == EqCell::PositiveBar);
    assert!(eq_cell(600, 7, 13, false) == EqCell::Blank);
    assert!(eq_cell(500, 3, 13, false) == EqCell::Blank);
    assert!(eq_cell(-600, 9, 13, false) == EqCell::NegativeBar);
    assert!(eq_cell(-600, 10, 13, false) == EqCell::Blank);
    assert!(eq_cell(-600, 6, 13, false) == EqCell::NegativeBar);
    assert!(eq_cell(-600, 5, 13, false) == EqCell::Blank);
    assert!(eq_cell(0, 6, 13, false) == EqCell::PositiveBar);
    assert!(eq_cell(600, 3, 13, true) == EqCell::SelectedBar);
    assert!(eq_cell(-600, 9, 13, true) == EqCell::SelectedBar);
    assert!(eq_cell(600, 8, 13, true) == EqCell::Guide);
    // with an even number of rows no row stands for 0 dB: the zero line shows
    assert!(eq_cell(0, 6, 12, false) == EqCell::Zero);
    assert!(eq_cell(0, 6, 12, true) == EqCell::SelectedZero);
    assert!(eq_cell(1200, 0, 12, false) == EqCell::PositiveBar);
    assert!(eq_cell(-1200, 11, 12, false) == EqCell::NegativeBar);
    assert!(eq_cell(300, 0, 1, false) == EqCell::Zero);
    assert!(eq_cell(300, 1, 3, false) == EqCell::PositiveBar);
    assert!(eq_cell(-300, 1, 2, false) == EqCell::Zero);
    assert!(eq_cell(300, 2, 3, false) == EqCell::Blank);
    assert!(eq_cell(1200, 0, 1, false) == EqCell::PositiveBar);
    assert!(eq_cell(300, 0, 0, false) == EqCell::Zero);
    assert_eq!(cell_text(EqCell::PositiveBar), "\u{2588}\u{2588}");
    assert_eq!(cell_text(EqCell::Zero), "\u{2500}\u{2500}");
    assert_eq!(cell_text(EqCell::Guide), "\u{258f}\u{2595}");
    assert_eq!(cell_text(EqCell::Blank), "  ");
}

#[test]
fn scale_and_size_of_the_panel() {
    assert_eq!(bar_height_of(20), 15);
    assert_eq!(bar_height_of(5), 0);
    assert_eq!(bar_height_of(3), 0);
    assert!(panel_fits(40, 6));
    assert!(!panel_fits(39, 6));
    assert!(!panel_fits(40, 5));
    assert_eq!(scale_mark(0, 15), Some(" +12"));
    assert_eq!(scale_mark(7, 15), Some("  0"));
    assert_eq!(scale_mark(14, 15), Some(" -12"));
    assert_eq!(scale_mark(3, 15), None);
    assert_eq!(scale_mark(0, 1), Some(" +12"));
    assert_eq!(scale_mark(1, 2), Some("  0"));
    assert_eq!(scale_mark(65534, 65535), Some(" -12"));
}

#[test]
fn axis_names_some_bands() {
    let line: String = axis().into_iter().collect();
    assert_eq!(line.chars().count(), 64);
    assert_eq!(
        line,
        "16      40      100     250     630       2k      5k    10k   20"
    );
}

#[test]
fn gauge_bar_cells() {
    let g = RoundedGauge::new(500_000, String::new(), Color::Cyan);
    let cells: Vec<GaugeCell> = (0..10).map(|c| g.cell(c, 10)).collect();
    let text: String = cells.iter().map(|c| c.ch).collect();
    assert_eq!(text, "\u{257a}\u{2501}\u{2501}\u{2501}\u{2578}\u{2500}\u{2500}\u{2500}\u{2500}\u{2574}");
    for (i, c) in cells.iter().enumerate() {
        assert!(c.fg == if i < 5 { Color::Cyan } else { Color::DarkGray });
    }
    let g = RoundedGauge::new(0, String::new(), Color::Cyan);
    let text: String = (0..4).map(|c| g.cell(c, 4).ch).collect();
    assert_eq!(text, "\u{2576}\u{2500}\u{2500}\u{2574}");
    let g = RoundedGauge::new(2_000_000, String::new(), Color::Cyan);
    let text: String = (0..4).map(|c| g.cell(c, 4).ch).collect();
    assert_eq!(text, "\u{257a}\u{2501}\u{2501}\u{2501}");
    let g = RoundedGauge::new(100_000, String::new(), Color::Cyan);
    assert_eq!(g.cell(0, 10).ch, '\u{257a}');
    assert_eq!(g.cell(1, 10).ch, '\u{2500}');
    assert_eq!(g.cell(0, 1).ch, '\u{2576}');
}

#[test]
fn gauge_rounds_to_the_nearest_column() {
    let g = RoundedGauge::new(149_999, String::new(), Color::Cyan);
    assert!(g.cell(0, 10).fg == Color::Cyan);
    assert!(g.cell(1, 10).fg == Color::DarkGray);
    let g = RoundedGauge::new(150_000, String::new(), Color::Cyan);
    assert!(g.cell(1, 10).fg == Color::Cyan);
    assert!(g.cell(2, 10).fg == Color::DarkGray);
}

#[test]
fn gauge_overflow_colour() {
    let g = RoundedGauge::new(750_000, String::new(), Color::Green).overflow(500_000, Color::Red);
    let fg: Vec<Color> = (0..8).map(|c| g.cell(c, 8).fg).collect();
    let want = [
        Color::Green, Color::Green, Color::Green, Color::Green, Color::Red, Color::Red,
        Color::DarkGray, Color::DarkGray,
    ];
    for i in 0..8 {
        assert!(fg[i] == want[i], "column {i}");
    }
}

#[test]
fn gauge_waveform_cells() {
    let wf: Vec<u16> = vec![0, 1, 71, 72, 500, 1000, 214, 215];
    let g = RoundedGauge::new(500_000, String::new(), Color::Cyan).waveform(&wf);
    let text: String = (0..8).map(|c| g.cell(c, 8).ch).collect();
    assert_eq!(text, " \u{2581}\u{2581}\u{2582}\u{2585}\u{2588}\u{2582}\u{2583}");
    // four columns show the louder of two amplitudes each
    let text: String = (0..4).map(|c| g.cell(c, 4).ch).collect();
    assert_eq!(text, "\u{2581}\u{2582}\u{2588}\u{2583}");
    // sixteen columns show every amplitude twice
    let text: String = (0..16).map(|c| g.cell(c, 16).ch).collect();
    assert_eq!(text.chars().nth(4), Some('\u{2581}'));
    assert_eq!(text.chars().nth(5), Some('\u{2581}'));
    assert_eq!(text.chars().nth(10), Some('\u{2588}'));
    let empty: Vec<u16> = Vec::new();
    let g = RoundedGauge::new(500_000, String::new(), Color::Cyan).waveform(&empty);
    assert_eq!(g.cell(3, 8).ch, ' ');
    assert!(g.cell(3, 8).fg == Color::Cyan);
    assert!(g.cell(4, 8).fg == Color::DarkGray);
}

#[test]
fn gauge_label_is_centred() {
    let g = RoundedGauge::new(500_000, "abcd".to_string(), Color::Cyan);
    assert_eq!(g.label_start(10), Some(3));
    assert_eq!(g.label_start(4), Some(0));
    assert_eq!(g.label_start(3), None);
    assert!(g.label_color(4, 10) == Color::White);
    assert!(g.label_color(5, 10) == Color::Gray);
    let g = RoundedGauge::new(0, "\u{e4}\u{e4}".to_string(), Color::Cyan);
    assert_eq!(g.label_start(4), Some(0));
    assert_eq!(g.label_start(3), None);
}

#[test]
fn durations_and_labels() {
    assert_eq!(format_duration(0), "0:00");
    assert_eq!(format_duration(7), "0:07");
    assert_eq!(format_duration(65), "1:05");
    assert_eq!(format_duration(3600), "60:00");
    assert_eq!(format_duration(u64::MAX), "307445734561825860:15");
    assert_eq!(progress_label(65_999, Some(200_000)), "1:05 / 3:20");
    assert_eq!(progress_label(65_999, Some(0)), "1:05");
    assert_eq!(progress_label(65_999, Some(1)), "1:05 / 0:00");
    assert_eq!(progress_label(0, None), "0:00");
    assert_eq!(hover_time_label(205), " 3:25 ");
    assert_eq!(volume_label(20), " 100% ");
    assert_eq!(volume_label(0), " 0% ");
    assert_eq!(volume_label(39), " 195% ");
    assert_eq!(volume_percent(40), 200);
    assert_eq!(volume_percent(255), 1275);
}

#[test]
fn ratios_of_the_gauges() {
    assert_eq!(progress_ratio(0, Some(1000)), 0);
    assert_eq!(progress_ratio(250, Some(1000)), 250_000);
    assert_eq!(progress_ratio(1000, Some(1000)), 1_000_000);
    assert_eq!(progress_ratio(5000, Some(1000)), 1_000_000);
    assert_eq!(progress_ratio(1, Some(3)), 333_333);
    assert_eq!(progress_ratio(5, Some(0)), 0);
    assert_eq!(progress_ratio(5, None), 0);
    assert_eq!(progress_ratio(u64::MAX - 1, Some(u64::MAX)), 999_999);
    assert_eq!(volume_ratio(0), 0);
    assert_eq!(volume_ratio(20), 500_000);
    assert_eq!(volume_ratio(40), 1_000_000);
    assert_eq!(volume_ratio(200), 1_000_000);
}

#[test]
fn now_playing_panel() {
    assert_eq!(now_playing_rows(true, true), 0);
    assert_eq!(now_playing_rows(true, false), 0);
    assert_eq!(now_playing_rows(false, true), 4);
    assert_eq!(now_playing_rows(false, false), 3);
    let mut meta = TrackMeta::default();
    assert!(!has_meta(&meta));
    meta.title = Some("t".to_string());
    assert!(!has_meta(&meta));
    meta.genre = Some("g".to_string());
    assert!(has_meta(&meta));
    assert_eq!(status_label(true), "Paused");
    assert_eq!(status_label(false), "Playing");
    assert_eq!(position_label(3, 12), "  3/12");
    let files: Vec<String> = ["a", "b", "a"].iter().map(|s| s.to_string()).collect();
    assert_eq!(track_position(&files, &"a".to_string()), Some((1, 3)));
    assert_eq!(track_position(&files, &"b".to_string()), Some((2, 3)));
    assert_eq!(track_position(&files, &"c".to_string()), None);
    assert!(art_rect(rect(1, 1, 32, 30)) == rect(1, 4, 32, 16));
    assert!(art_rect(rect(1, 1, 20, 10)) == rect(1, 4, 20, 7));
    assert!(art_rect(rect(1, 1, 20, 2)) == rect(1, 4, 20, 0));
    assert!(tags_rect(rect(1, 1, 32, 30)) == Some(rect(1, 21, 32, 10)));
    assert!(tags_rect(rect(1, 1, 32, 21)) == Some(rect(1, 21, 32, 1)));
    assert!(tags_rect(rect(1, 1, 32, 20)) == None);
    assert!(tags_rect(rect(1, 65530, 32, 100)) == None);
}

#[test]
fn album_art_cells_pair_rows_of_pixels() {
    let pixels = vec![
        vec![(1, 1, 1), (2, 2, 2), (3, 3, 3)],
        vec![(4, 4, 4), (5, 5, 5), (6, 6, 6)],
        vec![(7, 7, 7), (8, 8, 8), (9, 9, 9)],
        vec![(10, 10, 10), (11, 11, 11), (12, 12, 12)],
        vec![(13, 13, 13), (14, 14, 14), (15, 15, 15)],
    ];
    let w = AlbumArtWidget::new(&pixels);
    assert_eq!(w.size(10, 10), (3, 2));
    assert_eq!(w.size(2, 1), (2, 1));
    assert_eq!(w.size(0, 0), (0, 0));
    let c = w.cell(1, 0);
    assert_eq!(c.top, (2, 2, 2));
    assert_eq!(c.bottom, (5, 5, 5));
    let c = w.cell(2, 1);
    assert_eq!(c.top, (9, 9, 9));
    assert_eq!(c.bottom, (12, 12, 12));
    let none: Vec<Vec<(u8, u8, u8)>> = Vec::new();
    assert_eq!(AlbumArtWidget::new(&none).size(5, 5), (0, 0));
}

#[test]
fn pixel_rows_take_three_bytes_a_pixel() {
    let rgb: Vec<u8> = (0..18).collect();
    assert_eq!(
        pixel_rows(&rgb, 3, 2),
        vec![
            vec![(0, 1, 2), (3, 4, 5), (6, 7, 8)],
            vec![(9, 10, 11), (12, 13, 14), (15, 16, 17)],
        ]
    );
    assert_eq!(pixel_rows(&Vec::new(), 0, 5), vec![Vec::<(u8, u8, u8)>::new(); 5]);
    assert_eq!(pixel_rows(&Vec::new(), 5, 0), Vec::<Vec<(u8, u8, u8)>>::new());
}

#[test]
fn album_art_is_made_from_a_picture() {
    // a picture of two by two pixels, all of one colour, as a PNG
    let mut png: Vec<u8> = Vec::new();
    let picture = image::RgbImage::from_pixel(2, 2, image::Rgb([200, 100, 50]));
    picture
        .write_to(&mut std::io::Cursor::new(&mut png), image::ImageFormat::Png)
        .unwrap();
    let art = album_art(&png, 8, 3).unwrap();
    assert_eq!(art.len(), 6);
    for row in &art {
        assert_eq!(row.len(), 8);
        for p in row {
            assert_eq!(*p, (200, 100, 50));
        }
    }
    assert!(album_art(&vec![1, 2, 3], 8, 3).is_none());
    assert!(album_art(&Vec::new(), 8, 3).is_none());
}

#[test]
fn album_art_for_a_panel_without_cells_is_empty() {
    let mut png: Vec<u8> = Vec::new();
    let picture = image::RgbImage::from_pixel(4, 3, image::Rgb([9, 8, 7]));
    picture
        .write_to(&mut std::io::Cursor::new(&mut png), image::ImageFormat::Png)
        .unwrap();
    assert_eq!(album_art(&png, 0, 3).unwrap(), vec![Vec::<(u8, u8, u8)>::new(); 6]);
    assert_eq!(album_art(&png, 8, 0).unwrap(), Vec::<Vec<(u8, u8, u8)>>::new());
    assert_eq!(album_art(&png, 0, 0).unwrap(), Vec::<Vec<(u8, u8, u8)>>::new());
    assert!(album_art(&vec![1, 2, 3], 0, 0).is_none());
}

#[test]
fn album_art_succeeds_whatever_the_size_of_the_panel() {
    let mut png: Vec<u8> = Vec::new();
    let picture = image::RgbImage::from_pixel(4, 3, image::Rgb([9, 8, 7]));
    picture
        .write_to(&mut std::io::Cursor::new(&mut png), image::ImageFormat::Png)
        .unwrap();
    for (cols, rows) in [(1u16, 1u16), (4, 3), (32, 16), (1030, 2), (2, 1030)] {
        let art = album_art(&png, cols, rows).unwrap();
        assert_eq!(art.len(), 2 * rows as usize);
        assert!(art.iter().all(|row| row.len() == cols as usize));
        assert!(art.iter().flatten().all(|p| *p == (9, 8, 7)));
    }
}

#[test]
fn themes() {
    assert_eq!(THEME_COUNT, 13);
    let names = [
        "Default", "Dracula", "Nord", "Gruvbox", "Rose Pine", "Catppuccin", "Tokyo Night",
        "Solarized", "Monokai", "One Dark", "Kanagawa", "Everforest", "Synthwave",
    ];
    for (i, name) in names.iter().enumerate() {
        let t = theme(i);
        assert_eq!(t.name, *name);
        assert!(t.text == Color::White);
        assert!(t.dimmed == Color::DarkGray);
    }
    assert_eq!(theme(13).name, "Default");
    let t = theme(0);
    assert!(t.accent == Color::Cyan && t.secondary == Color::Yellow);
    assert!(t.positive == Color::Green && t.negative == Color::Red);
    let t = theme(1);
    assert!(t.accent == Color::Rgb(189, 147, 249));
    assert!(t.negative == Color::Rgb(255, 85, 85));
    let t = theme(12);
    assert!(t.secondary == Color::Rgb(254, 222, 93));
    assert!(t.positive == Color::Rgb(114, 241, 184));
}

#[test]
fn waveform_scan_gathers_peaks() {
    // two channels, 48 frames a second, 64 seconds: three frames to a peak
    let mut scan = WaveformScan::new(2, 48, 64_000);
    let mut got: Vec<u16> = Vec::new();
    let mut batches = 0;
    for frame in 0..(3 * 40) {
        for ch in 0..2u16 {
            let magnitude = if frame % 3 == 1 && ch == 1 { (frame / 3 + 1) as u16 } else { 0 };
            if let Some(batch) = scan.push(magnitude) {
                assert_eq!(batch.len(), 32);
                got.extend(batch);
                batches += 1;
            }
        }
    }
    assert_eq!(batches, 1);
    let rest = scan.finish();
    assert_eq!(rest.len(), 8);
    got.extend(rest);
    assert_eq!(got, (1..=40).collect::<Vec<u16>>());
}

#[test]
fn waveform_scan_keeps_the_peak_in_the_making() {
    let mut scan = WaveformScan::new(1, 1000, 100_000);
    // 100000 frames, 97 to a peak
    for i in 0..100u16 {
        assert!(scan.push(i).is_none());
    }
    assert_eq!(scan.finish(), vec![96, 99]);
    let scan = WaveformScan::new(1, 1000, 100_000);
    assert_eq!(scan.finish(), Vec::<u16>::new());
    // a short track has a peak for every frame
    let mut scan = WaveformScan::new(2, 8000, 100);
    scan.push(5);
    scan.push(3);
    scan.push(1);
    assert_eq!(scan.finish(), vec![5]);
    // without channels every sample is a frame
    let mut scan = WaveformScan::new(0, 8000, 100);
    scan.push(5);
    scan.push(3);
    assert_eq!(scan.finish(), vec![5, 3]);
}

#[test]
fn waveform_is_scaled_to_its_loudest_peak() {
    assert_eq!(normalize_waveform(&vec![0, 50, 100, 25]), Some(vec![0, 500, 1000, 250]));
    assert_eq!(normalize_waveform(&vec![3]), Some(vec![1000]));
    assert_eq!(normalize_waveform(&vec![1, 3]), Some(vec![333, 1000]));
    assert_eq!(normalize_waveform(&vec![65535, 1]), Some(vec![1000, 0]));
    assert_eq!(normalize_waveform(&vec![0, 0]), None);
    assert_eq!(normalize_waveform(&Vec::new()), None);
}

#[test]
fn keys_go_to_the_part_in_focus() {
    assert!(focus(true, true, true) == Focus::Search);
    assert!(focus(true, false, true) == Focus::Tree);
    assert!(focus(false, true, true) == Focus::Equalizer);
    assert!(focus(false, true, false) == Focus::Player);
    let cmd = |key, focus| key_command(key, false, focus, true, true);
    for f in [Focus::Search, Focus::Tree, Focus::Equalizer, Focus::Player] {
        assert!(cmd(Key::Char('q'), f) == Command::Quit);
        assert!(key_command(Key::Char('c'), true, f, false, false) == Command::Quit);
        assert!(cmd(Key::Other, f) == Command::Nothing);
    }
    assert!(cmd(Key::Char('c'), Focus::Search) == Command::SearchType('c'));
    assert!(cmd(Key::Char('/'), Focus::Search) == Command::SearchType('/'));
    assert!(cmd(Key::Esc, Focus::Search) == Command::SearchClose);
    assert!(cmd(Key::Backspace, Focus::Search) == Command::SearchBackspace);
    assert!(cmd(Key::Enter, Focus::Search) == Command::SearchChoose);
    assert!(cmd(Key::Up, Focus::Search) == Command::SearchUp);
    assert!(cmd(Key::Left, Focus::Search) == Command::Nothing);
    assert!(cmd(Key::Char('/'), Focus::Tree) == Command::TreeSearch);
    assert!(cmd(Key::Char('f'), Focus::Tree) == Command::BrowserClose);
    assert!(cmd(Key::Esc, Focus::Tree) == Command::BrowserClose);
    assert!(key_command(Key::Esc, false, Focus::Tree, false, true) == Command::Nothing);
    assert!(key_command(Key::Char('f'), false, Focus::Tree, false, true) == Command::Nothing);
    assert!(cmd(Key::Enter, Focus::Tree) == Command::TreeEnter);
    assert!(cmd(Key::Left, Focus::Tree) == Command::TreeLeft);
    assert!(cmd(Key::Up, Focus::Equalizer) == Command::EqRaise);
    assert!(cmd(Key::Down, Focus::Equalizer) == Command::EqLower);
    assert!(cmd(Key::Left, Focus::Equalizer) == Command::EqLeft);
    assert!(cmd(Key::Char('p'), Focus::Equalizer) == Command::EqNextPreset);
    assert!(cmd(Key::Char('0'), Focus::Equalizer) == Command::EqFlat);
    assert!(cmd(Key::Char('s'), Focus::Equalizer) == Command::EqToggle);
    assert!(cmd(Key::Char('e'), Focus::Equalizer) == Command::EqClose);
    assert!(cmd(Key::Esc, Focus::Equalizer) == Command::EqClose);
    assert!(cmd(Key::Enter, Focus::Equalizer) == Command::Nothing);
}

#[test]
fn keys_of_the_player() {
    let cmd = |key| key_command(key, false, Focus::Player, true, true);
    let idle = |key| key_command(key, false, Focus::Player, false, false);
    assert!(cmd(Key::Char(' ')) == Command::TogglePause);
    assert!(idle(Key::Char(' ')) == Command::Nothing);
    assert!(cmd(Key::Up) == Command::VolumeUp);
    assert!(idle(Key::Down) == Command::VolumeDown);
    assert!(cmd(Key::Right) == Command::SeekForward);
    assert!(cmd(Key::Left) == Command::SeekBack);
    assert!(idle(Key::Right) == Command::Nothing);
    assert!(cmd(Key::Char('v')) == Command::NextVisMode);
    assert!(cmd(Key::Char('l')) == Command::ToggleLyrics);
    assert!(cmd(Key::Char('j')) == Command::LyricsDown);
    assert!(cmd(Key::Char('k')) == Command::LyricsUp);
    assert!(cmd(Key::Char('f')) == Command::OpenBrowser);
    assert!(idle(Key::Char('f')) == Command::Nothing);
    assert!(cmd(Key::Char('e')) == Command::OpenEq);
    assert!(cmd(Key::Char('n')) == Command::NextTrack);
    assert!(cmd(Key::Char('N')) == Command::PrevTrack);
    assert!(idle(Key::Char('n')) == Command::Nothing);
    assert!(idle(Key::Char('r')) == Command::CycleRepeat);
    assert!(idle(Key::Char('s')) == Command::ToggleShuffle);
    assert!(cmd(Key::Char('c')) == Command::Nothing);
    assert!(cmd(Key::Enter) == Command::Nothing);
    assert!(cmd(Key::Esc) == Command::Nothing);
}

#[test]
fn mouse_targets() {
    let regions = LayoutRegions {
        now_playing: rect(0, 0, 80, 4),
        progress: rect(0, 20, 80, 3),
        volume: rect(0, 23, 80, 3),
        visualizer: rect(0, 4, 77, 16),
        lyrics: rect(77, 4, 3, 16),
        lyrics_title: rect(77, 4, 3, 1),
        eq_inner: rect(0, 0, 0, 0),
    };
    assert!(click_target(&regions, false, 5, 1) == ClickTarget::NowPlaying);
    assert!(click_target(&regions, false, 5, 21) == ClickTarget::Progress);
    assert!(click_target(&regions, false, 5, 24) == ClickTarget::Volume);
    assert!(click_target(&regions, false, 5, 10) == ClickTarget::Visualizer);
    assert!(click_target(&regions, false, 78, 10) == ClickTarget::LyricsToggle);
    assert!(click_target(&regions, true, 78, 10) == ClickTarget::Nowhere);
    assert!(click_target(&regions, true, 78, 4) == ClickTarget::LyricsToggle);
    assert!(click_target(&regions, false, 5, 30) == ClickTarget::Nowhere);
    assert!(wheel_target(&regions, true, 78, 10) == WheelTarget::Lyrics);
    assert!(wheel_target(&regions, false, 78, 10) == WheelTarget::Volume);
    assert!(wheel_target(&regions, true, 5, 10) == WheelTarget::Volume);
}

#[test]
fn first_lyrics_win() {
    let found = |text: &str| {
        FetchEvent::Found(LyricsResult { text: text.to_string(), url: "u".to_string(), art_url: None })
    };
    let mut p = LyricsPanel::for_track(true);
    assert!(p.loading && p.lyrics.is_none() && p.scroll == 0);
    assert_eq!(p.body("http://x"), "Loading...\n\nhttp://x");
    assert!(p.on_fetch(FetchEvent::NotFound));
    assert!(p.loading);
    assert!(!p.on_fetch(found("first")));
    assert!(!p.loading);
    assert_eq!(p.body("http://x"), "first");
    assert!(!p.on_fetch(found("second")));
    assert_eq!(p.lyrics.as_ref().unwrap().text, "first");
    assert!(!p.on_fetch(FetchEvent::Exhausted));
    assert_eq!(p.lyrics.as_ref().unwrap().text, "first");

    let mut p = LyricsPanel::for_track(true);
    assert!(p.on_fetch(FetchEvent::NotFound));
    assert!(p.on_fetch(FetchEvent::NotFound));
    assert!(!p.on_fetch(FetchEvent::Exhausted));
    assert!(!p.loading && p.lyrics.is_none());
    assert_eq!(p.body("u"), "No lyrics found");

    let mut p = LyricsPanel::for_track(false);
    assert!(!p.on_fetch(found("late")));
    assert!(p.lyrics.is_none());
    p.scroll_up();
    assert_eq!(p.scroll, 0);
    p.scroll_down();
    p.scroll_down();
    p.scroll_up();
    assert_eq!(p.scroll, 1);
    p.scroll = usize::MAX;
    p.scroll_down();
    assert_eq!(p.scroll, usize::MAX);
}
