use tui_player::eq::EqParams;
use tui_player::settings::{
    choice_from_text, eq_from_text, flag_from_text, format_centi, format_eq, format_flag,
    format_index, format_volume, read_centi, read_index, repeat_mode_from_text, repeat_mode_name,
    vis_mode_from_text, vis_mode_name, volume_from_text,
};
use tui_player::transport::order::RepeatMode;
use tui_player::visualizer::VisMode;

fn centi(text: &str, limit: i32) -> Option<i32> {
    let v: Vec<char> = text.chars().collect();
    read_centi(&v, 0, v.len(), limit)
}

fn index(text: &str) -> Option<usize> {
    let v: Vec<char> = text.chars().collect();
    read_index(&v, 0, v.len())
}

#[test]
fn centi_is_written_as_short_as_it_goes() {
    assert_eq!(format_centi(0), "0");
    assert_eq!(format_centi(300), "3");
    assert_eq!(format_centi(-100), "-1");
    assert_eq!(format_centi(150), "1.5");
    assert_eq!(format_centi(5), "0.05");
    assert_eq!(format_centi(-5), "-0.05");
    assert_eq!(format_centi(-1234), "-12.34");
    assert_eq!(format_centi(1200), "12");
    assert_eq!(format_centi(1210), "12.1");
    assert_eq!(format_centi(i32::MAX), "21474836.47");
    assert_eq!(format_centi(i32::MIN), "-21474836.48");
}

#[test]
fn centi_is_read_with_sign_point_and_blanks() {
    assert_eq!(centi("0", 1200), Some(0));
    assert_eq!(centi("3", 1200), Some(300));
    assert_eq!(centi("-1", 1200), Some(-100));
    assert_eq!(centi("+1.5", 1200), Some(150));
    assert_eq!(centi("  0.05\n", 1200), Some(5));
    assert_eq!(centi(".5", 1200), Some(50));
    assert_eq!(centi("5.", 1200), Some(500));
    assert_eq!(centi("-.25", 1200), Some(-25));
    assert_eq!(centi("007", 1200), Some(700));
}

#[test]
fn centi_rounds_at_the_third_decimal() {
    assert_eq!(centi("0.004", 1200), Some(0));
    assert_eq!(centi("0.005", 1200), Some(1));
    assert_eq!(centi("0.0049999", 1200), Some(0));
    assert_eq!(centi("1.995", 1200), Some(200));
    assert_eq!(centi("-0.125", 1200), Some(-13));
    assert_eq!(centi("0.999", 1200), Some(100));
}

#[test]
fn centi_is_limited() {
    assert_eq!(centi("13", 1200), Some(1200));
    assert_eq!(centi("-13", 1200), Some(-1200));
    assert_eq!(centi("12.01", 1200), Some(1200));
    assert_eq!(centi("99999999999999999999999999999999999999999999", 1200), Some(1200));
    assert_eq!(centi("-99999999999999999999999999999999999999999999", 7), Some(-7));
    assert_eq!(centi("5", 0), Some(0));
}

#[test]
fn centi_rejects_what_is_no_number() {
    for text in ["", " ", "-", "+", ".", "-.", "abc", "1e3", "1,5", "1.2.3", "--1", "1 2", "inf", "NaN", "0x10"] {
        assert_eq!(centi(text, 1200), None, "{text:?}");
    }
}

#[test]
fn centi_round_trips() {
    for v in [-1200, -1199, -100, -1, 0, 1, 9, 10, 99, 100, 101, 250, 1200] {
        assert_eq!(centi(&format_centi(v), 1200), Some(v));
    }
}

#[test]
fn index_is_read() {
    assert_eq!(index("0"), Some(0));
    assert_eq!(index(" 12 "), Some(12));
    assert_eq!(index("+5"), Some(5));
    assert_eq!(index("-5"), None);
    assert_eq!(index(""), None);
    assert_eq!(index("+"), None);
    assert_eq!(index("1.0"), None);
    assert_eq!(index(&usize::MAX.to_string()), Some(usize::MAX));
    assert_eq!(index("340282366920938463463374607431768211456"), None);
    assert_eq!(format_index(0), "0");
    assert_eq!(format_index(42), "42");
}

#[test]
fn flags_are_read_and_written() {
    assert_eq!(format_flag(true), "true");
    assert_eq!(format_flag(false), "false");
    assert!(flag_from_text(Some("true")));
    assert!(flag_from_text(Some(" true\n")));
    assert!(!flag_from_text(Some("false")));
    assert!(!flag_from_text(Some("True")));
    assert!(!flag_from_text(Some("")));
    assert!(!flag_from_text(None));
}

#[test]
fn volume_is_read_and_written() {
    assert_eq!(volume_from_text(None), 20);
    assert_eq!(volume_from_text(Some("1")), 20);
    assert_eq!(volume_from_text(Some("0.5")), 10);
    assert_eq!(volume_from_text(Some("0.05\n")), 1);
    assert_eq!(volume_from_text(Some("2")), 40);
    assert_eq!(volume_from_text(Some("3")), 40);
    assert_eq!(volume_from_text(Some("-1")), 0);
    assert_eq!(volume_from_text(Some("abc")), 20);
    assert_eq!(volume_from_text(Some("")), 20);
    assert_eq!(volume_from_text(Some("1.25")), 25);
    assert_eq!(volume_from_text(Some("0.024")), 0);
    assert_eq!(volume_from_text(Some("0.025")), 1);
    assert_eq!(volume_from_text(Some("0.07")), 1);
    assert_eq!(volume_from_text(Some("0.08")), 2);
    assert_eq!(format_volume(20), "1");
    assert_eq!(format_volume(25), "1.25");
    assert_eq!(format_volume(1), "0.05");
    assert_eq!(format_volume(0), "0");
    assert_eq!(format_volume(40), "2");
    assert_eq!(format_volume(10), "0.5");
}

#[test]
fn volume_round_trips() {
    for steps in 0..=40u8 {
        assert_eq!(volume_from_text(Some(&format_volume(steps))), steps);
    }
}

#[test]
fn vis_mode_is_read_and_written() {
    assert_eq!(vis_mode_name(VisMode::Oscilloscope), "oscilloscope");
    assert_eq!(vis_mode_name(VisMode::Vectorscope), "vectorscope");
    assert_eq!(vis_mode_name(VisMode::Spectroscope), "spectroscope");
    assert!(vis_mode_from_text(None) == VisMode::Oscilloscope);
    assert!(vis_mode_from_text(Some("nonsense")) == VisMode::Oscilloscope);
    assert!(vis_mode_from_text(Some(" vectorscope ")) == VisMode::Vectorscope);
    for mode in [VisMode::Oscilloscope, VisMode::Vectorscope, VisMode::Spectroscope] {
        assert!(vis_mode_from_text(Some(vis_mode_name(mode))) == mode);
    }
}

#[test]
fn repeat_mode_is_read_and_written() {
    assert_eq!(repeat_mode_name(RepeatMode::Off), "off");
    assert_eq!(repeat_mode_name(RepeatMode::All), "all");
    assert_eq!(repeat_mode_name(RepeatMode::One), "one");
    assert!(repeat_mode_from_text(None) == RepeatMode::Off);
    assert!(repeat_mode_from_text(Some("ALL")) == RepeatMode::Off);
    assert!(repeat_mode_from_text(Some("one\n")) == RepeatMode::One);
    for mode in [RepeatMode::Off, RepeatMode::All, RepeatMode::One] {
        assert!(repeat_mode_from_text(Some(repeat_mode_name(mode))) == mode);
    }
}

#[test]
fn choice_falls_back_to_the_first() {
    assert_eq!(choice_from_text(Some("3"), 13), 3);
    assert_eq!(choice_from_text(Some("12"), 13), 12);
    assert_eq!(choice_from_text(Some("13"), 13), 0);
    assert_eq!(choice_from_text(Some("x"), 13), 0);
    assert_eq!(choice_from_text(None, 13), 0);
}

#[test]
fn eq_defaults_without_a_file() {
    for content in [None, Some("")] {
        let p = eq_from_text(content);
        assert!(p.enabled);
        assert_eq!(p.preset_index, 0);
        assert_eq!(p.gains, [0i16; 32]);
    }
}

#[test]
fn eq_missing_lines_stand_for_defaults() {
    let p = eq_from_text(Some("false"));
    assert!(!p.enabled);
    assert_eq!(p.preset_index, 0);
    assert_eq!(p.gains, [0i16; 32]);
    let p = eq_from_text(Some("true\n5"));
    assert!(p.enabled);
    assert_eq!(p.preset_index, 5);
    assert_eq!(p.gains, [0i16; 32]);
    let p = eq_from_text(Some("true\n5\n"));
    assert_eq!(p.preset_index, 5);
    assert_eq!(p.gains, [0i16; 32]);
    let p = eq_from_text(Some("\n\n1"));
    assert!(!p.enabled);
    assert_eq!(p.preset_index, 0);
    assert_eq!(p.gains[0], 100);
}

#[test]
fn eq_gains_are_read_limited_and_skipped() {
    let p = eq_from_text(Some("garbage\nx\n1.5, -2.25 ,abc,13,-20,0.005,0.004,,7\nignored"));
    assert!(!p.enabled);
    assert_eq!(p.preset_index, 0);
    let mut want = [0i16; 32];
    want[0] = 150;
    want[1] = -225;
    want[3] = 1200;
    want[4] = -1200;
    want[5] = 1;
    want[8] = 700;
    assert_eq!(p.gains, want);
}

#[test]
fn eq_reads_no_more_than_32_gains() {
    let line = vec!["1"; 40].join(",");
    let p = eq_from_text(Some(&format!("true\r\n3\r\n{line}\r\n")));
    assert!(p.enabled);
    assert_eq!(p.preset_index, 3);
    assert_eq!(p.gains, [100i16; 32]);
}

#[test]
fn eq_is_written_in_three_lines() {
    let mut p = EqParams::default();
    p.gains[0] = 300;
    p.gains[1] = -150;
    p.gains[31] = 1200;
    p.preset_index = 7;
    let zeros = vec!["0"; 29].join(",");
    assert_eq!(format_eq(&p), format!("true\n7\n3,-1.5,{zeros},12"));
    p.enabled = false;
    assert!(format_eq(&p).starts_with("false\n7\n"));
}

#[test]
fn eq_round_trips() {
    let mut p = EqParams::default();
    for (i, g) in p.gains.iter_mut().enumerate() {
        *g = (i as i16 * 77) % 1201 - 600;
    }
    p.gains[3] = 1200;
    p.gains[4] = -1200;
    p.gains[5] = 1;
    p.preset_index = 10;
    for enabled in [true, false] {
        p.enabled = enabled;
        let back = eq_from_text(Some(&format_eq(&p)));
        assert_eq!(back.enabled, p.enabled);
        assert_eq!(back.preset_index, p.preset_index);
        assert_eq!(back.gains, p.gains);
    }
}
