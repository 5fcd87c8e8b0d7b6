use tui_player::meta::TrackMeta;
use tui_player::ring::SampleRing;
use tui_player::transport::order::{find_next_path, find_prev_path, RepeatMode};
use tui_player::transport::shuffle::{shuffle_indices, shuffle_with_seed};
use tui_player::transport::{
    shift_position, snap_volume, Advance, Ending, TrackHandle, Transport,
};

fn names(list: &[&str]) -> Vec<String> {
    list.iter().map(|s| s.to_string()).collect()
}

fn track(path: &str, duration_ms: Option<u64>) -> TrackHandle {
    TrackHandle {
        path: path.to_string(),
        file_name: path.to_string(),
        meta: TrackMeta::default(),
        duration_ms,
        channels: 2,
        sample_rate: 44100,
        gain_centi_db: None,
    }
}

fn next(files: &[&str], current: &str, repeat: RepeatMode, shuffle: bool, order: &[usize]) -> Option<String> {
    find_next_path(&names(files), &current.to_string(), repeat, shuffle, &order.to_vec())
}

fn prev(files: &[&str], current: &str, repeat: RepeatMode, shuffle: bool, order: &[usize]) -> Option<String> {
    find_prev_path(&names(files), &current.to_string(), repeat, shuffle, &order.to_vec())
}

#[test]
fn repeat_mode_cycles_and_labels() {
    assert!(RepeatMode::Off.next() == RepeatMode::All);
    assert!(RepeatMode::All.next() == RepeatMode::One);
    assert!(RepeatMode::One.next() == RepeatMode::Off);
    assert_eq!(RepeatMode::Off.label(), "Repeat Off");
    assert_eq!(RepeatMode::All.label(), "Repeat All");
    assert_eq!(RepeatMode::One.label(), "Repeat One");
}

#[test]
fn policy_linear_order() {
    let abc = ["A", "B", "C"];
    assert_eq!(next(&abc, "A", RepeatMode::Off, false, &[]), Some("B".to_string()));
    assert_eq!(next(&abc, "B", RepeatMode::Off, false, &[]), Some("C".to_string()));
    assert_eq!(next(&abc, "C", RepeatMode::Off, false, &[]), None);
    assert_eq!(next(&abc, "C", RepeatMode::All, false, &[]), Some("A".to_string()));
    assert_eq!(next(&abc, "X", RepeatMode::All, false, &[]), None);
    assert_eq!(next(&[], "A", RepeatMode::All, false, &[]), None);
}

#[test]
fn policy_repeat_one_stays() {
    let abc = ["A", "B", "C"];
    for t in abc {
        assert_eq!(next(&abc, t, RepeatMode::One, false, &[]), Some(t.to_string()));
        assert_eq!(next(&abc, t, RepeatMode::One, true, &[2, 0, 1]), Some(t.to_string()));
        assert_eq!(prev(&abc, t, RepeatMode::One, false, &[]), Some(t.to_string()));
    }
    assert_eq!(next(&abc, "X", RepeatMode::One, false, &[]), Some("X".to_string()));
    assert_eq!(next(&[], "A", RepeatMode::One, false, &[]), Some("A".to_string()));
    assert_eq!(next(&[], "A", RepeatMode::One, true, &[]), Some("A".to_string()));
    assert_eq!(prev(&[], "A", RepeatMode::One, false, &[]), Some("A".to_string()));
    assert_eq!(prev(&[], "A", RepeatMode::Off, false, &[]), None);
}

#[test]
fn policy_shuffle_walks_the_permutation() {
    let abc = ["A", "B", "C"];
    let order = [2usize, 0, 1];
    assert_eq!(next(&abc, "C", RepeatMode::Off, true, &order), Some("A".to_string()));
    assert_eq!(next(&abc, "A", RepeatMode::Off, true, &order), Some("B".to_string()));
    assert_eq!(next(&abc, "B", RepeatMode::Off, true, &order), None);
    assert_eq!(next(&abc, "B", RepeatMode::All, true, &order), Some("C".to_string()));
    assert_eq!(next(&abc, "X", RepeatMode::All, true, &order), None);
}

#[test]
fn policy_shuffle_without_order_falls_back_to_the_list() {
    let abc = ["A", "B", "C"];
    assert_eq!(next(&abc, "A", RepeatMode::Off, true, &[]), Some("B".to_string()));
    assert_eq!(prev(&abc, "B", RepeatMode::Off, true, &[]), Some("A".to_string()));
}

#[test]
fn policy_shuffle_order_beyond_the_list() {
    let abc = ["A", "B", "C"];
    assert_eq!(next(&abc, "A", RepeatMode::Off, true, &[0, 7]), None);
    assert_eq!(next(&abc, "B", RepeatMode::All, true, &[9, 1]), None);
    assert_eq!(next(&abc, "B", RepeatMode::All, true, &[9, 1, 0]), Some("A".to_string()));
}

#[test]
fn policy_previous_track() {
    let abc = ["A", "B", "C"];
    assert_eq!(prev(&abc, "C", RepeatMode::Off, false, &[]), Some("B".to_string()));
    assert_eq!(prev(&abc, "A", RepeatMode::Off, false, &[]), None);
    assert_eq!(prev(&abc, "A", RepeatMode::All, false, &[]), Some("C".to_string()));
    let order = [2usize, 0, 1];
    assert_eq!(prev(&abc, "A", RepeatMode::Off, true, &order), Some("C".to_string()));
    assert_eq!(prev(&abc, "C", RepeatMode::Off, true, &order), None);
    assert_eq!(prev(&abc, "C", RepeatMode::All, true, &order), Some("B".to_string()));
}

#[test]
fn policy_takes_the_first_of_equal_paths() {
    let list = ["A", "B", "A", "C"];
    assert_eq!(next(&list, "A", RepeatMode::Off, false, &[]), Some("B".to_string()));
}

#[test]
fn shuffle_with_seed_is_fixed_by_the_seed() {
    assert_eq!(shuffle_with_seed(8, 42), vec![0, 5, 1, 7, 3, 4, 2, 6]);
    assert_eq!(shuffle_with_seed(5, 0), vec![4, 3, 1, 0, 2]);
    assert_eq!(shuffle_with_seed(3, 12345), vec![0, 2, 1]);
    assert_eq!(shuffle_with_seed(0, 7), Vec::<usize>::new());
    assert_eq!(shuffle_with_seed(1, 7), vec![0]);
}

#[test]
fn shuffle_indices_is_a_permutation() {
    for len in [0usize, 1, 2, 17, 100] {
        let mut order = shuffle_indices(len);
        assert_eq!(order.len(), len);
        order.sort();
        assert_eq!(order, (0..len).collect::<Vec<_>>());
    }
}

#[test]
fn volume_snaps_to_the_grid() {
    assert_eq!(snap_volume(0), 0);
    assert_eq!(snap_volume(24), 0);
    assert_eq!(snap_volume(25), 1);
    assert_eq!(snap_volume(1000), 20);
    assert_eq!(snap_volume(1274), 25);
    assert_eq!(snap_volume(1275), 26);
    assert_eq!(snap_volume(2000), 40);
    assert_eq!(snap_volume(2001), 40);
    assert_eq!(snap_volume(u32::MAX), 40);
}

#[test]
fn volume_steps_stay_on_the_scale() {
    let mut t = Transport::new(1950, RepeatMode::Off, false);
    assert_eq!(t.volume_steps(), 39);
    assert_eq!(t.volume_up(), 40);
    assert_eq!(t.volume_up(), 40);
    assert_eq!(t.set_volume(60), 1);
    assert_eq!(t.volume_down(), 0);
    assert_eq!(t.volume_down(), 0);
    assert_eq!(t.volume_steps(), 0);
}

#[test]
fn new_transport_is_idle() {
    let t = Transport::new(1000, RepeatMode::All, true);
    assert!(!t.is_loaded());
    assert!(t.is_paused());
    assert_eq!(t.volume_steps(), 20);
    assert!(t.repeat_mode() == RepeatMode::All);
    assert!(t.shuffle());
    assert!(t.shuffle_order().is_empty());
    assert!(t.current().is_none());
    assert!(t.queued().is_none());
    assert_eq!(t.queue_next(&names(&["A", "B"])), None);
    assert_eq!(t.find_next_path(&names(&["A", "B"])), None);
}

#[test]
fn load_starts_the_track_and_plans_a_prefetch() {
    let files = names(&["A", "B", "C"]);
    let mut ring: SampleRing<i16> = SampleRing::new(4);
    ring.push(5);
    let mut t = Transport::new(1000, RepeatMode::Off, false);
    let before = t.pipeline();
    let prefetch = t.load(track("A", Some(60_000)), &files, &mut ring);
    assert_eq!(prefetch, Some("B".to_string()));
    assert!(t.is_loaded());
    assert!(!t.is_paused());
    assert_eq!(t.position(0), 0);
    assert_eq!(t.position(1500), 1500);
    assert!(ring.is_empty());
    assert!(t.pipeline() != before);
    assert_eq!(t.current().unwrap().path, "A");
    assert!(t.queued().is_none());
}

#[test]
fn at_most_one_track_is_queued() {
    let files = names(&["A", "B", "C"]);
    let mut ring: SampleRing<i16> = SampleRing::new(4);
    let mut t = Transport::new(1000, RepeatMode::Off, false);
    t.load(track("A", None), &files, &mut ring);
    assert_eq!(t.queue_next(&files), Some("B".to_string()));
    assert!(t.prefetched(track("B", None)));
    assert_eq!(t.queue_next(&files), None);
    assert!(!t.prefetched(track("C", None)));
    assert_eq!(t.queued().unwrap().path, "B");
}

#[test]
fn prefetch_is_refused_while_idle() {
    let mut t = Transport::new(1000, RepeatMode::Off, false);
    assert!(!t.prefetched(track("B", None)));
    assert!(t.queued().is_none());
}

#[test]
fn seek_to_reports_the_target_and_empties_the_ring() {
    let files = names(&["A", "B"]);
    let mut ring: SampleRing<i16> = SampleRing::new(8);
    let mut t = Transport::new(1000, RepeatMode::Off, false);
    t.load(track("A", Some(60_000)), &files, &mut ring);
    t.prefetched(track("B", None));
    for target in [0u64, 1, 29_999, 60_000] {
        ring.push(1);
        ring.push(2);
        let before = t.pipeline();
        let plan = t.seek_to(target, &files, &mut ring).unwrap();
        assert_eq!(plan.position_ms, target);
        assert_eq!(t.position(0), target);
        assert_eq!(t.seek_base_ms(), target);
        assert!(ring.is_empty());
        assert!(t.queued().is_none());
        assert_eq!(plan.prefetch, Some("B".to_string()));
        assert!(!plan.paused);
        assert!(t.pipeline() != before);
    }
}

#[test]
fn seek_beyond_the_end_stops_at_the_end() {
    let files = names(&["A"]);
    let mut ring: SampleRing<i16> = SampleRing::new(8);
    let mut t = Transport::new(1000, RepeatMode::Off, false);
    t.load(track("A", Some(60_000)), &files, &mut ring);
    assert_eq!(t.seek_target(60_001), 60_000);
    let plan = t.seek_to(u64::MAX, &files, &mut ring).unwrap();
    assert_eq!(plan.position_ms, 60_000);
    assert_eq!(t.position(0), 60_000);
    assert_eq!(plan.prefetch, None);
}

#[test]
fn seek_without_known_duration_goes_to_the_target() {
    let files = names(&["A"]);
    let mut ring: SampleRing<i16> = SampleRing::new(8);
    let mut t = Transport::new(1000, RepeatMode::Off, false);
    t.load(track("A", None), &files, &mut ring);
    let plan = t.seek_to(123_456_789, &files, &mut ring).unwrap();
    assert_eq!(plan.position_ms, 123_456_789);
}

#[test]
fn seek_keeps_the_pause() {
    let files = names(&["A"]);
    let mut ring: SampleRing<i16> = SampleRing::new(8);
    let mut t = Transport::new(1000, RepeatMode::Off, false);
    t.load(track("A", Some(10_000)), &files, &mut ring);
    assert!(t.toggle_pause());
    let plan = t.seek_to(5_000, &files, &mut ring).unwrap();
    assert!(plan.paused);
    assert!(t.is_paused());
    assert!(!t.toggle_pause());
}

#[test]
fn seek_while_idle_does_nothing() {
    let files = names(&["A"]);
    let mut ring: SampleRing<i16> = SampleRing::new(8);
    ring.push(9);
    let mut t = Transport::new(1000, RepeatMode::Off, false);
    assert!(t.seek_to(5, &files, &mut ring).is_none());
    assert!(t.seek(0, 5, &files, &mut ring).is_none());
    assert_eq!(ring.len(), 1);
    assert_eq!(t.pipeline(), 0);
}

#[test]
fn seek_by_seconds() {
    let files = names(&["A"]);
    let mut ring: SampleRing<i16> = SampleRing::new(8);
    let mut t = Transport::new(1000, RepeatMode::Off, false);
    t.load(track("A", Some(60_000)), &files, &mut ring);
    let plan = t.seek(12_000, 5, &files, &mut ring).unwrap();
    assert_eq!(plan.position_ms, 17_000);
    let plan = t.seek(1_000, -5, &files, &mut ring).unwrap();
    assert_eq!(plan.position_ms, 13_000);
    let plan = t.seek(0, -60, &files, &mut ring).unwrap();
    assert_eq!(plan.position_ms, 0);
    let plan = t.seek(59_000, 5, &files, &mut ring).unwrap();
    assert_eq!(plan.position_ms, 60_000);
}

#[test]
fn shift_position_saturates() {
    assert_eq!(shift_position(10_000, 5), 15_000);
    assert_eq!(shift_position(10_000, -5), 5_000);
    assert_eq!(shift_position(4_999, -5), 0);
    assert_eq!(shift_position(0, i64::MIN), 0);
    assert_eq!(shift_position(u64::MAX - 1, 1), u64::MAX);
    assert_eq!(shift_position(u64::MAX, i64::MAX), u64::MAX);
}

#[test]
fn position_saturates() {
    let files = names(&["A"]);
    let mut ring: SampleRing<i16> = SampleRing::new(8);
    let mut t = Transport::new(1000, RepeatMode::Off, false);
    t.load(track("A", None), &files, &mut ring);
    t.seek_to(u64::MAX - 5, &files, &mut ring);
    assert_eq!(t.position(5), u64::MAX);
    assert_eq!(t.position(6), u64::MAX);
}

#[test]
fn gapless_handover_promotes_the_queued_track() {
    let files = names(&["A", "B", "C"]);
    let mut ring: SampleRing<i16> = SampleRing::new(8);
    let mut t = Transport::new(1000, RepeatMode::Off, false);
    t.load(track("A", Some(1_000)), &files, &mut ring);
    t.seek_to(700, &files, &mut ring);
    assert!(!t.should_advance(true));
    assert!(t.prefetched(track("B", Some(2_000))));
    assert!(!t.should_advance(false));
    assert!(t.should_advance(true));
    ring.push(3);
    let pipeline = t.pipeline();
    match t.advance_to_queued(&files, &mut ring) {
        Advance::Promoted { prefetch } => assert_eq!(prefetch, Some("C".to_string())),
        Advance::Nothing => panic!("a track was queued"),
    }
    assert_eq!(t.position(0), 0);
    assert_eq!(t.pipeline(), pipeline);
    assert_eq!(t.current().unwrap().path, "B");
    assert_eq!(t.current().unwrap().duration_ms, Some(2_000));
    assert!(t.queued().is_none());
    assert!(ring.is_empty());
    assert!(t.is_loaded());
}

#[test]
fn handover_at_the_end_of_the_list_plans_nothing() {
    let files = names(&["A", "B"]);
    let mut ring: SampleRing<i16> = SampleRing::new(8);
    let mut t = Transport::new(1000, RepeatMode::Off, false);
    t.load(track("A", None), &files, &mut ring);
    t.prefetched(track("B", None));
    match t.advance_to_queued(&files, &mut ring) {
        Advance::Promoted { prefetch } => assert_eq!(prefetch, None),
        Advance::Nothing => panic!("a track was queued"),
    }
}

#[test]
fn handover_without_a_queued_track_changes_nothing() {
    let files = names(&["A", "B"]);
    let mut ring: SampleRing<i16> = SampleRing::new(8);
    let mut t = Transport::new(1000, RepeatMode::Off, false);
    t.load(track("A", None), &files, &mut ring);
    t.seek_to(500, &files, &mut ring);
    ring.push(1);
    assert!(matches!(t.advance_to_queued(&files, &mut ring), Advance::Nothing));
    assert_eq!(t.position(0), 500);
    assert_eq!(ring.len(), 1);
    assert_eq!(t.current().unwrap().path, "A");
}

#[test]
fn end_of_queue_decisions() {
    let files = names(&["A"]);
    let mut ring: SampleRing<i16> = SampleRing::new(8);
    let mut t = Transport::new(1000, RepeatMode::Off, false);
    assert!(t.end_of_queue(true, true) == Ending::Continue);
    t.load(track("A", None), &files, &mut ring);
    assert!(t.end_of_queue(false, true) == Ending::Continue);
    t.toggle_pause();
    assert!(t.end_of_queue(true, true) == Ending::Continue);
    t.toggle_pause();
    assert!(t.end_of_queue(true, false) == Ending::Quit);
    assert!(t.is_loaded());
    assert!(t.end_of_queue(true, true) == Ending::OpenBrowser);
    assert!(!t.is_loaded());
    assert!(t.end_of_queue(true, true) == Ending::Continue);
}

#[test]
fn toggle_shuffle_draws_and_forgets_the_order() {
    let mut t = Transport::new(1000, RepeatMode::Off, false);
    assert!(t.toggle_shuffle(6));
    let mut order = t.shuffle_order().clone();
    order.sort();
    assert_eq!(order, vec![0, 1, 2, 3, 4, 5]);
    assert!(!t.toggle_shuffle(6));
    assert!(t.shuffle_order().is_empty());
    t.regenerate_shuffle(3);
    assert_eq!(t.shuffle_order().len(), 3);
    assert!(!t.shuffle());
}

#[test]
fn cycle_repeat_moves_through_the_modes() {
    let mut t = Transport::new(1000, RepeatMode::Off, false);
    assert!(t.cycle_repeat() == RepeatMode::All);
    assert!(t.cycle_repeat() == RepeatMode::One);
    assert!(t.cycle_repeat() == RepeatMode::Off);
    assert!(t.repeat_mode() == RepeatMode::Off);
}

#[test]
fn repeat_one_prefetches_the_current_track() {
    let files = names(&["A", "B"]);
    let mut ring: SampleRing<i16> = SampleRing::new(8);
    let mut t = Transport::new(1000, RepeatMode::One, false);
    assert_eq!(t.load(track("B", None), &files, &mut ring), Some("B".to_string()));
    assert_eq!(t.find_prev_path(&files), Some("B".to_string()));
}

#[test]
fn repeat_one_stays_without_a_list_of_tracks() {
    let none: Vec<String> = Vec::new();
    let mut ring: SampleRing<i16> = SampleRing::new(8);
    let mut t = Transport::new(1000, RepeatMode::One, false);
    assert_eq!(t.load(track("song.mp3", None), &none, &mut ring), Some("song.mp3".to_string()));
    assert_eq!(t.find_next_path(&none), Some("song.mp3".to_string()));
    assert_eq!(t.find_prev_path(&none), Some("song.mp3".to_string()));
    let mut t = Transport::new(1000, RepeatMode::All, false);
    assert_eq!(t.load(track("song.mp3", None), &none, &mut ring), None);
    assert_eq!(t.find_next_path(&none), None);
    assert_eq!(t.find_prev_path(&none), None);
}
