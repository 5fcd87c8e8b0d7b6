use tui_player::ring::{SampleRing, SAMPLE_BUF_SIZE};

#[test]
fn ring_keeps_the_newest_samples() {
    let mut ring: SampleRing<i32> = SampleRing::new(3);
    assert!(ring.is_empty());
    ring.push(1);
    ring.push(2);
    ring.push(3);
    assert_eq!(ring.snapshot(), vec![1, 2, 3]);
    ring.push(4);
    assert_eq!(ring.snapshot(), vec![2, 3, 4]);
    ring.push(5);
    assert_eq!(ring.snapshot(), vec![3, 4, 5]);
    assert_eq!(ring.len(), 3);
    assert_eq!(ring.capacity(), 3);
    assert_eq!(ring.get(0), Some(3));
    assert_eq!(ring.get(2), Some(5));
    assert_eq!(ring.get(3), None);
}

#[test]
fn ring_clear_empties() {
    let mut ring: SampleRing<f32> = SampleRing::new(SAMPLE_BUF_SIZE);
    for i in 0..10000 {
        ring.push(i as f32);
    }
    assert_eq!(ring.len(), 8192);
    assert_eq!(ring.get(0), Some(1808.0));
    ring.clear();
    assert!(ring.is_empty());
    assert_eq!(ring.snapshot(), Vec::<f32>::new());
    assert_eq!(ring.capacity(), 8192);
}

#[test]
fn ring_of_capacity_zero_holds_one_sample() {
    let mut ring: SampleRing<u8> = SampleRing::new(0);
    ring.push(1);
    assert_eq!(ring.snapshot(), vec![1]);
    ring.push(2);
    assert_eq!(ring.snapshot(), vec![2]);
}

#[test]
fn ring_of_capacity_one() {
    let mut ring: SampleRing<u8> = SampleRing::new(1);
    ring.push(1);
    ring.push(2);
    assert_eq!(ring.snapshot(), vec![2]);
}
