use zadclipper::automation::Automation;
use zadclipper::model::{Param, ZaDClipperModel};

const PARAMS: [Param; 5] =
    [Param::DcLeft, Param::DcRight, Param::DcAmount, Param::Drive, Param::OutGain];

fn buffer_of(len: usize) -> Vec<ZaDClipperModel> {
    vec![ZaDClipperModel::default(); len]
}

#[test]
fn new_automation_rests_at_the_initial_values() {
    let initial = ZaDClipperModel::new(1, 2, 3, 4, 5).unwrap();
    let automation = Automation::new(initial);
    assert_eq!(automation.current(), initial);
    assert_eq!(automation.target(), initial);
}

#[test]
fn resolve_at_rest_repeats_the_values_in_effect() {
    let initial = ZaDClipperModel::new(-300_000, 200_000, 900_000, 3_000_000, 45_000_000).unwrap();
    let mut automation = Automation::new(initial);
    let mut frames = buffer_of(16);
    automation.resolve(&mut frames);
    assert_eq!(frames.len(), 16);
    for frame in &frames {
        assert_eq!(*frame, initial);
    }
    assert_eq!(automation.current(), initial);
    assert_eq!(automation.target(), initial);
}

#[test]
fn set_changes_the_target_and_not_the_values_in_effect() {
    let mut automation = Automation::new(ZaDClipperModel::default());
    assert!(automation.set(Param::Drive, 2_000_000));
    assert_eq!(automation.current(), ZaDClipperModel::default());
    assert_eq!(automation.target().get(Param::Drive), 2_000_000);
    for p in [Param::DcLeft, Param::DcRight, Param::DcAmount, Param::OutGain] {
        assert_eq!(automation.target().get(p), p.default_value());
    }
}

#[test]
fn set_turns_down_a_value_outside_the_range() {
    let mut automation = Automation::new(ZaDClipperModel::default());
    for p in PARAMS {
        assert!(!automation.set(p, p.max() + 1));
        assert!(!automation.set(p, p.min() - 1));
        assert_eq!(automation.target(), ZaDClipperModel::default());
        assert_eq!(automation.current(), ZaDClipperModel::default());
    }
    assert!(!automation.set(Param::Drive, 24_000_001));
    assert!(automation.set(Param::Drive, 24_000_000));
    assert!(automation.set(Param::Drive, 0));
}

#[test]
fn resolve_ramps_in_a_straight_line_to_the_target() {
    let mut automation = Automation::new(ZaDClipperModel::default());
    assert!(automation.set(Param::Drive, 2_000_000));
    let mut frames = buffer_of(4);
    automation.resolve(&mut frames);
    let drives: Vec<i64> = frames.iter().map(|f| f.get(Param::Drive)).collect();
    assert_eq!(drives, vec![1_250_000, 1_500_000, 1_750_000, 2_000_000]);
    for frame in &frames {
        assert_eq!(frame.get(Param::DcLeft), 0);
        assert_eq!(frame.get(Param::DcRight), 0);
        assert_eq!(frame.get(Param::DcAmount), 1_000_000);
        assert_eq!(frame.get(Param::OutGain), 1_000_000);
    }
}

#[test]
fn resolve_rounds_the_distance_covered_down() {
    let start = ZaDClipperModel::new(0, 10, 0, 0, 0).unwrap();
    let mut automation = Automation::new(start);
    assert!(automation.set(Param::DcLeft, 10));
    assert!(automation.set(Param::DcRight, 0));
    let mut frames = buffer_of(3);
    automation.resolve(&mut frames);
    let left: Vec<i64> = frames.iter().map(|f| f.get(Param::DcLeft)).collect();
    let right: Vec<i64> = frames.iter().map(|f| f.get(Param::DcRight)).collect();
    assert_eq!(left, vec![3, 6, 10]);
    assert_eq!(right, vec![7, 4, 0]);
}

#[test]
fn resolve_ramps_every_parameter_at_once() {
    let start = ZaDClipperModel::new(-1_000_000, 1_000_000, 0, 0, 100_000_000).unwrap();
    let end = ZaDClipperModel::new(1_000_000, -1_000_000, 1_000_000, 24_000_000, 0).unwrap();
    let mut automation = Automation::new(start);
    assert!(automation.set(Param::DcLeft, 1_000_000));
    assert!(automation.set(Param::DcRight, -1_000_000));
    assert!(automation.set(Param::DcAmount, 1_000_000));
    assert!(automation.set(Param::Drive, 24_000_000));
    assert!(automation.set(Param::OutGain, 0));
    assert_eq!(automation.target(), end);
    let mut frames = buffer_of(7);
    automation.resolve(&mut frames);
    let left: Vec<i64> = frames.iter().map(|f| f.get(Param::DcLeft)).collect();
    assert_eq!(left, vec![-714_286, -428_572, -142_858, 142_857, 428_571, 714_285, 1_000_000]);
    let right: Vec<i64> = frames.iter().map(|f| f.get(Param::DcRight)).collect();
    assert_eq!(right, vec![714_286, 428_572, 142_858, -142_857, -428_571, -714_285, -1_000_000]);
    assert_eq!(frames[6], end);
}

#[test]
fn resolve_ramps_down_as_well_as_up() {
    let start = ZaDClipperModel::new(0, 0, 0, 0, 100_000_000).unwrap();
    let mut automation = Automation::new(start);
    assert!(automation.set(Param::OutGain, 0));
    let mut frames = buffer_of(6);
    automation.resolve(&mut frames);
    let gains: Vec<i64> = frames.iter().map(|f| f.get(Param::OutGain)).collect();
    assert_eq!(gains, vec![83_333_334, 66_666_667, 50_000_000, 33_333_334, 16_666_667, 0]);
}

#[test]
fn resolve_reaches_the_target_at_the_last_sample_of_the_buffer() {
    for len in [1usize, 2, 3, 64, 127, 128, 1000] {
        let mut automation = Automation::new(ZaDClipperModel::default());
        assert!(automation.set(Param::Drive, 24_000_000));
        assert!(automation.set(Param::DcLeft, -1_000_000));
        let target = automation.target();
        let mut frames = buffer_of(len);
        automation.resolve(&mut frames);
        assert_eq!(frames.len(), len);
        assert_eq!(frames[len - 1], target);
        assert_eq!(automation.current(), target);
        assert_eq!(automation.target(), target);
    }
}

#[test]
fn resolve_over_a_long_buffer() {
    let start = ZaDClipperModel::new(0, 0, 0, 0, 0).unwrap();
    let mut automation = Automation::new(start);
    assert!(automation.set(Param::Drive, 24_000_000));
    let mut frames = buffer_of(128);
    automation.resolve(&mut frames);
    assert_eq!(frames[0].get(Param::Drive), 187_500);
    assert_eq!(frames[1].get(Param::Drive), 375_000);
    assert_eq!(frames[63].get(Param::Drive), 12_000_000);
    assert_eq!(frames[126].get(Param::Drive), 23_812_500);
    assert_eq!(frames[127].get(Param::Drive), 24_000_000);
}

#[test]
fn resolve_never_turns_back_and_never_leaves_the_interval() {
    let start = ZaDClipperModel::new(900_000, -900_000, 1_000_000, 24_000_000, 1).unwrap();
    let mut automation = Automation::new(start);
    assert!(automation.set(Param::DcLeft, -1_000_000));
    assert!(automation.set(Param::DcRight, 1_000_000));
    assert!(automation.set(Param::DcAmount, 0));
    assert!(automation.set(Param::Drive, 1));
    assert!(automation.set(Param::OutGain, 100_000_000));
    let target = automation.target();
    let mut frames = buffer_of(97);
    automation.resolve(&mut frames);
    for p in PARAMS {
        let (from, to) = (start.get(p), target.get(p));
        let mut previous = from;
        for frame in &frames {
            let value = frame.get(p);
            assert!(p.accepts(value));
            if to >= from {
                assert!(previous <= value && value <= to);
            } else {
                assert!(previous >= value && value >= to);
            }
            previous = value;
        }
        assert_eq!(previous, to);
    }
}

#[test]
fn resolve_of_an_empty_buffer_changes_nothing() {
    let mut automation = Automation::new(ZaDClipperModel::default());
    assert!(automation.set(Param::Drive, 5_000_000));
    let target = automation.target();
    let mut frames = buffer_of(0);
    automation.resolve(&mut frames);
    assert!(frames.is_empty());
    assert_eq!(automation.current(), ZaDClipperModel::default());
    assert_eq!(automation.target(), target);
}

#[test]
fn next_buffer_starts_where_the_last_one_ended() {
    let mut automation = Automation::new(ZaDClipperModel::default());
    assert!(automation.set(Param::Drive, 3_000_000));
    let mut frames = buffer_of(2);
    automation.resolve(&mut frames);
    assert_eq!(frames[1].get(Param::Drive), 3_000_000);
    assert!(automation.set(Param::Drive, 1_000_000));
    automation.resolve(&mut frames);
    assert_eq!(frames[0].get(Param::Drive), 2_000_000);
    assert_eq!(frames[1].get(Param::Drive), 1_000_000);
    automation.resolve(&mut frames);
    assert_eq!(frames[0].get(Param::Drive), 1_000_000);
    assert_eq!(frames[1].get(Param::Drive), 1_000_000);
}
