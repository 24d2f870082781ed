use zadclipper::model::{
    Param, ZaDClipperModel, DC_AMOUNT_MAX, DC_AMOUNT_MIN, DC_MAX, DC_MIN, DRIVE_MAX, DRIVE_MIN,
    OUT_GAIN_MAX, OUT_GAIN_MIN,
};

const ALL: [Param; 5] =
    [Param::DcLeft, Param::DcRight, Param::DcAmount, Param::Drive, Param::OutGain];

#[test]
fn ranges_of_the_five_parameters() {
    assert_eq!((Param::DcLeft.min(), Param::DcLeft.max()), (-1_000_000, 1_000_000));
    assert_eq!((Param::DcRight.min(), Param::DcRight.max()), (-1_000_000, 1_000_000));
    assert_eq!((Param::DcAmount.min(), Param::DcAmount.max()), (0, 1_000_000));
    assert_eq!((Param::Drive.min(), Param::Drive.max()), (0, 24_000_000));
    assert_eq!((Param::OutGain.min(), Param::OutGain.max()), (0, 100_000_000));
}

#[test]
fn range_constants_agree_with_the_parameters() {
    assert_eq!((DC_MIN, DC_MAX), (Param::DcLeft.min(), Param::DcLeft.max()));
    assert_eq!((DC_MIN, DC_MAX), (Param::DcRight.min(), Param::DcRight.max()));
    assert_eq!((DC_AMOUNT_MIN, DC_AMOUNT_MAX), (Param::DcAmount.min(), Param::DcAmount.max()));
    assert_eq!((DRIVE_MIN, DRIVE_MAX), (Param::Drive.min(), Param::Drive.max()));
    assert_eq!((OUT_GAIN_MIN, OUT_GAIN_MAX), (Param::OutGain.min(), Param::OutGain.max()));
}

#[test]
fn defaults_of_the_five_parameters() {
    assert_eq!(Param::DcLeft.default_value(), 0);
    assert_eq!(Param::DcRight.default_value(), 0);
    assert_eq!(Param::DcAmount.default_value(), 1_000_000);
    assert_eq!(Param::Drive.default_value(), 1_000_000);
    assert_eq!(Param::OutGain.default_value(), 1_000_000);
}

#[test]
fn default_model_holds_the_default_of_every_parameter() {
    let model = ZaDClipperModel::default();
    for p in ALL {
        assert_eq!(model.get(p), p.default_value());
    }
    assert_eq!(Some(model), ZaDClipperModel::new(0, 0, 1_000_000, 1_000_000, 1_000_000));
}

#[test]
fn every_default_lies_in_its_range() {
    for p in ALL {
        assert!(p.accepts(p.default_value()));
    }
}

#[test]
fn accepts_the_ends_of_the_range_and_nothing_beyond() {
    for p in ALL {
        assert!(p.accepts(p.min()));
        assert!(p.accepts(p.max()));
        assert!(!p.accepts(p.min() - 1));
        assert!(!p.accepts(p.max() + 1));
        assert!(!p.accepts(i64::MIN));
        assert!(!p.accepts(i64::MAX));
    }
}

#[test]
fn limit_leaves_values_in_range_and_moves_others_to_the_nearer_end() {
    for p in ALL {
        assert_eq!(p.limit(p.min()), p.min());
        assert_eq!(p.limit(p.max()), p.max());
        assert_eq!(p.limit(p.min() - 1), p.min());
        assert_eq!(p.limit(p.max() + 1), p.max());
        assert_eq!(p.limit(i64::MIN), p.min());
        assert_eq!(p.limit(i64::MAX), p.max());
        assert_eq!(p.limit(p.default_value()), p.default_value());
    }
    assert_eq!(Param::Drive.limit(12_345_678), 12_345_678);
    assert_eq!(Param::Drive.limit(-1), 0);
    assert_eq!(Param::Drive.limit(25_000_000), 24_000_000);
}

#[test]
fn new_keeps_the_values_it_is_given() {
    let model = ZaDClipperModel::new(-250_000, 750_000, 500_000, 12_000_000, 80_000_000).unwrap();
    assert_eq!(model.get(Param::DcLeft), -250_000);
    assert_eq!(model.get(Param::DcRight), 750_000);
    assert_eq!(model.get(Param::DcAmount), 500_000);
    assert_eq!(model.get(Param::Drive), 12_000_000);
    assert_eq!(model.get(Param::OutGain), 80_000_000);
}

#[test]
fn new_accepts_the_ends_of_every_range() {
    assert!(ZaDClipperModel::new(-1_000_000, -1_000_000, 0, 0, 0).is_some());
    assert!(
        ZaDClipperModel::new(1_000_000, 1_000_000, 1_000_000, 24_000_000, 100_000_000).is_some()
    );
}

#[test]
fn new_turns_down_a_value_outside_its_range() {
    assert_eq!(ZaDClipperModel::new(-1_000_001, 0, 0, 0, 0), None);
    assert_eq!(ZaDClipperModel::new(1_000_001, 0, 0, 0, 0), None);
    assert_eq!(ZaDClipperModel::new(0, -1_000_001, 0, 0, 0), None);
    assert_eq!(ZaDClipperModel::new(0, 1_000_001, 0, 0, 0), None);
    assert_eq!(ZaDClipperModel::new(0, 0, -1, 0, 0), None);
    assert_eq!(ZaDClipperModel::new(0, 0, 1_000_001, 0, 0), None);
    assert_eq!(ZaDClipperModel::new(0, 0, 0, -1, 0), None);
    assert_eq!(ZaDClipperModel::new(0, 0, 0, 24_000_001, 0), None);
    assert_eq!(ZaDClipperModel::new(0, 0, 0, 0, -1), None);
    assert_eq!(ZaDClipperModel::new(0, 0, 0, 0, 100_000_001), None);
}

#[test]
fn with_replaces_one_parameter_and_keeps_the_others() {
    let model = ZaDClipperModel::default();
    for p in ALL {
        let changed = model.with(p, p.max()).unwrap();
        for q in ALL {
            if q == p {
                assert_eq!(changed.get(q), p.max());
            } else {
                assert_eq!(changed.get(q), model.get(q));
            }
        }
    }
}

#[test]
fn with_turns_down_a_value_outside_the_range() {
    let model = ZaDClipperModel::default();
    for p in ALL {
        assert_eq!(model.with(p, p.max() + 1), None);
        assert_eq!(model.with(p, p.min() - 1), None);
    }
    assert_eq!(model.with(Param::Drive, 24_000_001), None);
    assert_eq!(model.with(Param::Drive, 24_000_000).unwrap().get(Param::Drive), 24_000_000);
}
