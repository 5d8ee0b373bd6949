use gpu_commands::attributes::{AttributeTracker, RenderingAttributes, TrackerState};

fn zero() -> RenderingAttributes {
    RenderingAttributes {
        texpage: 0,
        texture_window: 0,
        draw_area_top_left: 0,
        draw_area_bottom_right: 0,
        drawing_offset: 0,
        mask_setting: 0,
    }
}

#[test]
fn default_attributes_are_all_zero() {
    assert_eq!(RenderingAttributes::default(), zero());
}

#[test]
fn each_subopcode_sets_its_own_field() {
    let mut attrs = RenderingAttributes::default();
    attrs.apply(0xE100_0001);
    assert_eq!(attrs, RenderingAttributes { texpage: 0xE100_0001, ..zero() });
    attrs.apply(0xE200_0002);
    attrs.apply(0xE300_0003);
    attrs.apply(0xE400_0004);
    attrs.apply(0xE500_0005);
    attrs.apply(0xE600_0006);
    assert_eq!(
        attrs,
        RenderingAttributes {
            texpage: 0xE100_0001,
            texture_window: 0xE200_0002,
            draw_area_top_left: 0xE300_0003,
            draw_area_bottom_right: 0xE400_0004,
            drawing_offset: 0xE500_0005,
            mask_setting: 0xE600_0006,
        }
    );
}

#[test]
fn a_later_setting_overwrites_only_its_field() {
    let mut attrs = RenderingAttributes::default();
    attrs.apply(0xE100_00AA);
    attrs.apply(0xE500_1234);
    attrs.apply(0xE100_00BB);
    assert_eq!(
        attrs,
        RenderingAttributes { texpage: 0xE100_00BB, drawing_offset: 0xE500_1234, ..zero() }
    );
}

#[test]
fn unknown_subopcodes_change_nothing() {
    let mut attrs = RenderingAttributes::default();
    attrs.apply(0xE300_0777);
    let before = attrs;
    for word in [0xE000_0001u32, 0xE700_0001, 0xE800_FFFF, 0xFF12_3456] {
        attrs.apply(word);
        assert_eq!(attrs, before);
    }
}

#[test]
fn the_field_is_picked_by_the_subopcode_bits_alone() {
    // Sub-opcode 0x02 under another category still names the texture window.
    let mut attrs = RenderingAttributes::default();
    attrs.apply(0x0200_0042);
    assert_eq!(attrs, RenderingAttributes { texture_window: 0x0200_0042, ..zero() });
}

#[test]
fn tracker_starts_drawing_with_nothing_committed() {
    let tracker = AttributeTracker::new();
    assert_eq!(tracker.state(), TrackerState::Drawing);
    assert_eq!(tracker.committed_count(), 0);
    assert_eq!(tracker.working(), zero());
    assert!(tracker.into_snapshots().is_empty());
}

#[test]
fn first_draw_commits_the_initial_snapshot() {
    let mut tracker = AttributeTracker::new();
    assert_eq!(tracker.begin_draw(), 0);
    assert_eq!(tracker.state(), TrackerState::Drawing);
    assert_eq!(tracker.committed_count(), 1);
    assert_eq!(tracker.into_snapshots(), vec![zero()]);
}

#[test]
fn attributes_before_the_first_draw_shape_the_first_snapshot() {
    let mut tracker = AttributeTracker::new();
    tracker.record(0xE100_0009);
    assert_eq!(tracker.state(), TrackerState::RecordingAttributes);
    assert_eq!(tracker.committed_count(), 0);
    tracker.record(0xE600_0003);
    assert_eq!(tracker.begin_draw(), 0);
    assert_eq!(
        tracker.into_snapshots(),
        vec![RenderingAttributes { texpage: 0xE100_0009, mask_setting: 0xE600_0003, ..zero() }]
    );
}

#[test]
fn draws_without_attributes_between_share_a_snapshot() {
    let mut tracker = AttributeTracker::new();
    assert_eq!(tracker.begin_draw(), 0);
    assert_eq!(tracker.begin_draw(), 0);
    assert_eq!(tracker.begin_draw(), 0);
    assert_eq!(tracker.committed_count(), 1);
}

#[test]
fn attributes_between_draws_commit_exactly_one_snapshot() {
    let mut tracker = AttributeTracker::new();
    tracker.record(0xE100_0001);
    tracker.record(0xE200_0002);
    let first = tracker.begin_draw();
    assert_eq!(tracker.committed_count(), 1);

    tracker.record(0xE200_00FF);
    tracker.record(0xE500_0010);
    tracker.record(0xE200_00EE);
    assert_eq!(tracker.state(), TrackerState::RecordingAttributes);
    assert_eq!(tracker.committed_count(), 1);
    let second = tracker.begin_draw();
    assert_eq!(tracker.state(), TrackerState::Drawing);

    assert_eq!(first, 0);
    assert_eq!(second, 1);
    assert!(first < second);
    assert_eq!(tracker.committed_count(), 2);
    let snapshots = tracker.into_snapshots();
    assert_eq!(
        snapshots[0],
        RenderingAttributes { texpage: 0xE100_0001, texture_window: 0xE200_0002, ..zero() }
    );
    // The untouched texture page is carried over from the snapshot before.
    assert_eq!(
        snapshots[1],
        RenderingAttributes {
            texpage: 0xE100_0001,
            texture_window: 0xE200_00EE,
            drawing_offset: 0xE500_0010,
            ..zero()
        }
    );
}

#[test]
fn an_unknown_attribute_still_opens_a_new_snapshot() {
    let mut tracker = AttributeTracker::new();
    tracker.record(0xE300_0005);
    assert_eq!(tracker.begin_draw(), 0);
    tracker.record(0xEF00_0000);
    assert_eq!(tracker.state(), TrackerState::RecordingAttributes);
    assert_eq!(tracker.begin_draw(), 1);
    let snapshots = tracker.into_snapshots();
    assert_eq!(snapshots.len(), 2);
    assert_eq!(snapshots[0], snapshots[1]);
}

#[test]
fn a_run_of_attributes_starts_from_the_last_committed_snapshot() {
    let mut tracker = AttributeTracker::new();
    tracker.record(0xE400_0001);
    tracker.begin_draw();
    tracker.record(0xE400_0002);
    assert_eq!(
        tracker.working(),
        RenderingAttributes { draw_area_bottom_right: 0xE400_0002, ..zero() }
    );
    tracker.begin_draw();
    tracker.record(0xE100_0003);
    assert_eq!(
        tracker.working(),
        RenderingAttributes {
            texpage: 0xE100_0003,
            draw_area_bottom_right: 0xE400_0002,
            ..zero()
        }
    );
    assert_eq!(tracker.begin_draw(), 2);
}
