use sponsorblock_mirror::overlap::is_overlap;
use sponsorblock_mirror::structs::Segment;

fn interval(category: &str, action: &str, start: i64, end: i64) -> Segment {
    Segment {
        uuid: String::from("candidate"),
        action_type: String::from(action),
        category: String::from(category),
        description: String::new(),
        locked: 0,
        segment: (start, end),
        user_id: String::from("user"),
        video_duration: 0,
        votes: 0,
    }
}

#[test]
fn different_categories_never_overlap() {
    let seg = interval("sponsor", "skip", 10_000, 20_000);
    assert!(!is_overlap(&seg, "intro", "skip", 10_000, 20_000));
    assert!(is_overlap(&seg, "sponsor", "skip", 10_000, 20_000));
}

#[test]
fn interval_strictly_inside_the_other_overlaps() {
    let inner = interval("sponsor", "skip", 12_000, 18_000);
    assert!(is_overlap(&inner, "sponsor", "skip", 10_000, 20_000));
    let tiny = interval("chapter", "chapter", 5_000, 5_001);
    assert!(is_overlap(&tiny, "chapter", "chapter", 0, 1_000_000));
}

#[test]
fn interval_strictly_around_the_other_overlaps() {
    let outer = interval("sponsor", "skip", 10_000, 20_000);
    assert!(is_overlap(&outer, "sponsor", "skip", 12_000, 18_000));
    let wide = interval("chapter", "chapter", 0, 1_000_000);
    assert!(is_overlap(&wide, "chapter", "chapter", 5_000, 5_001));
}

#[test]
fn same_action_needs_more_than_six_tenths() {
    let seg = interval("sponsor", "skip", 0, 10_000);
    // shared 6 of 10: exactly six tenths is not enough
    assert!(!is_overlap(&seg, "sponsor", "skip", 4_000, 10_000));
    // shared 6001 of 10000
    assert!(is_overlap(&seg, "sponsor", "skip", 3_999, 10_000));
    // shared 7 of 10
    assert!(is_overlap(&seg, "sponsor", "skip", 3_000, 10_000));
}

#[test]
fn different_actions_need_more_than_one_tenth() {
    let seg = interval("sponsor", "skip", 0, 10_000);
    // shared 2 of 18
    assert!(is_overlap(&seg, "sponsor", "mute", 8_000, 18_000));
    assert!(!is_overlap(&seg, "sponsor", "skip", 8_000, 18_000));
    // shared 1 of 10: exactly one tenth is not enough
    assert!(!is_overlap(&seg, "sponsor", "mute", 9_000, 10_000));
    assert!(is_overlap(&seg, "sponsor", "mute", 8_999, 10_000));
}

#[test]
fn chapters_need_more_than_eight_tenths() {
    let seg = interval("chapter", "chapter", 0, 10_000);
    assert!(!is_overlap(&seg, "chapter", "chapter", 2_000, 10_000));
    assert!(is_overlap(&seg, "chapter", "chapter", 1_000, 10_000));
    // for chapters the action type does not lower the threshold
    assert!(!is_overlap(&seg, "chapter", "skip", 2_000, 10_000));
    assert!(!is_overlap(&seg, "chapter", "skip", 5_000, 15_000));
}

#[test]
fn apart_intervals_do_not_overlap() {
    let seg = interval("sponsor", "skip", 0, 10_000);
    assert!(!is_overlap(&seg, "sponsor", "skip", 20_000, 30_000));
    assert!(!is_overlap(&seg, "sponsor", "mute", 20_000, 30_000));
    assert!(!is_overlap(&seg, "sponsor", "mute", 10_000, 30_000));
}

#[test]
fn equal_points_have_no_ratio() {
    let seg = interval("sponsor", "skip", 5_000, 5_000);
    assert!(!is_overlap(&seg, "sponsor", "skip", 5_000, 5_000));
}

#[test]
fn equal_intervals_overlap() {
    let seg = interval("sponsor", "skip", 1_000, 2_000);
    assert!(is_overlap(&seg, "sponsor", "skip", 1_000, 2_000));
    assert!(is_overlap(&seg, "sponsor", "mute", 1_000, 2_000));
}

#[test]
fn extreme_offsets_are_decided_without_overflow() {
    let seg = interval("sponsor", "skip", i64::MIN, i64::MAX);
    assert!(is_overlap(&seg, "sponsor", "skip", i64::MIN, i64::MAX));
    assert!(is_overlap(&seg, "sponsor", "skip", -1, 1));
    assert!(!is_overlap(&seg, "sponsor", "skip", i64::MIN, i64::MIN));
    assert!(!is_overlap(&seg, "sponsor", "skip", i64::MAX, i64::MAX));
    let reversed = interval("sponsor", "skip", i64::MAX, i64::MIN);
    assert!(is_overlap(&reversed, "sponsor", "skip", i64::MAX, i64::MIN));
}

#[test]
fn overlap_does_not_read_the_votes() {
    let mut seg = interval("sponsor", "skip", 0, 10_000);
    let before = is_overlap(&seg, "sponsor", "skip", 3_000, 10_000);
    seg.votes = -50;
    assert_eq!(is_overlap(&seg, "sponsor", "skip", 3_000, 10_000), before);
    seg.votes = 1_000_000;
    assert_eq!(is_overlap(&seg, "sponsor", "skip", 3_000, 10_000), before);
}
