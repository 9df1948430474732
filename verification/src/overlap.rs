//! The rule that decides whether two annotated intervals describe the same
//! part of a video.

use crate::structs::Segment;
use crate::structs::SegmentView;
use crate::text::same_text;
use vstd::prelude::*;

verus! {

/// Whether the interval from `start` to `end` lies strictly inside the one
/// from `outer_start` to `outer_end`.
pub open spec fn strictly_inside(start: int, end: int, outer_start: int, outer_end: int) -> bool {
    start > outer_start && end < outer_end
}

/// The smaller of two integers.
pub open spec fn least(a: int, b: int) -> int {
    if a <= b {
        a
    } else {
        b
    }
}

/// The larger of two integers.
pub open spec fn greatest(a: int, b: int) -> int {
    if a >= b {
        a
    } else {
        b
    }
}

/// Length of the part that two intervals share; negative when they are apart.
pub open spec fn shared_length(s1: int, e1: int, s2: int, e2: int) -> int {
    least(e1, e2) - greatest(s1, s2)
}

/// Length of the stretch that two intervals cover together.
pub open spec fn covered_length(s1: int, e1: int, s2: int, e2: int) -> int {
    greatest(e1, e2) - least(s1, s2)
}

/// Whether the ratio `shared / covered` is strictly greater than `tenths / 10`.
///
/// A covered length of zero has no ratio, and nothing exceeds a threshold
/// there.
pub open spec fn ratio_exceeds(shared: int, covered: int, tenths: int) -> bool {
    if covered > 0 {
        shared * 10 > tenths * covered
    } else if covered < 0 {
        shared * 10 < tenths * covered
    } else {
        false
    }
}

/// The share of the covered stretch, in tenths, that two intervals of one
/// category must exceed to count as one: eight for chapters, else six where
/// both have the same action type, else one.
pub open spec fn threshold_tenths(category: Seq<char>, same_action: bool) -> int {
    if category == "chapter"@ {
        8
    } else if same_action {
        6
    } else {
        1
    }
}

/// Whether `seg` and an interval of the given category and action type
/// overlap.
///
/// Intervals of different categories never overlap. Within one category they
/// overlap when either lies strictly inside the other, or when the shared
/// part exceeds the threshold share of the stretch they cover together.
pub open spec fn overlaps(
    seg: SegmentView,
    category: Seq<char>,
    action_type: Seq<char>,
    start: int,
    end: int,
) -> bool {
    &&& seg.category == category
    &&& {
        ||| strictly_inside(seg.start, seg.end, start, end)
        ||| strictly_inside(start, end, seg.start, seg.end)
        ||| ratio_exceeds(
            shared_length(seg.start, seg.end, start, end),
            covered_length(seg.start, seg.end, start, end),
            threshold_tenths(category, seg.action_type == action_type),
        )
    }
}

/// Whether two segments overlap.
pub open spec fn segments_overlap(a: SegmentView, b: SegmentView) -> bool {
    overlaps(a, b.category, b.action_type, b.start, b.end)
}

/// Decides the overlap rule for `seg` and the interval from `start` to `end`
/// with category `cat` and action type `action_type`.
pub fn is_overlap(seg: &Segment, cat: &str, action_type: &str, start: i64, end: i64) -> (r: bool)
    ensures
        r == overlaps(seg@, cat@, action_type@, start as int, end as int),
{
    if !same_text(seg.category.as_str(), cat) {
        return false;
    }
    let s: i128 = seg.segment.0 as i128;
    let e: i128 = seg.segment.1 as i128;
    let start: i128 = start as i128;
    let end: i128 = end as i128;
    if s > start && e < end {
        return true;
    }
    if start > s && end < e {
        return true;
    }
    let shared: i128 = (if e <= end { e } else { end }) - (if s >= start { s } else { start });
    let covered: i128 = (if e >= end { e } else { end }) - (if s <= start { s } else { start });
    let tenths: i128 = if same_text(cat, "chapter") {
        8
    } else if same_text(seg.action_type.as_str(), action_type) {
        6
    } else {
        1
    };
    assert(tenths == threshold_tenths(cat@, seg@.action_type == action_type@));
    let scaled: i128 = shared * 10;
    let bound: i128 = if tenths == 8 {
        covered * 8
    } else if tenths == 6 {
        covered * 6
    } else {
        covered
    };
    assert(bound == tenths * covered);
    if covered > 0 {
        scaled > bound
    } else if covered < 0 {
        scaled < bound
    } else {
        false
    }
}

} // verus!
