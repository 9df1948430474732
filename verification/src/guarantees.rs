//! What holds of every reconciliation, proved over the definitions in
//! `overlap` and `reconcile`.

use crate::models::records_view;
use crate::models::SponsorTime;
use crate::models::SponsorTimeView;
use crate::overlap::covered_length;
use crate::overlap::segments_overlap;
use crate::overlap::shared_length;
use crate::overlap::strictly_inside;
use crate::reconcile::best_index;
use crate::reconcile::best_of;
use crate::reconcile::cluster_of;
use crate::reconcile::consider;
use crate::reconcile::has_uuid;
use crate::reconcile::insert_by_start;
use crate::reconcile::is_group_head;
use crate::reconcile::is_similar;
use crate::reconcile::best_index_is_first_best;
use crate::reconcile::reconciled;
use crate::reconcile::retained;
use crate::reconcile::segment_of;
use crate::reconcile::similar_to;
use crate::reconcile::video_records;
use crate::reconcile::sort_by_start;
use crate::reconcile::sponsor_of;
use crate::reconcile::sponsors_upto;
use crate::structs::sponsors_view;
use crate::structs::SegmentView;
use crate::structs::Sponsor;
use crate::structs::SponsorView;
use vstd::prelude::*;

verus! {

/// Whether the segments stand in ascending order of start offset.
pub open spec fn sorted_by_start(segments: Seq<SegmentView>) -> bool {
    forall|i: int, j: int| 0 <= i <= j < segments.len() ==> segments[i].start <= segments[j].start
}

/// Whether no two of the segments have the same identifier.
pub open spec fn distinct_uuids(segments: Seq<SegmentView>) -> bool {
    forall|i: int, j: int| 0 <= i < j < segments.len() ==> segments[i].uuid != segments[j].uuid
}

/// Whether every segment of `inner` occurs in `outer`.
pub open spec fn all_within(inner: Seq<SegmentView>, outer: Seq<SegmentView>) -> bool {
    forall|i: int| 0 <= i < inner.len() ==> outer.contains(#[trigger] inner[i])
}

/// Two records of one category, of which one interval lies strictly inside
/// the other, overlap in both directions, whatever their votes; where they
/// belong to one video and differ in identifier, each is in the cluster
/// around the other.
pub proof fn containment_always_overlaps(a: SponsorTimeView, b: SponsorTimeView)
    requires
        a.category == b.category,
        strictly_inside(a.start_time, a.end_time, b.start_time, b.end_time) || strictly_inside(
            b.start_time,
            b.end_time,
            a.start_time,
            a.end_time,
        ),
    ensures
        segments_overlap(segment_of(a), segment_of(b)),
        segments_overlap(segment_of(b), segment_of(a)),
        a.uuid != b.uuid && a.hashed_video_id == b.hashed_video_id ==> is_similar(
            segment_of(a),
            a.hashed_video_id,
            b,
        ) && is_similar(segment_of(b), b.hashed_video_id, a),
{
}

/// The overlap rule does not read the votes: changing them changes nothing.
pub proof fn overlap_ignores_votes(a: SegmentView, b: SegmentView, votes_a: int, votes_b: int)
    ensures
        segments_overlap(a, b) == segments_overlap(
            SegmentView { votes: votes_a, ..a },
            SegmentView { votes: votes_b, ..b },
        ),
{
}

/// The overlap rule is mutual: where one segment overlaps another, the
/// other overlaps the one.
pub proof fn overlap_is_mutual(a: SegmentView, b: SegmentView)
    ensures
        segments_overlap(a, b) == segments_overlap(b, a),
{
    assert(shared_length(a.start, a.end, b.start, b.end) == shared_length(
        b.start,
        b.end,
        a.start,
        a.end,
    ));
    assert(covered_length(a.start, a.end, b.start, b.end) == covered_length(
        b.start,
        b.end,
        a.start,
        a.end,
    ));
}

/// The representative of a cluster is one of its members, and no member has
/// more votes than it.
pub proof fn representative_has_most_votes(cluster: Seq<SegmentView>)
    requires
        cluster.len() > 0,
    ensures
        cluster.contains(best_of(cluster)),
        forall|j: int| 0 <= j < cluster.len() ==> cluster[j].votes <= best_of(cluster).votes,
{
    best_index_is_first_best(cluster);
    assert(cluster[best_index(cluster)] == best_of(cluster));
}

/// Whether `segment` is the representative of the cluster around one of the
/// first `k` records, a record of the video `hash`.
pub open spec fn represents_cluster(
    records: Seq<SponsorTimeView>,
    hash: Seq<char>,
    k: int,
    segment: SegmentView,
) -> bool {
    exists|i: int|
        0 <= i < k && (#[trigger] records[i]).hashed_video_id == hash && segment == best_of(
            cluster_of(records[i], records),
        )
}

/// Every segment kept for a video is the representative of the cluster
/// around one of the records of that video that were looked at.
pub proof fn kept_segments_are_representatives(
    records: Seq<SponsorTimeView>,
    hash: Seq<char>,
    k: nat,
)
    requires
        k <= records.len(),
    ensures
        forall|j: int|
            0 <= j < retained(records, hash, k).len() ==> represents_cluster(
                records,
                hash,
                k as int,
                #[trigger] retained(records, hash, k)[j],
            ),
    decreases k,
{
    if k > 0 {
        kept_segments_are_representatives(records, hash, (k - 1) as nat);
        let before = retained(records, hash, (k - 1) as nat);
        let now = retained(records, hash, k);
        assert forall|j: int| 0 <= j < now.len() implies represents_cluster(
            records,
            hash,
            k as int,
            #[trigger] now[j],
        ) by {
            if j < before.len() {
                assert(now[j] == before[j]);
                assert(represents_cluster(records, hash, k - 1, before[j]));
                let i = choose|i: int|
                    0 <= i < k - 1 && (#[trigger] records[i]).hashed_video_id == hash && before[j]
                        == best_of(cluster_of(records[i], records));
                assert(0 <= i < k && records[i].hashed_video_id == hash);
            } else {
                assert(records[k - 1].hashed_video_id == hash);
                assert(now[j] == best_of(cluster_of(records[k - 1], records)));
            }
        }
    }
}

/// No two segments kept for a video have the same identifier.
pub proof fn kept_segments_are_distinct(records: Seq<SponsorTimeView>, hash: Seq<char>, k: nat)
    requires
        k <= records.len(),
    ensures
        distinct_uuids(retained(records, hash, k)),
    decreases k,
{
    if k > 0 {
        kept_segments_are_distinct(records, hash, (k - 1) as nat);
    }
}

/// A video with a record among the first `k` has at least one kept segment.
pub proof fn video_keeps_a_segment(records: Seq<SponsorTimeView>, hash: Seq<char>, k: nat, i: int)
    requires
        k <= records.len(),
        0 <= i < k,
        records[i].hashed_video_id == hash,
    ensures
        retained(records, hash, k).len() > 0,
    decreases k,
{
    let before = retained(records, hash, (k - 1) as nat);
    if i < k - 1 {
        video_keeps_a_segment(records, hash, (k - 1) as nat, i);
        assert(retained(records, hash, k).len() >= before.len());
    } else {
        let now = consider(before, records[k - 1], records);
        assert(retained(records, hash, k) == now);
    }
}

/// The position at which `insert_by_start` places `x`.
pub open spec fn insert_position(sorted: Seq<SegmentView>, x: SegmentView) -> int
    decreases sorted.len(),
{
    if sorted.len() == 0 {
        0
    } else if sorted.last().start <= x.start {
        sorted.len() as int
    } else {
        insert_position(sorted.drop_last(), x)
    }
}

/// `insert_by_start` places `x` at one position and leaves the rest in
/// order: behind the last segment that starts no later than `x`.
pub proof fn insert_by_start_is_insertion(sorted: Seq<SegmentView>, x: SegmentView)
    ensures
        0 <= insert_position(sorted, x) <= sorted.len(),
        insert_by_start(sorted, x) == sorted.insert(insert_position(sorted, x), x),
        forall|j: int|
            insert_position(sorted, x) <= j < sorted.len() ==> (#[trigger] sorted[j]).start
                > x.start,
        insert_position(sorted, x) > 0 ==> sorted[insert_position(sorted, x) - 1].start <= x.start,
    decreases sorted.len(),
{
    let p = insert_position(sorted, x);
    if sorted.len() == 0 {
        assert(seq![x] =~= sorted.insert(p, x));
    } else if sorted.last().start <= x.start {
        assert(sorted.push(x) =~= sorted.insert(p, x));
    } else {
        let head = sorted.drop_last();
        insert_by_start_is_insertion(head, x);
        assert(head.insert(p, x).push(sorted.last()) =~= sorted.insert(p, x));
        assert forall|j: int| p <= j < sorted.len() implies (#[trigger] sorted[j]).start
            > x.start by {
            if j < head.len() {
                assert(head[j] == sorted[j]);
            }
        }
        if p > 0 {
            assert(head[p - 1] == sorted[p - 1]);
        }
    }
}

/// Placing `x` into a sorted list by `insert_by_start` leaves it sorted.
pub proof fn insertion_keeps_order(sorted: Seq<SegmentView>, x: SegmentView)
    requires
        sorted_by_start(sorted),
    ensures
        sorted_by_start(insert_by_start(sorted, x)),
{
    insert_by_start_is_insertion(sorted, x);
    let p = insert_position(sorted, x);
    let out = sorted.insert(p, x);
    sorted.insert_ensures(p, x);
    assert forall|i: int, j: int| 0 <= i <= j < out.len() implies out[i].start
        <= out[j].start by {
        if i < p {
            assert(out[i] == sorted[i]);
            assert(sorted[i].start <= sorted[p - 1].start);
        }
        if j > p {
            assert(out[(j - 1) + 1] == sorted[j - 1]);
        }
        if i > p {
            assert(out[(i - 1) + 1] == sorted[i - 1]);
        }
        if j < p {
            assert(out[j] == sorted[j]);
        }
    }
}

/// `insert_by_start` adds `x` and keeps every segment that was there.
pub proof fn insertion_keeps_members(sorted: Seq<SegmentView>, x: SegmentView)
    ensures
        insert_by_start(sorted, x).len() == sorted.len() + 1,
        insert_by_start(sorted, x).contains(x),
        all_within(sorted, insert_by_start(sorted, x)),
        forall|i: int|
            0 <= i < insert_by_start(sorted, x).len() ==> {
                let y = #[trigger] insert_by_start(sorted, x)[i];
                y == x || sorted.contains(y)
            },
{
    insert_by_start_is_insertion(sorted, x);
    let p = insert_position(sorted, x);
    let out = sorted.insert(p, x);
    sorted.insert_ensures(p, x);
    assert(out[p] == x);
    assert forall|i: int| 0 <= i < sorted.len() implies out.contains(#[trigger] sorted[i]) by {
        if i < p {
            assert(out[i] == sorted[i]);
        } else {
            assert(out[i + 1] == sorted[i]);
        }
    }
    assert forall|i: int| 0 <= i < out.len() implies {
        let y = #[trigger] out[i];
        y == x || sorted.contains(y)
    } by {
        if i < p {
            assert(out[i] == sorted[i]);
        } else if i > p {
            assert(out[(i - 1) + 1] == sorted[i - 1]);
        }
    }
}

/// Placing a segment with a new identifier by `insert_by_start` keeps the
/// identifiers apart.
pub proof fn insertion_keeps_identifiers_apart(sorted: Seq<SegmentView>, x: SegmentView)
    requires
        distinct_uuids(sorted),
        !has_uuid(sorted, x.uuid),
    ensures
        distinct_uuids(insert_by_start(sorted, x)),
{
    insert_by_start_is_insertion(sorted, x);
    let p = insert_position(sorted, x);
    let out = sorted.insert(p, x);
    sorted.insert_ensures(p, x);
    assert forall|i: int, j: int| 0 <= i < j < out.len() implies out[i].uuid != out[j].uuid by {
        if i < p {
            assert(out[i] == sorted[i]);
        } else if i > p {
            assert(out[(i - 1) + 1] == sorted[i - 1]);
        }
        if j < p {
            assert(out[j] == sorted[j]);
        } else if j > p {
            assert(out[(j - 1) + 1] == sorted[j - 1]);
        }
    }
}

/// Sorting yields ascending start offsets, and keeps every segment and adds
/// none.
pub proof fn sort_by_start_sorts(segments: Seq<SegmentView>)
    ensures
        sorted_by_start(sort_by_start(segments)),
        sort_by_start(segments).len() == segments.len(),
        all_within(sort_by_start(segments), segments),
        all_within(segments, sort_by_start(segments)),
    decreases segments.len(),
{
    if segments.len() > 0 {
        let head = segments.drop_last();
        let x = segments.last();
        let sorted = sort_by_start(head);
        let out = sort_by_start(segments);
        sort_by_start_sorts(head);
        insertion_keeps_order(sorted, x);
        insertion_keeps_members(sorted, x);
        assert forall|i: int| 0 <= i < out.len() implies segments.contains(#[trigger] out[i]) by {
            let y = out[i];
            if y == x {
                assert(segments[segments.len() - 1] == x);
            } else {
                assert(sorted.contains(y));
                let v = choose|v: int| 0 <= v < sorted.len() && sorted[v] == y;
                assert(head.contains(sorted[v]));
                let w = choose|w: int| 0 <= w < head.len() && head[w] == y;
                assert(segments[w] == y);
            }
        }
        assert forall|i: int| 0 <= i < segments.len() implies out.contains(
            #[trigger] segments[i],
        ) by {
            if i < segments.len() - 1 {
                assert(head[i] == segments[i]);
                assert(sorted.contains(head[i]));
                let w = choose|w: int| 0 <= w < sorted.len() && sorted[w] == head[i];
                assert(out.contains(sorted[w]));
            }
        }
    }
}

/// Sorting keeps identifiers apart where they were apart.
pub proof fn sort_keeps_identifiers_apart(segments: Seq<SegmentView>)
    requires
        distinct_uuids(segments),
    ensures
        distinct_uuids(sort_by_start(segments)),
    decreases segments.len(),
{
    if segments.len() > 0 {
        let head = segments.drop_last();
        let x = segments.last();
        let sorted = sort_by_start(head);
        assert(distinct_uuids(head)) by {
            assert forall|i: int, j: int| 0 <= i < j < head.len() implies head[i].uuid
                != head[j].uuid by {
                assert(head[i] == segments[i] && head[j] == segments[j]);
            }
        }
        sort_keeps_identifiers_apart(head);
        sort_by_start_sorts(head);
        assert(!has_uuid(sorted, x.uuid)) by {
            assert forall|i: int| 0 <= i < sorted.len() implies (#[trigger] sorted[i]).uuid
                != x.uuid by {
                assert(head.contains(sorted[i]));
                let w = choose|w: int| 0 <= w < head.len() && head[w] == sorted[i];
                assert(segments[w] == sorted[i]);
                assert(segments[segments.len() - 1] == x);
            }
        }
        insertion_keeps_identifiers_apart(sorted, x);
    }
}

/// Whether `answer` is the answer for the video of one of the first `k`
/// records, a record that is the first of its video.
pub open spec fn answers_a_head(records: Seq<SponsorTimeView>, k: int, answer: SponsorView) -> bool {
    exists|h: int|
        0 <= h < k && is_group_head(records, h) && answer == #[trigger] sponsor_of(records, h)
}

/// Every answer of a reconciliation is the answer for the video of a record
/// that is the first of its video.
pub proof fn answers_come_from_heads(records: Seq<SponsorTimeView>, k: nat)
    requires
        k <= records.len(),
    ensures
        forall|s: int|
            0 <= s < sponsors_upto(records, k).len() ==> answers_a_head(
                records,
                k as int,
                #[trigger] sponsors_upto(records, k)[s],
            ),
    decreases k,
{
    if k > 0 {
        answers_come_from_heads(records, (k - 1) as nat);
        let before = sponsors_upto(records, (k - 1) as nat);
        let now = sponsors_upto(records, k);
        assert forall|s: int| 0 <= s < now.len() implies answers_a_head(
            records,
            k as int,
            #[trigger] now[s],
        ) by {
            if s < before.len() {
                assert(now[s] == before[s]);
                assert(answers_a_head(records, k - 1, before[s]));
                let h = choose|h: int|
                    0 <= h < k - 1 && is_group_head(records, h) && before[s]
                        == #[trigger] sponsor_of(records, h);
                assert(0 <= h < k && is_group_head(records, h) && now[s] == sponsor_of(
                    records,
                    h,
                ));
            } else {
                assert(is_group_head(records, k - 1));
                assert(now[s] == sponsor_of(records, k - 1));
            }
        }
    }
}

/// Whether an answer is well formed for `records`: its segments stand in
/// ascending order of start offset, no two of them have the same
/// identifier, there is at least one, and each is the representative of the
/// cluster around a record of that video.
pub open spec fn well_formed_answer(records: Seq<SponsorTimeView>, answer: SponsorView) -> bool {
    &&& sorted_by_start(answer.segments)
    &&& distinct_uuids(answer.segments)
    &&& answer.segments.len() > 0
    &&& forall|j: int|
        0 <= j < answer.segments.len() ==> represents_cluster(
            records,
            answer.hash,
            records.len() as int,
            #[trigger] answer.segments[j],
        )
}

/// Every answer of a reconciliation is well formed: sorted by start offset,
/// without a repeated identifier, not empty, and made of representatives,
/// so that no member of a segment's cluster has more votes than it.
pub proof fn answers_are_well_formed(records: Seq<SponsorTimeView>)
    ensures
        forall|s: int|
            0 <= s < reconciled(records).len() ==> well_formed_answer(
                records,
                #[trigger] reconciled(records)[s],
            ),
{
    let n = records.len();
    answers_come_from_heads(records, n);
    assert forall|s: int| 0 <= s < reconciled(records).len() implies well_formed_answer(
        records,
        #[trigger] reconciled(records)[s],
    ) by {
        let answer = reconciled(records)[s];
        assert(answers_a_head(records, n as int, answer));
        let h = choose|h: int|
            0 <= h < n && is_group_head(records, h) && answer == #[trigger] sponsor_of(records, h);
        let hash = records[h].hashed_video_id;
        let kept = retained(records, hash, n);
        assert(answer.segments == sort_by_start(kept));
        sort_by_start_sorts(kept);
        kept_segments_are_distinct(records, hash, n);
        sort_keeps_identifiers_apart(kept);
        video_keeps_a_segment(records, hash, n, h);
        kept_segments_are_representatives(records, hash, n);
        assert forall|j: int| 0 <= j < answer.segments.len() implies represents_cluster(
            records,
            answer.hash,
            n as int,
            #[trigger] answer.segments[j],
        ) by {
            assert(kept.contains(answer.segments[j]));
            let w = choose|w: int| 0 <= w < kept.len() && kept[w] == answer.segments[j];
            assert(represents_cluster(records, hash, n as int, kept[w]));
        }
    }
}

/// In every answer the segments stand in ascending order of start offset:
/// each starts no later than the next.
pub proof fn answers_are_sorted(records: Seq<SponsorTimeView>)
    ensures
        forall|s: int, i: int|
            0 <= s < reconciled(records).len() && 0 <= i && i + 1 < reconciled(
                records,
            )[s].segments.len() ==> (#[trigger] reconciled(records)[s].segments[i]).start
                <= reconciled(records)[s].segments[i + 1].start,
        forall|s: int|
            0 <= s < reconciled(records).len() ==> sorted_by_start(
                (#[trigger] reconciled(records)[s]).segments,
            ),
{
    answers_are_well_formed(records);
    assert forall|s: int| 0 <= s < reconciled(records).len() implies sorted_by_start(
        (#[trigger] reconciled(records)[s]).segments,
    ) by {
        assert(well_formed_answer(records, reconciled(records)[s]));
    }
}

/// No answer holds two segments with the same identifier.
pub proof fn answers_hold_no_identifier_twice(records: Seq<SponsorTimeView>)
    ensures
        forall|s: int|
            0 <= s < reconciled(records).len() ==> distinct_uuids(
                (#[trigger] reconciled(records)[s]).segments,
            ),
{
    answers_are_well_formed(records);
    assert forall|s: int| 0 <= s < reconciled(records).len() implies distinct_uuids(
        (#[trigger] reconciled(records)[s]).segments,
    ) by {
        assert(well_formed_answer(records, reconciled(records)[s]));
    }
}

/// Whether `segment` leads a cluster: it is a member of the cluster around
/// one of the records of the video `hash`, and no member of that cluster has
/// more votes.
pub open spec fn leads_cluster(
    records: Seq<SponsorTimeView>,
    hash: Seq<char>,
    segment: SegmentView,
) -> bool {
    exists|i: int|
        0 <= i < records.len() && (#[trigger] records[i]).hashed_video_id == hash && cluster_of(
            records[i],
            records,
        ).contains(segment) && forall|m: int|
            0 <= m < cluster_of(records[i], records).len() ==> cluster_of(
                records[i],
                records,
            )[m].votes <= segment.votes
}

/// Every segment of every answer leads a cluster of overlapping records: no
/// member of its cluster has more votes than it.
pub proof fn answers_have_the_most_votes(records: Seq<SponsorTimeView>)
    ensures
        forall|s: int, j: int|
            0 <= s < reconciled(records).len() && 0 <= j < reconciled(records)[s].segments.len()
                ==> leads_cluster(
                records,
                reconciled(records)[s].hash,
                #[trigger] reconciled(records)[s].segments[j],
            ),
{
    answers_are_well_formed(records);
    assert forall|s: int, j: int|
        0 <= s < reconciled(records).len() && 0 <= j < reconciled(
            records,
        )[s].segments.len() implies leads_cluster(
        records,
        reconciled(records)[s].hash,
        #[trigger] reconciled(records)[s].segments[j],
    ) by {
        let answer = reconciled(records)[s];
        let segment = answer.segments[j];
        assert(well_formed_answer(records, answer));
        assert(represents_cluster(records, answer.hash, records.len() as int, segment));
        let i = choose|i: int|
            0 <= i < records.len() && (#[trigger] records[i]).hashed_video_id == answer.hash
                && segment == best_of(cluster_of(records[i], records));
        representative_has_most_votes(cluster_of(records[i], records));
    }
}

/// Whether one of the answers is for the video `hash`.
pub open spec fn answers_video(answers: Seq<SponsorView>, hash: Seq<char>) -> bool {
    exists|s: int| 0 <= s < answers.len() && (#[trigger] answers[s]).hash == hash
}

/// Among the answers for the first `k` records no video occurs twice, and
/// every video of those records has its answer.
pub proof fn one_answer_per_video_upto(records: Seq<SponsorTimeView>, k: nat)
    requires
        k <= records.len(),
    ensures
        forall|s: int, t: int|
            0 <= s < t < sponsors_upto(records, k).len() ==> sponsors_upto(records, k)[s].hash
                != sponsors_upto(records, k)[t].hash,
        forall|i: int|
            0 <= i < k ==> answers_video(
                sponsors_upto(records, k),
                (#[trigger] records[i]).hashed_video_id,
            ),
    decreases k,
{
    if k > 0 {
        one_answer_per_video_upto(records, (k - 1) as nat);
        answers_come_from_heads(records, (k - 1) as nat);
        let before = sponsors_upto(records, (k - 1) as nat);
        let now = sponsors_upto(records, k);
        let last = records[k - 1];
        assert forall|s: int, t: int| 0 <= s < t < now.len() implies now[s].hash
            != now[t].hash by {
            if t < before.len() {
                assert(now[s] == before[s] && now[t] == before[t]);
            } else {
                assert(now[s] == before[s]);
                assert(answers_a_head(records, k - 1, before[s]));
                let h = choose|h: int|
                    0 <= h < k - 1 && is_group_head(records, h) && before[s]
                        == #[trigger] sponsor_of(records, h);
                assert(records[h].hashed_video_id != last.hashed_video_id);
            }
        }
        assert forall|i: int| 0 <= i < k implies answers_video(
            now,
            (#[trigger] records[i]).hashed_video_id,
        ) by {
            let hash = records[i].hashed_video_id;
            if i < k - 1 {
                assert(answers_video(before, hash));
                let s = choose|s: int| 0 <= s < before.len() && (#[trigger] before[s]).hash == hash;
                assert(now[s] == before[s]);
            } else if is_group_head(records, k - 1) {
                assert(now[now.len() - 1].hash == hash);
            } else {
                let j = choose|j: int|
                    0 <= j < k - 1 && (#[trigger] records[j]).hashed_video_id == hash;
                assert(answers_video(before, records[j].hashed_video_id));
                let s = choose|s: int| 0 <= s < before.len() && (#[trigger] before[s]).hash == hash;
                assert(now[s] == before[s]);
            }
        }
    }
}

/// A record is the first of its video exactly when the answers for the
/// records before it hold none for that video.
pub proof fn head_iff_unanswered(records: Seq<SponsorTimeView>, k: nat)
    requires
        k < records.len(),
    ensures
        is_group_head(records, k as int) <==> !answers_video(
            sponsors_upto(records, k),
            records[k as int].hashed_video_id,
        ),
{
    let hash = records[k as int].hashed_video_id;
    let answers = sponsors_upto(records, k);
    one_answer_per_video_upto(records, k);
    answers_come_from_heads(records, k);
    if answers_video(answers, hash) {
        let s = choose|s: int| 0 <= s < answers.len() && (#[trigger] answers[s]).hash == hash;
        assert(answers_a_head(records, k as int, answers[s]));
        let h = choose|h: int|
            0 <= h < k && is_group_head(records, h) && answers[s] == #[trigger] sponsor_of(
                records,
                h,
            );
        assert(records[h].hashed_video_id == hash);
    }
    if !is_group_head(records, k as int) {
        let j = choose|j: int| 0 <= j < k && (#[trigger] records[j]).hashed_video_id == hash;
        assert(answers_video(answers, records[j].hashed_video_id));
    }
}

/// The records of a video among the first `k` are the beginning of its
/// records among the first `n`.
pub proof fn video_records_grow(records: Seq<SponsorTimeView>, hash: Seq<char>, k: nat, n: nat)
    requires
        k <= n <= records.len(),
    ensures
        video_records(records, hash, k).len() <= video_records(records, hash, n).len(),
        video_records(records, hash, k) == video_records(records, hash, n).take(
            video_records(records, hash, k).len() as int,
        ),
        forall|j: int|
            0 <= j < video_records(records, hash, n).len() ==> (#[trigger] video_records(
                records,
                hash,
                n,
            )[j]).hashed_video_id == hash,
    decreases n,
{
    let short = video_records(records, hash, k);
    let long = video_records(records, hash, n);
    if n == 0 {
        assert(short =~= long.take(short.len() as int));
    } else if k == n {
        video_records_grow(records, hash, (n - 1) as nat, (n - 1) as nat);
        assert(short =~= long.take(short.len() as int));
    } else {
        video_records_grow(records, hash, k, (n - 1) as nat);
        let mid = video_records(records, hash, (n - 1) as nat);
        assert(short =~= long.take(short.len() as int)) by {
            assert(short == mid.take(short.len() as int));
            assert forall|j: int| 0 <= j < short.len() implies short[j] == long[j] by {
                assert(short[j] == mid.take(short.len() as int)[j]);
            }
        }
    }
}

/// The cluster around a segment is found among the records of its video
/// alone.
pub proof fn cluster_is_within_video(
    candidate: SegmentView,
    hash: Seq<char>,
    records: Seq<SponsorTimeView>,
    k: nat,
)
    requires
        k <= records.len(),
    ensures
        similar_to(candidate, hash, records.take(k as int)) == similar_to(
            candidate,
            hash,
            video_records(records, hash, k),
        ),
    decreases k,
{
    if k == 0 {
        assert(records.take(0) =~= Seq::empty());
    } else {
        cluster_is_within_video(candidate, hash, records, (k - 1) as nat);
        assert(records.take(k as int).drop_last() =~= records.take(k - 1));
        assert(records.take(k as int).last() == records[k - 1]);
        let earlier = video_records(records, hash, (k - 1) as nat);
        if records[k - 1].hashed_video_id == hash {
            assert(earlier.push(records[k - 1]).drop_last() =~= earlier);
            assert(earlier.push(records[k - 1]).last() == records[k - 1]);
        }
    }
}

/// What is kept for a video after the first `k` records is what is kept
/// when its own records alone are looked at.
pub proof fn kept_is_within_video(records: Seq<SponsorTimeView>, hash: Seq<char>, k: nat)
    requires
        k <= records.len(),
    ensures
        retained(records, hash, k) == retained(
            video_records(records, hash, records.len()),
            hash,
            video_records(records, hash, k).len(),
        ),
    decreases k,
{
    let n = records.len();
    let group = video_records(records, hash, n);
    if k > 0 {
        kept_is_within_video(records, hash, (k - 1) as nat);
        video_records_grow(records, hash, k, n);
        video_records_grow(records, hash, (k - 1) as nat, n);
        let record = records[k - 1];
        if record.hashed_video_id == hash {
            let m = video_records(records, hash, k).len();
            assert(video_records(records, hash, k)[m - 1] == record);
            assert(group.take(m as int)[m - 1] == group[m - 1]);
            assert(group[m - 1] == record);
            let candidate = segment_of(record);
            cluster_is_within_video(candidate, hash, records, n);
            assert(records.take(n as int) =~= records);
            group_of_group(records, hash);
            cluster_is_within_video(candidate, hash, group, group.len());
            assert(group.take(group.len() as int) =~= group);
            assert(cluster_of(record, records) == cluster_of(record, group));
        }
    }
}

/// Gathering the records of a video from its own records changes nothing.
pub proof fn group_of_group(records: Seq<SponsorTimeView>, hash: Seq<char>)
    ensures
        video_records(
            video_records(records, hash, records.len()),
            hash,
            video_records(records, hash, records.len()).len(),
        ) == video_records(records, hash, records.len()),
{
    let group = video_records(records, hash, records.len());
    video_records_grow(records, hash, records.len(), records.len());
    all_of_one_video(group, hash, group.len());
}

/// Where the first `k` records all belong to the video `hash`, its records
/// among them are all of them.
pub proof fn all_of_one_video(records: Seq<SponsorTimeView>, hash: Seq<char>, k: nat)
    requires
        k <= records.len(),
        forall|j: int| 0 <= j < k ==> (#[trigger] records[j]).hashed_video_id == hash,
    ensures
        video_records(records, hash, k) == records.take(k as int),
    decreases k,
{
    if k == 0 {
        assert(records.take(0) =~= Seq::empty());
    } else {
        all_of_one_video(records, hash, (k - 1) as nat);
        assert(records.take(k - 1).push(records[k - 1]) =~= records.take(k as int));
    }
}

/// The segments kept for a video depend on the records of that video alone:
/// reconciling them by themselves gives what reconciling all records gives.
pub proof fn video_alone_decides(records: Seq<SponsorTimeView>, hash: Seq<char>)
    ensures
        retained(
            video_records(records, hash, records.len()),
            hash,
            video_records(records, hash, records.len()).len(),
        ) == retained(records, hash, records.len()),
{
    kept_is_within_video(records, hash, records.len());
}

/// A reconciliation holds exactly one answer for each video that has a
/// record, and so none at all exactly when there is no record.
pub proof fn one_answer_per_video(records: Seq<SponsorTimeView>)
    ensures
        forall|s: int, t: int|
            0 <= s < t < reconciled(records).len() ==> reconciled(records)[s].hash != reconciled(
                records,
            )[t].hash,
        forall|i: int|
            0 <= i < records.len() ==> answers_video(
                reconciled(records),
                (#[trigger] records[i]).hashed_video_id,
            ),
        forall|s: int|
            0 <= s < reconciled(records).len() ==> exists|i: int|
                0 <= i < records.len() && (#[trigger] records[i]).hashed_video_id
                    == #[trigger] reconciled(records)[s].hash,
        reconciled(records).len() == 0 <==> records.len() == 0,
{
    let n = records.len();
    one_answer_per_video_upto(records, n);
    answers_come_from_heads(records, n);
    assert forall|s: int| 0 <= s < reconciled(records).len() implies exists|i: int|
        0 <= i < records.len() && (#[trigger] records[i]).hashed_video_id
            == #[trigger] reconciled(records)[s].hash by {
        let answer = reconciled(records)[s];
        assert(answers_a_head(records, n as int, answer));
        let h = choose|h: int|
            0 <= h < n && is_group_head(records, h) && answer == #[trigger] sponsor_of(records, h);
        assert(records[h].hashed_video_id == answer.hash);
    }
    if n > 0 {
        assert(answers_video(reconciled(records), records[0].hashed_video_id));
    }
}

/// Reconciling the same records twice gives the same answers, in the same
/// order and with the same contents.
pub proof fn same_records_same_answers(
    first_records: Seq<SponsorTime>,
    second_records: Seq<SponsorTime>,
    first: Seq<Sponsor>,
    second: Seq<Sponsor>,
)
    requires
        records_view(first_records) == records_view(second_records),
        sponsors_view(first) == reconciled(records_view(first_records)),
        sponsors_view(second) == reconciled(records_view(second_records)),
    ensures
        sponsors_view(first) == sponsors_view(second),
        first.len() == second.len(),
{
    assert(sponsors_view(first).len() == first.len());
    assert(sponsors_view(second).len() == second.len());
}

} // verus!
