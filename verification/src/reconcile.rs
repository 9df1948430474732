//! Reconciliation: from the raw records of a query to one ranked,
//! deduplicated, time-ordered list of segments per video.

use crate::guarantees::answers_are_well_formed;
use crate::guarantees::answers_video;
use crate::guarantees::head_iff_unanswered;
use crate::guarantees::video_alone_decides;
use crate::guarantees::one_answer_per_video;
use crate::guarantees::well_formed_answer;
use crate::models::records_view;
use crate::models::SponsorTime;
use crate::models::SponsorTimeView;
use crate::overlap::is_overlap;
use crate::overlap::overlaps;
use crate::overlap::segments_overlap;
use crate::structs::segments_view;
use crate::structs::sponsors_view;
use crate::structs::Sponsor;
use crate::structs::SponsorView;
use crate::structs::Segment;
use crate::structs::SegmentView;
use crate::text::same_text;
use vstd::prelude::*;

verus! {

/// The segment that stands for one record.
pub open spec fn segment_of(record: SponsorTimeView) -> SegmentView {
    SegmentView {
        uuid: record.uuid,
        action_type: record.action_type,
        category: record.category,
        description: record.description,
        locked: record.locked,
        start: record.start_time,
        end: record.end_time,
        user_id: record.user_id,
        video_duration: record.video_duration,
        votes: record.votes,
    }
}

/// Builds the segment that stands for one record.
pub fn build_segment(sponsor_time: &SponsorTime) -> (segment: Segment)
    ensures
        segment@ == segment_of(sponsor_time@),
{
    Segment {
        uuid: sponsor_time.uuid.clone(),
        action_type: sponsor_time.action_type.clone(),
        category: sponsor_time.category.clone(),
        description: sponsor_time.description.clone(),
        locked: sponsor_time.locked,
        segment: (sponsor_time.start_time, sponsor_time.end_time),
        user_id: sponsor_time.user_id.clone(),
        video_duration: sponsor_time.video_duration,
        votes: sponsor_time.votes,
    }
}

/// Whether `record` belongs to the cluster around `candidate`: another
/// record of the video `hash` that overlaps the candidate.
pub open spec fn is_similar(
    candidate: SegmentView,
    hash: Seq<char>,
    record: SponsorTimeView,
) -> bool {
    &&& record.uuid != candidate.uuid
    &&& record.hashed_video_id == hash
    &&& overlaps(
        candidate,
        record.category,
        record.action_type,
        record.start_time,
        record.end_time,
    )
}

/// The segments of all records that are similar to `candidate`, in the order
/// of the records.
pub open spec fn similar_to(
    candidate: SegmentView,
    hash: Seq<char>,
    records: Seq<SponsorTimeView>,
) -> Seq<SegmentView>
    decreases records.len(),
{
    if records.len() == 0 {
        Seq::empty()
    } else {
        let earlier = similar_to(candidate, hash, records.drop_last());
        if is_similar(candidate, hash, records.last()) {
            earlier.push(segment_of(records.last()))
        } else {
            earlier
        }
    }
}

/// Collects the segments of the records of video `hash` that overlap
/// `segment`, leaving out the record that `segment` itself came from.
pub fn similar_segments(segment: &Segment, hash: &str, segments: &Vec<SponsorTime>) -> (similar:
    Vec<Segment>)
    ensures
        segments_view(similar@) == similar_to(segment@, hash@, records_view(segments@)),
{
    let mut similar: Vec<Segment> = Vec::new();
    let ghost all = records_view(segments@);
    let mut i: usize = 0;
    assert(all.take(0) =~= Seq::empty());
    assert(segments_view(similar@) =~= Seq::empty());
    while i < segments.len()
        invariant
            0 <= i <= segments.len(),
            all == records_view(segments@),
            segments_view(similar@) == similar_to(segment@, hash@, all.take(i as int)),
        decreases segments.len() - i,
    {
        let seg = &segments[i];
        proof {
            assert(all.take(i + 1).drop_last() =~= all.take(i as int));
            assert(all.take(i + 1).last() == seg@);
        }
        if !same_text(seg.uuid.as_str(), segment.uuid.as_str()) && same_text(
            seg.hashed_video_id.as_str(),
            hash,
        ) && is_overlap(
            segment,
            seg.category.as_str(),
            seg.action_type.as_str(),
            seg.start_time,
            seg.end_time,
        ) {
            let ghost before = segments_view(similar@);
            let built = build_segment(seg);
            similar.push(built);
            assert(segments_view(similar@) =~= before.push(segment_of(seg@)));
        }
        i += 1;
    }
    assert(all.take(segments.len() as int) =~= all);
    similar
}

/// Whether position `i` holds the first of the segments with the most votes.
pub open spec fn is_first_best(segments: Seq<SegmentView>, i: int) -> bool {
    &&& 0 <= i < segments.len()
    &&& forall|j: int| 0 <= j < segments.len() ==> segments[j].votes <= segments[i].votes
    &&& forall|j: int| 0 <= j < i ==> segments[j].votes < segments[i].votes
}

/// The position of the first of the segments with the most votes.
pub open spec fn best_index(segments: Seq<SegmentView>) -> int
    decreases segments.len(),
{
    if segments.len() <= 1 {
        0
    } else {
        let earlier = best_index(segments.drop_last());
        if segments.last().votes > segments[earlier].votes {
            segments.len() - 1
        } else {
            earlier
        }
    }
}

/// The representative of a cluster: the first member with the most votes.
pub open spec fn best_of(segments: Seq<SegmentView>) -> SegmentView {
    segments[best_index(segments)]
}

/// `best_index` is the one position that holds the first of the segments
/// with the most votes.
pub proof fn best_index_is_first_best(segments: Seq<SegmentView>)
    requires
        segments.len() > 0,
    ensures
        is_first_best(segments, best_index(segments)),
        forall|i: int| is_first_best(segments, i) ==> i == best_index(segments),
    decreases segments.len(),
{
    if segments.len() > 1 {
        let head = segments.drop_last();
        best_index_is_first_best(head);
        let earlier = best_index(head);
        assert(forall|j: int| 0 <= j < head.len() ==> head[j] == segments[j]);
        let b = best_index(segments);
        assert(is_first_best(segments, b));
    }
    let b = best_index(segments);
    assert forall|i: int| is_first_best(segments, i) implies i == b by {
        if i < b {
            assert(segments[i].votes < segments[b].votes);
        } else if b < i {
            assert(segments[b].votes < segments[i].votes);
        }
    }
}

/// Picks the representative of a cluster: the member with the most votes,
/// and among several of those the one that comes first.
pub fn best_segment(segments: &Vec<Segment>) -> (best: Segment)
    requires
        segments.len() > 0,
    ensures
        best@ == best_of(segments_view(segments@)),
{
    let ghost all = segments_view(segments@);
    let mut at: usize = 0;
    let mut i: usize = 1;
    assert(all.take(1).len() == 1);
    while i < segments.len()
        invariant
            1 <= i <= segments.len(),
            0 <= at < i,
            all == segments_view(segments@),
            at == best_index(all.take(i as int)),
        decreases segments.len() - i,
    {
        proof {
            assert(all.take(i + 1).drop_last() =~= all.take(i as int));
            assert(all.take(i + 1).last() == segments[i as int]@);
            assert(all.take(i + 1)[at as int] == segments[at as int]@);
        }
        if segments[i].votes > segments[at].votes {
            at = i;
        }
        i += 1;
    }
    assert(all.take(segments.len() as int) =~= all);
    segments[at].clone()
}

/// `x` placed into `sorted` behind every segment that starts no later than
/// it, and before the others that follow.
pub open spec fn insert_by_start(sorted: Seq<SegmentView>, x: SegmentView) -> Seq<SegmentView>
    decreases sorted.len(),
{
    if sorted.len() == 0 {
        seq![x]
    } else if sorted.last().start <= x.start {
        sorted.push(x)
    } else {
        insert_by_start(sorted.drop_last(), x).push(sorted.last())
    }
}

/// The segments in ascending order of start offset; segments with the same
/// start keep their order.
pub open spec fn sort_by_start(segments: Seq<SegmentView>) -> Seq<SegmentView>
    decreases segments.len(),
{
    if segments.len() == 0 {
        Seq::empty()
    } else {
        insert_by_start(sort_by_start(segments.drop_last()), segments.last())
    }
}

/// Where the segments from position `p` on all start later than `x`, and the
/// one before `p` does not, `insert_by_start` places `x` at `p`.
pub proof fn insert_by_start_places_at(sorted: Seq<SegmentView>, x: SegmentView, p: int)
    requires
        0 <= p <= sorted.len(),
        forall|j: int| p <= j < sorted.len() ==> sorted[j].start > x.start,
        p > 0 ==> sorted[p - 1].start <= x.start,
    ensures
        insert_by_start(sorted, x) == sorted.insert(p, x),
    decreases sorted.len(),
{
    if sorted.len() == 0 {
        assert(seq![x] =~= sorted.insert(p, x));
    } else if p == sorted.len() {
        assert(sorted.push(x) =~= sorted.insert(p, x));
    } else {
        insert_by_start_places_at(sorted.drop_last(), x, p);
        assert(sorted.drop_last().insert(p, x).push(sorted.last()) =~= sorted.insert(p, x));
    }
}

/// Sorts the segments by start offset, keeping the order of segments that
/// start together.
pub fn sort_segments(segments: &mut Vec<Segment>)
    ensures
        segments_view(final(segments)@) == sort_by_start(segments_view(old(segments)@)),
{
    let ghost orig = segments_view(segments@);
    let n = segments.len();
    let mut i: usize = 0;
    assert(segments_view(segments@).take(0) =~= sort_by_start(orig.take(0)));
    assert(segments_view(segments@).skip(0) =~= orig.skip(0));
    while i < n
        invariant
            0 <= i <= n,
            segments.len() == n,
            orig.len() == n,
            segments_view(segments@).take(i as int) == sort_by_start(orig.take(i as int)),
            segments_view(segments@).skip(i as int) == orig.skip(i as int),
        decreases n - i,
    {
        let ghost before = segments_view(segments@);
        let x = segments.remove(i);
        let ghost without = segments_view(segments@);
        proof {
            assert(before.skip(i as int)[0] == orig.skip(i as int)[0]);
            assert(x@ == orig[i as int]);
            assert(without =~= before.remove(i as int));
            assert(without.take(i as int) =~= before.take(i as int));
            assert(without.skip(i as int) =~= before.skip(i as int).skip(1));
            assert(orig.skip(i as int).skip(1) =~= orig.skip(i + 1));
        }
        let mut p: usize = i;
        while p > 0 && segments[p - 1].segment.0 > x.segment.0
            invariant
                0 <= p <= i,
                i < n,
                segments.len() == n - 1,
                without == segments_view(segments@),
                forall|j: int| p <= j < i ==> without[j].start > x@.start,
            decreases p,
        {
            p -= 1;
        }
        segments.insert(p, x);
        proof {
            let sorted = without.take(i as int);
            let after = segments_view(segments@);
            assert(after =~= without.insert(p as int, x@));
            assert(forall|j: int| 0 <= j < i ==> sorted[j] == without[j]);
            insert_by_start_places_at(sorted, x@, p as int);
            assert(after.take(i + 1) =~= sorted.insert(p as int, x@));
            assert(after.skip(i + 1) =~= without.skip(i as int));
            assert(orig.take(i + 1).drop_last() =~= orig.take(i as int));
            assert(orig.take(i + 1).last() == orig[i as int]);
        }
        i += 1;
    }
    assert(segments_view(segments@).take(n as int) =~= segments_view(segments@));
    assert(orig.take(n as int) =~= orig);
}

/// Whether `candidate` overlaps one of the segments kept so far.
pub open spec fn has_overlap(candidate: SegmentView, kept: Seq<SegmentView>) -> bool {
    exists|j: int| 0 <= j < kept.len() && segments_overlap(candidate, #[trigger] kept[j])
}

/// Whether one of the segments kept so far has the identifier `uuid`.
pub open spec fn has_uuid(kept: Seq<SegmentView>, uuid: Seq<char>) -> bool {
    exists|j: int| 0 <= j < kept.len() && (#[trigger] kept[j]).uuid == uuid
}

/// The cluster around one record: the segments of the similar records in
/// their order, and behind them the segment of the record itself.
pub open spec fn cluster_of(record: SponsorTimeView, records: Seq<SponsorTimeView>) -> Seq<
    SegmentView,
> {
    similar_to(segment_of(record), record.hashed_video_id, records).push(segment_of(record))
}

/// The kept segments of a video after one more of its records was looked at.
///
/// A record whose segment overlaps a kept one adds nothing: its cluster is
/// represented already. Otherwise the representative of its cluster is
/// added, unless a segment with that identifier was kept before.
pub open spec fn consider(
    kept: Seq<SegmentView>,
    record: SponsorTimeView,
    records: Seq<SponsorTimeView>,
) -> Seq<SegmentView> {
    if has_overlap(segment_of(record), kept) {
        kept
    } else {
        let best = best_of(cluster_of(record, records));
        if has_uuid(kept, best.uuid) {
            kept
        } else {
            kept.push(best)
        }
    }
}

/// The kept segments of the video `hash` after the first `k` records were
/// looked at, in the order in which they were kept.
pub open spec fn retained(records: Seq<SponsorTimeView>, hash: Seq<char>, k: nat) -> Seq<
    SegmentView,
>
    decreases k,
{
    if k == 0 {
        Seq::empty()
    } else {
        let kept = retained(records, hash, (k - 1) as nat);
        if records[k - 1].hashed_video_id == hash {
            consider(kept, records[k - 1], records)
        } else {
            kept
        }
    }
}

/// Whether `candidate` overlaps one of the segments in `kept`.
pub fn overlaps_any(candidate: &Segment, kept: &Vec<Segment>) -> (found: bool)
    ensures
        found == has_overlap(candidate@, segments_view(kept@)),
{
    let mut j: usize = 0;
    while j < kept.len()
        invariant
            0 <= j <= kept.len(),
            forall|k: int|
                0 <= k < j ==> !segments_overlap(candidate@, #[trigger] segments_view(kept@)[k]),
        decreases kept.len() - j,
    {
        let seg = &kept[j];
        if is_overlap(
            candidate,
            seg.category.as_str(),
            seg.action_type.as_str(),
            seg.segment.0,
            seg.segment.1,
        ) {
            assert(segments_overlap(candidate@, segments_view(kept@)[j as int]));
            return true;
        }
        j += 1;
    }
    false
}

/// Whether `kept` holds a segment with the identifier of `segment`.
pub fn contains_segment(kept: &Vec<Segment>, segment: &Segment) -> (found: bool)
    ensures
        found == has_uuid(segments_view(kept@), segment@.uuid),
{
    let mut j: usize = 0;
    while j < kept.len()
        invariant
            0 <= j <= kept.len(),
            forall|k: int| 0 <= k < j ==> (#[trigger] segments_view(kept@)[k]).uuid != segment@.uuid,
        decreases kept.len() - j,
    {
        if kept[j] == *segment {
            assert(segments_view(kept@)[j as int].uuid == segment@.uuid);
            return true;
        }
        j += 1;
    }
    false
}

/// Reconciles the records of one video: goes through its records in order
/// and keeps one representative for each cluster that is not yet
/// represented.
pub fn reconcile_video(records: &Vec<SponsorTime>, hash: &str) -> (kept: Vec<Segment>)
    ensures
        segments_view(kept@) == retained(records_view(records@), hash@, records@.len()),
{
    let ghost all = records_view(records@);
    let mut kept: Vec<Segment> = Vec::new();
    let mut i: usize = 0;
    assert(segments_view(kept@) =~= Seq::empty());
    while i < records.len()
        invariant
            0 <= i <= records.len(),
            all == records_view(records@),
            segments_view(kept@) == retained(all, hash@, i as nat),
        decreases records.len() - i,
    {
        let record = &records[i];
        assert(all[i as int] == record@);
        if same_text(record.hashed_video_id.as_str(), hash) {
            let candidate = build_segment(record);
            if !overlaps_any(&candidate, &kept) {
                let mut cluster = similar_segments(&candidate, hash, records);
                let ghost others = segments_view(cluster@);
                cluster.push(candidate);
                assert(segments_view(cluster@) =~= others.push(segment_of(record@)));
                let best = best_segment(&cluster);
                if !contains_segment(&kept, &best) {
                    let ghost before = segments_view(kept@);
                    kept.push(best);
                    assert(segments_view(kept@) =~= before.push(best@));
                }
            }
        }
        i += 1;
    }
    kept
}

/// Whether record `i` is the first record of its video.
pub open spec fn is_group_head(records: Seq<SponsorTimeView>, i: int) -> bool {
    forall|j: int| 0 <= j < i ==> (#[trigger] records[j]).hashed_video_id != records[i].hashed_video_id
}

/// The answer for the video of record `head`: its identifiers as that record
/// has them, and its kept segments in ascending order of start offset.
pub open spec fn sponsor_of(records: Seq<SponsorTimeView>, head: int) -> SponsorView {
    SponsorView {
        hash: records[head].hashed_video_id,
        video_id: records[head].video_id,
        segments: sort_by_start(retained(records, records[head].hashed_video_id, records.len())),
    }
}

/// The answers for the videos that begin among the first `k` records, in
/// the order in which the videos first occur.
pub open spec fn sponsors_upto(records: Seq<SponsorTimeView>, k: nat) -> Seq<SponsorView>
    decreases k,
{
    if k == 0 {
        Seq::empty()
    } else {
        let earlier = sponsors_upto(records, (k - 1) as nat);
        if is_group_head(records, k - 1) {
            earlier.push(sponsor_of(records, k - 1))
        } else {
            earlier
        }
    }
}

/// The reconciled answer for a list of records: one entry per video, in the
/// order in which the videos first occur among the records.
pub open spec fn reconciled(records: Seq<SponsorTimeView>) -> Seq<SponsorView> {
    sponsors_upto(records, records.len())
}

/// The records of the video `hash` among the first `k` records, in order.
pub open spec fn video_records(records: Seq<SponsorTimeView>, hash: Seq<char>, k: nat) -> Seq<
    SponsorTimeView,
>
    decreases k,
{
    if k == 0 {
        Seq::empty()
    } else {
        let earlier = video_records(records, hash, (k - 1) as nat);
        if records[k - 1].hashed_video_id == hash {
            earlier.push(records[k - 1])
        } else {
            earlier
        }
    }
}

/// Gathers the records of the video `hash`, in order.
pub fn records_of_video(records: &Vec<SponsorTime>, hash: &str) -> (group: Vec<SponsorTime>)
    ensures
        records_view(group@) == video_records(records_view(records@), hash@, records@.len()),
{
    let ghost all = records_view(records@);
    let mut group: Vec<SponsorTime> = Vec::new();
    let mut i: usize = 0;
    assert(records_view(group@) =~= Seq::empty());
    while i < records.len()
        invariant
            0 <= i <= records.len(),
            all == records_view(records@),
            records_view(group@) == video_records(all, hash@, i as nat),
        decreases records.len() - i,
    {
        let record = &records[i];
        assert(all[i as int] == record@);
        if same_text(record.hashed_video_id.as_str(), hash) {
            let ghost before = records_view(group@);
            let copy = record.clone();
            group.push(copy);
            assert(records_view(group@) =~= before.push(record@));
        }
        i += 1;
    }
    group
}

/// Whether one of the answers is for the video `hash`.
pub fn has_answer(sponsors: &Vec<Sponsor>, hash: &str) -> (found: bool)
    ensures
        found == answers_video(sponsors_view(sponsors@), hash@),
{
    let mut s: usize = 0;
    while s < sponsors.len()
        invariant
            0 <= s <= sponsors.len(),
            forall|t: int| 0 <= t < s ==> (#[trigger] sponsors_view(sponsors@)[t]).hash != hash@,
        decreases sponsors.len() - s,
    {
        if same_text(sponsors[s].hash.as_str(), hash) {
            assert(sponsors_view(sponsors@)[s as int].hash == hash@);
            return true;
        }
        s += 1;
    }
    false
}

/// Reconciles the records that matched a query: one answer per video, each
/// with its clusters reduced to their representatives and sorted by start
/// offset.
///
/// The records are first gathered by video, so that the clusters of a video
/// are sought among its own records only.
pub fn find_skip_segments(records: &Vec<SponsorTime>) -> (sponsors: Vec<Sponsor>)
    ensures
        sponsors_view(sponsors@) == reconciled(records_view(records@)),
        sponsors@.len() == 0 <==> records@.len() == 0,
        forall|s: int|
            0 <= s < sponsors@.len() ==> well_formed_answer(
                records_view(records@),
                (#[trigger] sponsors@[s])@,
            ),
{
    let ghost all = records_view(records@);
    let mut sponsors: Vec<Sponsor> = Vec::new();
    let mut i: usize = 0;
    assert(sponsors_view(sponsors@) =~= Seq::empty());
    while i < records.len()
        invariant
            0 <= i <= records.len(),
            all == records_view(records@),
            sponsors_view(sponsors@) == sponsors_upto(all, i as nat),
        decreases records.len() - i,
    {
        let record = &records[i];
        assert(all[i as int] == record@);
        proof {
            head_iff_unanswered(all, i as nat);
        }
        if !has_answer(&sponsors, record.hashed_video_id.as_str()) {
            let group = records_of_video(records, record.hashed_video_id.as_str());
            let mut segments = reconcile_video(&group, record.hashed_video_id.as_str());
            proof {
                video_alone_decides(all, record@.hashed_video_id);
            }
            sort_segments(&mut segments);
            let sponsor = Sponsor {
                hash: record.hashed_video_id.clone(),
                video_id: record.video_id.clone(),
                segments,
            };
            assert(sponsor@ == sponsor_of(all, i as int));
            let ghost before = sponsors_view(sponsors@);
            sponsors.push(sponsor);
            assert(sponsors_view(sponsors@) =~= before.push(sponsor_of(all, i as int)));
        }
        i += 1;
    }
    proof {
        one_answer_per_video(all);
        answers_are_well_formed(all);
        assert forall|s: int| 0 <= s < sponsors@.len() implies well_formed_answer(
            all,
            (#[trigger] sponsors@[s])@,
        ) by {
            assert(sponsors_view(sponsors@)[s] == sponsors@[s]@);
        }
    }
    sponsors
}

} // verus!
