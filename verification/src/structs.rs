//! The values handed to clients: segments, per-video answers and the health
//! report.

use core::cmp::Ordering;
use vstd::prelude::*;
use vstd::std_specs::cmp::PartialEqSpecImpl;
use vstd::std_specs::cmp::PartialOrdSpecImpl;

verus! {

/// The client-facing form of one retained annotation.
///
/// `segment` is the pair of start and end offset, in milliseconds.
/// Two segments are the same segment when their identifiers agree, whatever
/// the other fields hold; segments are ordered by start offset alone.
#[derive(Debug)]
pub struct Segment {
    pub uuid: String,
    pub action_type: String,
    pub category: String,
    pub description: String,
    pub locked: i32,
    pub segment: (i64, i64),
    pub user_id: String,
    /// Reported length of the video, in milliseconds.
    pub video_duration: i64,
    pub votes: i32,
}

/// The mathematical value of a `Segment`.
pub ghost struct SegmentView {
    pub uuid: Seq<char>,
    pub action_type: Seq<char>,
    pub category: Seq<char>,
    pub description: Seq<char>,
    pub locked: int,
    pub start: int,
    pub end: int,
    pub user_id: Seq<char>,
    pub video_duration: int,
    pub votes: int,
}

impl View for Segment {
    type V = SegmentView;

    open spec fn view(&self) -> SegmentView {
        SegmentView {
            uuid: self.uuid@,
            action_type: self.action_type@,
            category: self.category@,
            description: self.description@,
            locked: self.locked as int,
            start: self.segment.0 as int,
            end: self.segment.1 as int,
            user_id: self.user_id@,
            video_duration: self.video_duration as int,
            votes: self.votes as int,
        }
    }
}

impl Clone for Segment {
    fn clone(&self) -> (r: Self)
        ensures
            r@ == self@,
    {
        Segment {
            uuid: self.uuid.clone(),
            action_type: self.action_type.clone(),
            category: self.category.clone(),
            description: self.description.clone(),
            locked: self.locked,
            segment: (self.segment.0, self.segment.1),
            user_id: self.user_id.clone(),
            video_duration: self.video_duration,
            votes: self.votes,
        }
    }
}

impl PartialEq for Segment {
    fn eq(&self, other: &Self) -> (r: bool) {
        self.uuid == other.uuid
    }
}

impl PartialEqSpecImpl for Segment {
    open spec fn obeys_eq_spec() -> bool {
        true
    }

    open spec fn eq_spec(&self, other: &Self) -> bool {
        self.uuid@ == other.uuid@
    }
}

impl PartialOrd for Segment {
    fn partial_cmp(&self, other: &Self) -> (r: Option<Ordering>) {
        if self.segment.0 < other.segment.0 {
            Some(Ordering::Less)
        } else if self.segment.0 == other.segment.0 {
            Some(Ordering::Equal)
        } else {
            Some(Ordering::Greater)
        }
    }
}

impl PartialOrdSpecImpl for Segment {
    open spec fn obeys_partial_cmp_spec() -> bool {
        true
    }

    open spec fn partial_cmp_spec(&self, other: &Self) -> Option<Ordering> {
        if self.segment.0 < other.segment.0 {
            Some(Ordering::Less)
        } else if self.segment.0 == other.segment.0 {
            Some(Ordering::Equal)
        } else {
            Some(Ordering::Greater)
        }
    }
}

/// The values of a list of segments, in order.
pub open spec fn segments_view(segments: Seq<Segment>) -> Seq<SegmentView> {
    segments.map_values(|s: Segment| s@)
}

/// The answer for one video: its hashed identifier, its identifier and its
/// retained segments.
#[derive(Debug)]
pub struct Sponsor {
    pub hash: String,
    pub video_id: String,
    pub segments: Vec<Segment>,
}

impl Clone for Sponsor {
    fn clone(&self) -> (copy: Self)
        ensures
            copy@ == self@,
    {
        let mut segments: Vec<Segment> = Vec::new();
        let mut i: usize = 0;
        while i < self.segments.len()
            invariant
                0 <= i <= self.segments.len(),
                segments@.len() == i,
                forall|k: int| 0 <= k < i ==> (#[trigger] segments@[k])@ == self.segments@[k]@,
            decreases self.segments.len() - i,
        {
            segments.push(self.segments[i].clone());
            i += 1;
        }
        assert(segments_view(segments@) =~= segments_view(self.segments@));
        Sponsor { hash: self.hash.clone(), video_id: self.video_id.clone(), segments }
    }
}

/// The mathematical value of a `Sponsor`.
pub ghost struct SponsorView {
    pub hash: Seq<char>,
    pub video_id: Seq<char>,
    pub segments: Seq<SegmentView>,
}

impl View for Sponsor {
    type V = SponsorView;

    open spec fn view(&self) -> SponsorView {
        SponsorView {
            hash: self.hash@,
            video_id: self.video_id@,
            segments: segments_view(self.segments@),
        }
    }
}

/// The values of a list of per-video answers, in order.
pub open spec fn sponsors_view(sponsors: Seq<Sponsor>) -> Seq<SponsorView> {
    sponsors.map_values(|s: Sponsor| s@)
}

/// The outcome of one probe of the health report.
#[derive(Debug)]
pub struct HealthCheck {
    pub status: String,
    pub message: Option<String>,
    pub response_time_ms: Option<u64>,
}

/// The probes of the health report.
#[derive(Debug)]
pub struct HealthChecks {
    pub database: HealthCheck,
}

/// The health report of the service.
#[derive(Debug)]
pub struct HealthResponse {
    pub status: String,
    pub timestamp: String,
    pub checks: HealthChecks,
}

/// The mathematical value of a `HealthCheck`.
pub ghost struct HealthCheckView {
    pub status: Seq<char>,
    pub message: Option<Seq<char>>,
    pub response_time_ms: Option<u64>,
}

/// The mathematical value of a `HealthChecks`.
pub ghost struct HealthChecksView {
    pub database: HealthCheckView,
}

/// The mathematical value of a `HealthResponse`.
pub ghost struct HealthResponseView {
    pub status: Seq<char>,
    pub timestamp: Seq<char>,
    pub checks: HealthChecksView,
}

impl View for HealthCheck {
    type V = HealthCheckView;

    open spec fn view(&self) -> HealthCheckView {
        HealthCheckView {
            status: self.status@,
            message: match self.message {
                Some(text) => Some(text@),
                None => None,
            },
            response_time_ms: self.response_time_ms,
        }
    }
}

impl View for HealthChecks {
    type V = HealthChecksView;

    open spec fn view(&self) -> HealthChecksView {
        HealthChecksView { database: self.database@ }
    }
}

impl View for HealthResponse {
    type V = HealthResponseView;

    open spec fn view(&self) -> HealthResponseView {
        HealthResponseView {
            status: self.status@,
            timestamp: self.timestamp@,
            checks: self.checks@,
        }
    }
}

} // verus!
