//! One raw annotation as the record store hands it out.

use vstd::prelude::*;

verus! {

/// One submitted annotation of a video.
///
/// Offsets and durations are whole milliseconds. A record is never changed
/// after it was read; the reconciler only reads it.
#[derive(Debug)]
pub struct SponsorTime {
    pub video_id: String,
    /// Start of the annotated interval, in milliseconds.
    pub start_time: i64,
    /// End of the annotated interval, in milliseconds.
    pub end_time: i64,
    pub votes: i32,
    pub locked: i32,
    pub incorrect_votes: i32,
    pub uuid: String,
    pub user_id: String,
    pub time_submitted: i64,
    pub views: i32,
    pub category: String,
    pub action_type: String,
    /// Reported length of the video, in milliseconds.
    pub video_duration: i64,
    pub hidden: i32,
    pub shadow_hidden: i32,
    pub hashed_video_id: String,
    pub description: String,
}

/// The mathematical value of a `SponsorTime`.
pub ghost struct SponsorTimeView {
    pub video_id: Seq<char>,
    pub start_time: int,
    pub end_time: int,
    pub votes: int,
    pub locked: int,
    pub incorrect_votes: int,
    pub uuid: Seq<char>,
    pub user_id: Seq<char>,
    pub time_submitted: int,
    pub views: int,
    pub category: Seq<char>,
    pub action_type: Seq<char>,
    pub video_duration: int,
    pub hidden: int,
    pub shadow_hidden: int,
    pub hashed_video_id: Seq<char>,
    pub description: Seq<char>,
}

impl View for SponsorTime {
    type V = SponsorTimeView;

    open spec fn view(&self) -> SponsorTimeView {
        SponsorTimeView {
            video_id: self.video_id@,
            start_time: self.start_time as int,
            end_time: self.end_time as int,
            votes: self.votes as int,
            locked: self.locked as int,
            incorrect_votes: self.incorrect_votes as int,
            uuid: self.uuid@,
            user_id: self.user_id@,
            time_submitted: self.time_submitted as int,
            views: self.views as int,
            category: self.category@,
            action_type: self.action_type@,
            video_duration: self.video_duration as int,
            hidden: self.hidden as int,
            shadow_hidden: self.shadow_hidden as int,
            hashed_video_id: self.hashed_video_id@,
            description: self.description@,
        }
    }
}

impl Clone for SponsorTime {
    fn clone(&self) -> (r: Self)
        ensures
            r@ == self@,
    {
        SponsorTime {
            video_id: self.video_id.clone(),
            start_time: self.start_time,
            end_time: self.end_time,
            votes: self.votes,
            locked: self.locked,
            incorrect_votes: self.incorrect_votes,
            uuid: self.uuid.clone(),
            user_id: self.user_id.clone(),
            time_submitted: self.time_submitted,
            views: self.views,
            category: self.category.clone(),
            action_type: self.action_type.clone(),
            video_duration: self.video_duration,
            hidden: self.hidden,
            shadow_hidden: self.shadow_hidden,
            hashed_video_id: self.hashed_video_id.clone(),
            description: self.description.clone(),
        }
    }
}

/// The values of a list of records, in order.
pub open spec fn records_view(records: Seq<SponsorTime>) -> Seq<SponsorTimeView> {
    records.map_values(|r: SponsorTime| r@)
}

} // verus!
