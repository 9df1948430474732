//! The query resolver: what a request is answered with, decided from the
//! request and from what the record store returned.

use crate::models::records_view;
use crate::models::SponsorTime;
use crate::reconcile::find_skip_segments;
use crate::reconcile::reconciled;
use crate::structs::segments_view;
use crate::structs::sponsors_view;
use crate::structs::HealthCheck;
use crate::structs::HealthCheckView;
use crate::structs::HealthChecks;
use crate::structs::HealthChecksView;
use crate::structs::HealthResponse;
use crate::structs::HealthResponseView;
use crate::structs::Segment;
use crate::structs::SegmentView;
use crate::structs::Sponsor;
use crate::structs::SponsorView;
use crate::text::is_decimal_digit;
use crate::text::same_text;
use vstd::prelude::*;
use vstd::string::StringSliceAdditionalSpecFns;
use vstd::utf8::is_ascii_chars;
use vstd::utf8::is_ascii_chars_encode_utf8;

verus! {

/// Whether `c` is a digit or one of the letters `a` to `f`.
pub open spec fn is_lower_hex(c: char) -> bool {
    is_decimal_digit(c) || 'a' <= c <= 'f'
}

/// Whether `c` may stand in a video identifier: a letter, a digit, `_` or
/// `-`.
pub open spec fn is_id_char(c: char) -> bool {
    is_decimal_digit(c) || 'a' <= c <= 'z' || 'A' <= c <= 'Z' || c == '_' || c == '-'
}

/// Whether `text` is a hash prefix: four characters, each a digit or a
/// letter from `a` to `f`.
pub open spec fn is_hash_prefix(text: Seq<char>) -> bool {
    &&& text.len() == 4
    &&& forall|i: int| 0 <= i < text.len() ==> is_lower_hex(#[trigger] text[i])
}

/// Whether `text` is a video identifier: six to eleven characters, each a
/// letter, a digit, `_` or `-`.
pub open spec fn is_video_id(text: Seq<char>) -> bool {
    &&& 6 <= text.len() <= 11
    &&& forall|i: int| 0 <= i < text.len() ==> is_id_char(#[trigger] text[i])
}

/// Decides whether `hash` is a hash prefix.
pub fn matches_hash_format(hash: &str) -> (ok: bool)
    ensures
        ok == is_hash_prefix(hash@),
{
    if !hash.is_ascii() {
        return false;
    }
    let bytes = hash.as_bytes();
    proof {
        is_ascii_chars_encode_utf8(hash@);
    }
    if bytes.len() != 4 {
        return false;
    }
    let mut i: usize = 0;
    while i < 4
        invariant
            0 <= i <= 4,
            bytes@.len() == 4,
            hash@.len() == 4,
            is_ascii_chars(hash@),
            forall|k: int| 0 <= k < 4 ==> (#[trigger] hash@[k]) as u8 == bytes@[k],
            forall|k: int| 0 <= k < i ==> is_lower_hex(#[trigger] hash@[k]),
        decreases 4 - i,
    {
        let b: u8 = bytes[i];
        let ok = (b >= 48 && b <= 57) || (b >= 97 && b <= 102);
        assert(ok == is_lower_hex(hash@[i as int]));
        if !ok {
            return false;
        }
        i += 1;
    }
    true
}

/// Decides whether `video_id` is a video identifier.
pub fn matches_id_format(video_id: &str) -> (ok: bool)
    ensures
        ok == is_video_id(video_id@),
{
    if !video_id.is_ascii() {
        return false;
    }
    let bytes = video_id.as_bytes();
    proof {
        is_ascii_chars_encode_utf8(video_id@);
    }
    let n = bytes.len();
    if n < 6 || n > 11 {
        return false;
    }
    let mut i: usize = 0;
    while i < n
        invariant
            0 <= i <= n,
            6 <= n <= 11,
            bytes@.len() == n,
            video_id@.len() == n,
            is_ascii_chars(video_id@),
            forall|k: int| 0 <= k < n ==> (#[trigger] video_id@[k]) as u8 == bytes@[k],
            forall|k: int| 0 <= k < i ==> is_id_char(#[trigger] video_id@[k]),
        decreases n - i,
    {
        let b: u8 = bytes[i];
        let ok = (b >= 48 && b <= 57) || (b >= 97 && b <= 122) || (b >= 65 && b <= 90) || b == 95
            || b == 45;
        assert(ok == is_id_char(video_id@[i as int]));
        if !ok {
            return false;
        }
        i += 1;
    }
    true
}

/// Why a request is turned down before the record store is asked.
#[derive(Clone, Copy, Debug, PartialEq, Eq, Structural)]
pub enum RequestError {
    /// The hash prefix is not four digits or letters from `a` to `f`.
    HashFormat,
    /// The request names no video.
    VideoIdMissing,
    /// The video identifier is not six to eleven letters, digits, `_` or `-`.
    VideoIdFormat,
}

/// The text that tells the client why its request was turned down.
pub open spec fn error_text(error: RequestError) -> Seq<char> {
    match error {
        RequestError::HashFormat => "Hash prefix does not match format requirements."@,
        RequestError::VideoIdMissing => "videoID parameter is required"@,
        RequestError::VideoIdFormat => "videoID does not match format requirements"@,
    }
}

impl RequestError {
    /// The body of the reply that turns the request down.
    pub fn message(&self) -> (text: String)
        ensures
            text@ == error_text(*self),
    {
        match self {
            RequestError::HashFormat => String::from_str(
                "Hash prefix does not match format requirements.",
            ),
            RequestError::VideoIdMissing => String::from_str("videoID parameter is required"),
            RequestError::VideoIdFormat => String::from_str(
                "videoID does not match format requirements",
            ),
        }
    }

    /// The status of the reply that turns the request down.
    pub fn status(&self) -> (code: u16)
        ensures
            code == 400,
    {
        400
    }
}

/// How a request names its videos: by a prefix of the hashed identifier,
/// which several videos may share, or by the identifier of one video.
#[derive(Debug)]
pub enum VideoName {
    ByHashPrefix(String),
    ByID(String),
}

/// The mathematical value of a `VideoName`.
pub ghost enum VideoNameView {
    ByHashPrefix(Seq<char>),
    ByID(Seq<char>),
}

impl View for VideoName {
    type V = VideoNameView;

    open spec fn view(&self) -> VideoNameView {
        match self {
            VideoName::ByHashPrefix(hash) => VideoNameView::ByHashPrefix(hash@),
            VideoName::ByID(video_id) => VideoNameView::ByID(video_id@),
        }
    }
}

/// The characters of each string of a list, in order.
pub open spec fn strings_view(strings: Seq<String>) -> Seq<Seq<char>> {
    strings.map_values(|s: String| s@)
}

/// The characters of a text that may be absent.
pub open spec fn text_of(text: Option<&str>) -> Option<Seq<char>> {
    match text {
        Some(t) => Some(t@),
        None => None,
    }
}

/// The text that stands for the categories where the request names none.
pub open spec fn default_categories_text() -> Seq<char> {
    "[\"sponsor\"]"@
}

/// The categories text that is passed on to the origin: the one of the
/// request, or the default.
pub open spec fn categories_text(categories: Option<Seq<char>>) -> Seq<char> {
    match categories {
        Some(text) => text,
        None => default_categories_text(),
    }
}

/// Where the origin answers the same request.
pub open spec fn origin_text(name: VideoNameView, categories: Option<Seq<char>>) -> Seq<char> {
    match name {
        VideoNameView::ByHashPrefix(hash) => "https://sponsor.ajay.app/api/skipSegments/"@ + hash
            + "?categories="@ + categories_text(categories),
        VideoNameView::ByID(video_id) => "https://sponsor.ajay.app/api/skipSegments?videoID="@
            + video_id + "&categories="@ + categories_text(categories),
    }
}

/// Writes out where the origin answers the same request. The name and the
/// categories are passed on as they came.
pub fn origin_url(name: &VideoName, categories: Option<&str>) -> (url: String)
    ensures
        url@ == origin_text(name@, text_of(categories)),
{
    let passed_on: &str = match categories {
        Some(text) => text,
        None => "[\"sponsor\"]",
    };
    match name {
        VideoName::ByHashPrefix(hash) => {
            let mut url = String::from_str("https://sponsor.ajay.app/api/skipSegments/");
            url.append(hash.as_str());
            url.append("?categories=");
            url.append(passed_on);
            url
        },
        VideoName::ByID(video_id) => {
            let mut url = String::from_str("https://sponsor.ajay.app/api/skipSegments?videoID=");
            url.append(video_id.as_str());
            url.append("&categories=");
            url.append(passed_on);
            url
        },
    }
}

/// The error of `serde_json`, carried through unread; taken on trust as an
/// opaque value.
#[verifier::external_type_specification]
#[verifier::external_body]
pub struct ExJsonError(serde_json::Error);

/// What `text` holds when read as a JSON array of strings: the strings in
/// order, or nothing where `text` is no such array.
pub uninterp spec fn json_string_list(text: Seq<char>) -> Option<Seq<Seq<char>>>;

/// Reads `text` as a JSON array of strings with `serde_json::from_str`.
///
/// Taken on trust: the outcome depends on `text` alone, and is the list of
/// strings that `json_string_list` names, or an error where it names none.
#[verifier::external_body]
fn parse_string_list(text: &str) -> (parsed: Result<Vec<String>, serde_json::Error>)
    ensures
        match parsed {
            Ok(list) => json_string_list(text@) == Some(strings_view(list@)),
            Err(_) => json_string_list(text@) is None,
        },
{
    serde_json::from_str::<Vec<String>>(text)
}

/// The categories that a request asks for: those of its JSON array, or
/// `sponsor` alone where it names none; nothing where its text is no JSON
/// array of strings.
pub open spec fn requested_categories(categories: Option<Seq<char>>) -> Option<Seq<Seq<char>>> {
    match categories {
        Some(text) => json_string_list(text),
        None => Some(seq!["sponsor"@]),
    }
}

/// Reads the categories that a request asks for.
pub fn parse_categories(categories: Option<&str>) -> (parsed: Option<Vec<String>>)
    ensures
        match parsed {
            Some(list) => requested_categories(text_of(categories)) == Some(strings_view(list@)),
            None => requested_categories(text_of(categories)) is None,
        },
{
    match categories {
        Some(text) => match parse_string_list(text) {
            Ok(list) => Some(list),
            Err(_) => None,
        },
        None => {
            let mut list: Vec<String> = Vec::new();
            list.push(String::from_str("sponsor"));
            assert(strings_view(list@) =~= seq!["sponsor"@]);
            Some(list)
        },
    }
}

/// What the record store is asked for: the records of the named videos in
/// the given categories that are neither hidden nor voted down.
#[derive(Debug)]
pub struct StoreQuery {
    pub name: VideoName,
    pub categories: Vec<String>,
}

/// The statement that selects the records for a request: those that are
/// neither shadow-hidden nor hidden, have no negative votes, are of one of
/// the categories bound first, and belong to the videos that the key bound
/// second names.
pub open spec fn select_text(name: VideoNameView) -> Seq<char> {
    match name {
        VideoNameView::ByHashPrefix(_) => "SELECT * FROM \"sponsorTimes\" WHERE \"shadowHidden\" = 0 AND \"hidden\" = 0 AND \"votes\" >= 0 AND \"category\" = ANY($1) AND \"hashedVideoID\" LIKE $2"@,
        VideoNameView::ByID(_) => "SELECT * FROM \"sponsorTimes\" WHERE \"shadowHidden\" = 0 AND \"hidden\" = 0 AND \"votes\" >= 0 AND \"category\" = ANY($1) AND \"videoID\" = $2"@,
    }
}

/// The key bound second to the statement: the pattern for all hashed
/// identifiers that begin with the prefix, or the identifier itself.
pub open spec fn select_key(name: VideoNameView) -> Seq<char> {
    match name {
        VideoNameView::ByHashPrefix(hash) => hash + seq!['%'],
        VideoNameView::ByID(video_id) => video_id,
    }
}

impl StoreQuery {
    /// Writes out the statement that selects the records; the categories
    /// are bound first to it, the key second.
    pub fn sql(&self) -> (text: String)
        ensures
            text@ == select_text(self.name@),
    {
        match &self.name {
            VideoName::ByHashPrefix(_) => String::from_str(
                "SELECT * FROM \"sponsorTimes\" WHERE \"shadowHidden\" = 0 AND \"hidden\" = 0 AND \"votes\" >= 0 AND \"category\" = ANY($1) AND \"hashedVideoID\" LIKE $2",
            ),
            VideoName::ByID(_) => String::from_str(
                "SELECT * FROM \"sponsorTimes\" WHERE \"shadowHidden\" = 0 AND \"hidden\" = 0 AND \"votes\" >= 0 AND \"category\" = ANY($1) AND \"videoID\" = $2",
            ),
        }
    }

    /// Writes out the key that is bound second to the statement.
    pub fn key(&self) -> (text: String)
        ensures
            text@ == select_key(self.name@),
    {
        match &self.name {
            VideoName::ByHashPrefix(hash) => {
                let mut pattern = hash.clone();
                proof {
                    reveal_strlit("%");
                }
                pattern.append("%");
                assert(pattern@ =~= hash@ + seq!['%']);
                pattern
            },
            VideoName::ByID(video_id) => video_id.clone(),
        }
    }
}

/// What is to be done with a request before any record is read.
#[derive(Debug)]
pub enum Lookup {
    /// Turn the request down.
    Rejected(RequestError),
    /// The categories of the request are no JSON array of strings.
    MalformedCategories,
    /// The request asks for no category: there is nothing to find in the
    /// store, and the origin at this address answers.
    Forward(String),
    /// Ask the record store.
    Fetch(StoreQuery),
}

/// The mathematical value of a `Lookup`.
pub ghost enum LookupView {
    Rejected(RequestError),
    MalformedCategories,
    Forward(Seq<char>),
    Fetch { name: VideoNameView, categories: Seq<Seq<char>> },
}

impl View for Lookup {
    type V = LookupView;

    open spec fn view(&self) -> LookupView {
        match self {
            Lookup::Rejected(error) => LookupView::Rejected(*error),
            Lookup::MalformedCategories => LookupView::MalformedCategories,
            Lookup::Forward(url) => LookupView::Forward(url@),
            Lookup::Fetch(query) => LookupView::Fetch {
                name: query.name@,
                categories: strings_view(query.categories@),
            },
        }
    }
}

/// What is to be done with a well-formed name and the categories of the
/// request.
pub open spec fn lookup_for(name: VideoNameView, categories: Option<Seq<char>>) -> LookupView {
    match requested_categories(categories) {
        None => LookupView::MalformedCategories,
        Some(list) => if list.len() == 0 {
            LookupView::Forward(origin_text(name, categories))
        } else {
            LookupView::Fetch { name, categories: list }
        },
    }
}

/// Plans the lookup for a well-formed name: reads the categories, and asks
/// the store only where the request names at least one.
pub fn plan_lookup(name: VideoName, categories: Option<&str>) -> (lookup: Lookup)
    ensures
        lookup@ == lookup_for(name@, text_of(categories)),
{
    match parse_categories(categories) {
        None => Lookup::MalformedCategories,
        Some(list) => {
            assert(strings_view(list@).len() == list@.len());
            if list.len() == 0 {
                Lookup::Forward(origin_url(&name, categories))
            } else {
                Lookup::Fetch(StoreQuery { name, categories: list })
            }
        },
    }
}

/// What a request by hash prefix is answered with before any record is
/// read.
pub open spec fn hash_lookup(hash: Seq<char>, categories: Option<Seq<char>>) -> LookupView {
    if is_hash_prefix(hash) {
        lookup_for(VideoNameView::ByHashPrefix(hash), categories)
    } else {
        LookupView::Rejected(RequestError::HashFormat)
    }
}

/// What a request by video identifier is answered with before any record is
/// read.
pub open spec fn id_lookup(video_id: Option<Seq<char>>, categories: Option<Seq<char>>) -> LookupView {
    match video_id {
        None => LookupView::Rejected(RequestError::VideoIdMissing),
        Some(id) => if is_video_id(id) {
            lookup_for(VideoNameView::ByID(id), categories)
        } else {
            LookupView::Rejected(RequestError::VideoIdFormat)
        },
    }
}

/// Takes a request for the videos whose hashed identifier begins with
/// `hash`. A malformed prefix is turned down before anything else is looked
/// at.
pub fn skip_segments(hash: &str, categories: Option<&str>) -> (lookup: Lookup)
    ensures
        lookup@ == hash_lookup(hash@, text_of(categories)),
{
    if !matches_hash_format(hash) {
        return Lookup::Rejected(RequestError::HashFormat);
    }
    plan_lookup(VideoName::ByHashPrefix(String::from_str(hash)), categories)
}

/// Takes a request for the video `video_id`. A missing or malformed
/// identifier is turned down before anything else is looked at.
pub fn skip_segments_by_id(video_id: Option<&str>, categories: Option<&str>) -> (lookup: Lookup)
    ensures
        lookup@ == id_lookup(text_of(video_id), text_of(categories)),
{
    match video_id {
        None => Lookup::Rejected(RequestError::VideoIdMissing),
        Some(id) => {
            if !matches_id_format(id) {
                return Lookup::Rejected(RequestError::VideoIdFormat);
            }
            plan_lookup(VideoName::ByID(String::from_str(id)), categories)
        },
    }
}

/// What a request is answered with once the record store has answered.
#[derive(Debug)]
pub enum Reply {
    /// The answers for all videos that matched a hash prefix.
    Sponsors(Vec<Sponsor>),
    /// The segments of the one video that an identifier names.
    Segments(Vec<Segment>),
    /// Nothing was found here: relay what the origin at this address says.
    Forward(String),
}

/// The mathematical value of a `Reply`.
pub ghost enum ReplyView {
    Sponsors(Seq<SponsorView>),
    Segments(Seq<SegmentView>),
    Forward(Seq<char>),
}

impl View for Reply {
    type V = ReplyView;

    open spec fn view(&self) -> ReplyView {
        match self {
            Reply::Sponsors(sponsors) => ReplyView::Sponsors(sponsors_view(sponsors@)),
            Reply::Segments(segments) => ReplyView::Segments(segments_view(segments@)),
            Reply::Forward(url) => ReplyView::Forward(url@),
        }
    }
}

/// The reply to a request from the records that the store returned for it.
///
/// Without a record the origin answers. Otherwise the records are
/// reconciled; a request by hash prefix gets the answers for all videos, a
/// request by identifier the segments of the first, which is the only one.
pub open spec fn reply_for(
    name: VideoNameView,
    categories: Option<Seq<char>>,
    records: Seq<crate::models::SponsorTimeView>,
) -> ReplyView {
    if records.len() == 0 {
        ReplyView::Forward(origin_text(name, categories))
    } else {
        match name {
            VideoNameView::ByHashPrefix(_) => ReplyView::Sponsors(reconciled(records)),
            VideoNameView::ByID(_) => ReplyView::Segments(reconciled(records)[0].segments),
        }
    }
}

/// Answers a request from the records that the store returned for it.
pub fn respond(name: &VideoName, categories: Option<&str>, records: &Vec<SponsorTime>) -> (reply:
    Reply)
    ensures
        reply@ == reply_for(name@, text_of(categories), records_view(records@)),
{
    let mut sponsors = find_skip_segments(records);
    if sponsors.len() == 0 {
        return Reply::Forward(origin_url(name, categories));
    }
    assert(records_view(records@).len() == records@.len());
    match name {
        VideoName::ByHashPrefix(_) => Reply::Sponsors(sponsors),
        VideoName::ByID(_) => {
            let ghost all = sponsors_view(sponsors@);
            let first = sponsors.remove(0);
            assert(first@ == all[0]);
            Reply::Segments(first.segments)
        },
    }
}

/// The outcome of the probe of the record store: `failure` is what the
/// store said where the probe failed, `elapsed_ms` the time the probe took.
pub open spec fn database_check(failure: Option<Seq<char>>, elapsed_ms: u64) -> HealthCheckView {
    match failure {
        None => HealthCheckView {
            status: "healthy"@,
            message: Some("Database connection successful"@),
            response_time_ms: Some(elapsed_ms),
        },
        Some(reason) => HealthCheckView {
            status: "unhealthy"@,
            message: Some("Database connection failed: "@ + reason),
            response_time_ms: Some(elapsed_ms),
        },
    }
}

/// Writes down the outcome of the probe of the record store.
pub fn check_database(failure: Option<&str>, elapsed_ms: u64) -> (check: HealthCheck)
    ensures
        check@ == database_check(text_of(failure), elapsed_ms),
{
    match failure {
        None => HealthCheck {
            status: String::from_str("healthy"),
            message: Some(String::from_str("Database connection successful")),
            response_time_ms: Some(elapsed_ms),
        },
        Some(reason) => {
            let mut message = String::from_str("Database connection failed: ");
            message.append(reason);
            HealthCheck {
                status: String::from_str("unhealthy"),
                message: Some(message),
                response_time_ms: Some(elapsed_ms),
            }
        },
    }
}

/// Whether the probe of the record store came out healthy.
pub open spec fn is_healthy(database: HealthCheckView) -> bool {
    database.status == "healthy"@
}

/// The health report around the probe of the record store: healthy exactly
/// when the probe is.
pub open spec fn report_of(database: HealthCheckView, timestamp: Seq<char>) -> HealthResponseView {
    HealthResponseView {
        status: if is_healthy(database) {
            "healthy"@
        } else {
            "unhealthy"@
        },
        timestamp,
        checks: HealthChecksView { database },
    }
}

/// The status of the reply that carries the health report.
pub open spec fn report_status(database: HealthCheckView) -> u16 {
    if is_healthy(database) {
        200
    } else {
        503
    }
}

/// Puts the health report together, with the status of the reply that
/// carries it.
pub fn health_report(database: HealthCheck, timestamp: String) -> (report: (HealthResponse, u16))
    ensures
        report.0@ == report_of(database@, timestamp@),
        report.1 == report_status(database@),
{
    let healthy = same_text(database.status.as_str(), "healthy");
    let status = if healthy {
        String::from_str("healthy")
    } else {
        String::from_str("unhealthy")
    };
    let code: u16 = if healthy {
        200
    } else {
        503
    };
    (HealthResponse { status, timestamp, checks: HealthChecks { database } }, code)
}

/// The point in time `seconds` and `nanos` after the Unix epoch, written as
/// RFC 3339 demands; nothing where the calendar used does not reach that
/// far.
pub uninterp spec fn rfc3339_text(seconds: i64, nanos: u32) -> Option<Seq<char>>;

/// Writes a point in time with `chrono::DateTime::from_timestamp` and
/// `chrono::DateTime::to_rfc3339`.
///
/// Taken on trust: the text depends on `seconds` and `nanos` alone, and is
/// the one that `rfc3339_text` names; there is none where `from_timestamp`
/// gives none.
#[verifier::external_body]
fn rfc3339(seconds: i64, nanos: u32) -> (text: Option<String>)
    ensures
        match text {
            Some(t) => rfc3339_text(seconds, nanos) == Some(t@),
            None => rfc3339_text(seconds, nanos) is None,
        },
{
    match chrono::DateTime::from_timestamp(seconds, nanos) {
        Some(time) => Some(time.to_rfc3339()),
        None => None,
    }
}

/// Reports on the health of the service at the time `now_seconds` and
/// `now_nanos` after the Unix epoch, from the outcome of the probe of the
/// record store. There is no report for a time that cannot be written.
pub fn health_check(
    failure: Option<&str>,
    elapsed_ms: u64,
    now_seconds: i64,
    now_nanos: u32,
) -> (report: Option<(HealthResponse, u16)>)
    ensures
        match report {
            Some(r) => rfc3339_text(now_seconds, now_nanos) is Some && r.0@ == report_of(
                database_check(text_of(failure), elapsed_ms),
                rfc3339_text(now_seconds, now_nanos)->0,
            ) && r.1 == report_status(database_check(text_of(failure), elapsed_ms)) && (r.1 == 200
                <==> failure is None),
            None => rfc3339_text(now_seconds, now_nanos) is None,
        },
{
    proof {
        reveal_strlit("healthy");
        reveal_strlit("unhealthy");
        assert("healthy"@.len() != "unhealthy"@.len());
    }
    match rfc3339(now_seconds, now_nanos) {
        Some(timestamp) => Some(health_report(check_database(failure, elapsed_ms), timestamp)),
        None => None,
    }
}

/// What the service says of a user's special rights: it knows no user, and
/// nobody has any.
#[derive(Debug)]
pub struct VipStatus {
    pub hashed_user_id: String,
    pub vip: bool,
}

/// What the service says of a user: it knows no user, and nobody has done
/// anything.
#[derive(Debug)]
pub struct UserInfo {
    pub user_id: String,
    pub user_name: String,
    pub minutes_saved: u64,
    pub segment_count: u64,
    pub view_count: u64,
}

/// Answers the question for a user's special rights, the same for all.
pub fn fake_is_user_vip() -> (status: VipStatus)
    ensures
        status.hashed_user_id@.len() == 0,
        !status.vip,
{
    VipStatus { hashed_user_id: String::new(), vip: false }
}

/// Answers the question for a user, the same for all.
pub fn fake_user_info() -> (info: UserInfo)
    ensures
        info.user_id@.len() == 0,
        info.user_name@.len() == 0,
        info.minutes_saved == 0,
        info.segment_count == 0,
        info.view_count == 0,
{
    UserInfo {
        user_id: String::new(),
        user_name: String::new(),
        minutes_saved: 0,
        segment_count: 0,
        view_count: 0,
    }
}

/// The text that stands where the metrics are served by other means.
pub fn metrics() -> (body: String)
    ensures
        body@ == "# Metrics handled by actix-web-prom middleware"@,
{
    String::from_str("# Metrics handled by actix-web-prom middleware")
}

} // verus!
