use sponsorblock_mirror::models::SponsorTime;
use sponsorblock_mirror::routes::check_database;
use sponsorblock_mirror::routes::fake_is_user_vip;
use sponsorblock_mirror::routes::fake_user_info;
use sponsorblock_mirror::routes::health_check;
use sponsorblock_mirror::routes::health_report;
use sponsorblock_mirror::routes::matches_hash_format;
use sponsorblock_mirror::routes::matches_id_format;
use sponsorblock_mirror::routes::metrics;
use sponsorblock_mirror::routes::origin_url;
use sponsorblock_mirror::routes::parse_categories;
use sponsorblock_mirror::routes::plan_lookup;
use sponsorblock_mirror::routes::respond;
use sponsorblock_mirror::routes::skip_segments;
use sponsorblock_mirror::routes::skip_segments_by_id;
use sponsorblock_mirror::routes::Lookup;
use sponsorblock_mirror::routes::Reply;
use sponsorblock_mirror::routes::RequestError;
use sponsorblock_mirror::routes::VideoName;

fn stored(hash: &str, video: &str, uuid: &str, start: i64, end: i64, votes: i32) -> SponsorTime {
    SponsorTime {
        video_id: String::from(video),
        start_time: start,
        end_time: end,
        votes,
        locked: 0,
        incorrect_votes: 0,
        uuid: String::from(uuid),
        user_id: String::from("submitter"),
        time_submitted: 0,
        views: 0,
        category: String::from("sponsor"),
        action_type: String::from("skip"),
        video_duration: 0,
        hidden: 0,
        shadow_hidden: 0,
        hashed_video_id: String::from(hash),
        description: String::new(),
    }
}

#[test]
fn hash_prefix_is_four_lower_hex_characters() {
    assert!(matches_hash_format("ab12"));
    assert!(matches_hash_format("0000"));
    assert!(matches_hash_format("ffff"));
    assert!(matches_hash_format("09af"));
    assert!(!matches_hash_format(""));
    assert!(!matches_hash_format("ab1"));
    assert!(!matches_hash_format("ab123"));
    assert!(!matches_hash_format("ab1g"));
    assert!(!matches_hash_format("AB12"));
    assert!(!matches_hash_format("ab1 "));
    assert!(!matches_hash_format(" ab1"));
    assert!(!matches_hash_format("ab12\n"));
    assert!(!matches_hash_format("ab1/"));
    assert!(!matches_hash_format("ab1:"));
    assert!(!matches_hash_format("ab1`"));
    assert!(!matches_hash_format("ab\u{e9}"));
    assert!(!matches_hash_format("\u{ff41}b12"));
}

#[test]
fn video_id_is_six_to_eleven_id_characters() {
    assert!(matches_id_format("dQw4w9WgXcQ"));
    assert!(matches_id_format("abcdef"));
    assert!(matches_id_format("a_b-c_D-9"));
    assert!(matches_id_format("-_-_-_"));
    assert!(!matches_id_format(""));
    assert!(!matches_id_format("abcde"));
    assert!(!matches_id_format("abcdefghijkl"));
    assert!(!matches_id_format("abc def"));
    assert!(!matches_id_format("abcdef\n"));
    assert!(!matches_id_format("abc.def"));
    assert!(!matches_id_format("abcde@"));
    assert!(!matches_id_format("abcde["));
    assert!(!matches_id_format("abcde{"));
    assert!(!matches_id_format("abcd\u{e9}f"));
    assert!(!matches_id_format("\u{e9}\u{e9}\u{e9}"));
}

#[test]
fn formats_agree_with_the_patterns() {
    let hash = regex::Regex::new(r"^[0-9a-f]{4}$").unwrap();
    let id = regex::Regex::new(r"^[a-zA-Z0-9_-]{6,11}$").unwrap();
    let alphabet = [
        "", "a", "f", "g", "0", "9", "A", "F", "Z", "z", "_", "-", " ", "\n", "/", ":", "@", "[",
        "`", "{", "\u{e9}", "\u{212a}", "\u{ff41}", "ab", "12", "abc", "0a1b", "zz", "QQ",
    ];
    let mut seen = 0;
    for a in alphabet {
        for b in alphabet {
            for c in alphabet {
                for d in alphabet {
                    let text = format!("{}{}{}{}", a, b, c, d);
                    assert_eq!(matches_hash_format(&text), hash.is_match(&text));
                    assert_eq!(matches_id_format(&text), id.is_match(&text));
                    seen += 1;
                }
            }
        }
    }
    assert!(seen > 100_000);
    for n in 0..20 {
        let text = "a".repeat(n);
        assert_eq!(matches_hash_format(&text), hash.is_match(&text));
        assert_eq!(matches_id_format(&text), id.is_match(&text));
    }
}

#[test]
fn request_errors_have_their_texts() {
    assert_eq!(
        RequestError::HashFormat.message(),
        "Hash prefix does not match format requirements."
    );
    assert_eq!(RequestError::VideoIdMissing.message(), "videoID parameter is required");
    assert_eq!(
        RequestError::VideoIdFormat.message(),
        "videoID does not match format requirements"
    );
    assert_eq!(RequestError::HashFormat.status(), 400);
    assert_eq!(RequestError::VideoIdMissing.status(), 400);
    assert_eq!(RequestError::VideoIdFormat.status(), 400);
}

#[test]
fn categories_default_to_sponsor() {
    assert_eq!(parse_categories(None), Some(vec![String::from("sponsor")]));
}

#[test]
fn categories_are_read_from_a_json_array() {
    assert_eq!(
        parse_categories(Some("[\"sponsor\", \"intro\",\"chapter\"]")),
        Some(vec![String::from("sponsor"), String::from("intro"), String::from("chapter")])
    );
    assert_eq!(parse_categories(Some("[]")), Some(Vec::new()));
    assert_eq!(parse_categories(Some(" [ \"a\\u0062\" ] ")), Some(vec![String::from("ab")]));
}

#[test]
fn categories_that_are_no_array_of_strings_are_malformed() {
    assert_eq!(parse_categories(Some("")), None);
    assert_eq!(parse_categories(Some("sponsor")), None);
    assert_eq!(parse_categories(Some("\"sponsor\"")), None);
    assert_eq!(parse_categories(Some("[1, 2]")), None);
    assert_eq!(parse_categories(Some("[\"sponsor\"")), None);
    assert_eq!(parse_categories(Some("[\"sponsor\"] x")), None);
    assert_eq!(parse_categories(Some("{\"a\": \"b\"}")), None);
}

#[test]
fn origin_url_passes_name_and_categories_on() {
    assert_eq!(
        origin_url(&VideoName::ByHashPrefix(String::from("ab12")), None),
        "https://sponsor.ajay.app/api/skipSegments/ab12?categories=[\"sponsor\"]"
    );
    assert_eq!(
        origin_url(&VideoName::ByHashPrefix(String::from("ab12")), Some("[\"intro\"]")),
        "https://sponsor.ajay.app/api/skipSegments/ab12?categories=[\"intro\"]"
    );
    assert_eq!(
        origin_url(&VideoName::ByID(String::from("dQw4w9WgXcQ")), None),
        "https://sponsor.ajay.app/api/skipSegments?videoID=dQw4w9WgXcQ&categories=[\"sponsor\"]"
    );
    assert_eq!(
        origin_url(&VideoName::ByID(String::from("dQw4w9WgXcQ")), Some("[]")),
        "https://sponsor.ajay.app/api/skipSegments?videoID=dQw4w9WgXcQ&categories=[]"
    );
}

#[test]
fn malformed_hash_is_turned_down_first() {
    assert!(matches!(skip_segments("AB12", None), Lookup::Rejected(RequestError::HashFormat)));
    assert!(matches!(skip_segments("ab1", None), Lookup::Rejected(RequestError::HashFormat)));
    assert!(matches!(
        skip_segments("xyz!", Some("not json")),
        Lookup::Rejected(RequestError::HashFormat)
    ));
    assert!(matches!(skip_segments("", Some("[]")), Lookup::Rejected(RequestError::HashFormat)));
}

#[test]
fn hash_request_asks_the_store() {
    match skip_segments("ab12", None) {
        Lookup::Fetch(query) => {
            assert!(matches!(&query.name, VideoName::ByHashPrefix(h) if h == "ab12"));
            assert_eq!(query.categories, vec![String::from("sponsor")]);
        }
        other => panic!("unexpected {:?}", other),
    }
    match skip_segments("00ff", Some("[\"intro\",\"outro\"]")) {
        Lookup::Fetch(query) => {
            assert!(matches!(&query.name, VideoName::ByHashPrefix(h) if h == "00ff"));
            assert_eq!(query.categories, vec![String::from("intro"), String::from("outro")]);
        }
        other => panic!("unexpected {:?}", other),
    }
}

#[test]
fn empty_categories_skip_the_store() {
    match skip_segments("ab12", Some("[]")) {
        Lookup::Forward(url) => {
            assert_eq!(url, "https://sponsor.ajay.app/api/skipSegments/ab12?categories=[]")
        }
        other => panic!("unexpected {:?}", other),
    }
    match skip_segments_by_id(Some("dQw4w9WgXcQ"), Some(" [ ] ")) {
        Lookup::Forward(url) => assert_eq!(
            url,
            "https://sponsor.ajay.app/api/skipSegments?videoID=dQw4w9WgXcQ&categories= [ ] "
        ),
        other => panic!("unexpected {:?}", other),
    }
}

#[test]
fn malformed_categories_are_told_apart() {
    assert!(matches!(skip_segments("ab12", Some("sponsor")), Lookup::MalformedCategories));
    assert!(matches!(
        skip_segments_by_id(Some("dQw4w9WgXcQ"), Some("[1]")),
        Lookup::MalformedCategories
    ));
    assert!(matches!(
        plan_lookup(VideoName::ByID(String::from("whatever")), Some("{}")),
        Lookup::MalformedCategories
    ));
}

#[test]
fn missing_or_malformed_video_id_is_turned_down() {
    assert!(matches!(
        skip_segments_by_id(None, None),
        Lookup::Rejected(RequestError::VideoIdMissing)
    ));
    assert!(matches!(
        skip_segments_by_id(None, Some("not json")),
        Lookup::Rejected(RequestError::VideoIdMissing)
    ));
    assert!(matches!(
        skip_segments_by_id(Some("abc"), None),
        Lookup::Rejected(RequestError::VideoIdFormat)
    ));
    assert!(matches!(
        skip_segments_by_id(Some("abcdefghijkl"), None),
        Lookup::Rejected(RequestError::VideoIdFormat)
    ));
    assert!(matches!(
        skip_segments_by_id(Some("abc def"), Some("not json")),
        Lookup::Rejected(RequestError::VideoIdFormat)
    ));
}

#[test]
fn video_id_request_asks_the_store() {
    match skip_segments_by_id(Some("dQw4w9WgXcQ"), Some("[\"chapter\"]")) {
        Lookup::Fetch(query) => {
            assert!(matches!(&query.name, VideoName::ByID(v) if v == "dQw4w9WgXcQ"));
            assert_eq!(query.categories, vec![String::from("chapter")]);
        }
        other => panic!("unexpected {:?}", other),
    }
}

#[test]
fn empty_store_answer_goes_to_the_origin() {
    let name = VideoName::ByHashPrefix(String::from("ab12"));
    match respond(&name, Some("[\"sponsor\"]"), &Vec::new()) {
        Reply::Forward(url) => assert_eq!(
            url,
            "https://sponsor.ajay.app/api/skipSegments/ab12?categories=[\"sponsor\"]"
        ),
        other => panic!("unexpected {:?}", other),
    }
    let name = VideoName::ByID(String::from("dQw4w9WgXcQ"));
    match respond(&name, None, &Vec::new()) {
        Reply::Forward(url) => assert_eq!(
            url,
            "https://sponsor.ajay.app/api/skipSegments?videoID=dQw4w9WgXcQ&categories=[\"sponsor\"]"
        ),
        other => panic!("unexpected {:?}", other),
    }
}

#[test]
fn hash_request_is_answered_with_all_videos() {
    let records = vec![
        stored("ab12aa", "videoA", "a1", 10_000, 20_000, 5),
        stored("ab12bb", "videoB", "b1", 40_000, 50_000, 1),
        stored("ab12aa", "videoA", "a2", 12_000, 18_000, 2),
        stored("ab12bb", "videoB", "b2", 5_000, 9_000, 1),
    ];
    let name = VideoName::ByHashPrefix(String::from("ab12"));
    match respond(&name, None, &records) {
        Reply::Sponsors(sponsors) => {
            assert_eq!(sponsors.len(), 2);
            assert_eq!(sponsors[0].hash, "ab12aa");
            assert_eq!(sponsors[0].video_id, "videoA");
            assert_eq!(sponsors[0].segments.len(), 1);
            assert_eq!(sponsors[0].segments[0].uuid, "a1");
            assert_eq!(sponsors[1].hash, "ab12bb");
            assert_eq!(sponsors[1].segments.len(), 2);
            assert_eq!(sponsors[1].segments[0].uuid, "b2");
            assert_eq!(sponsors[1].segments[1].uuid, "b1");
        }
        other => panic!("unexpected {:?}", other),
    }
}

#[test]
fn video_id_request_is_answered_with_bare_segments() {
    let records = vec![
        stored("ab12aa", "videoA", "late", 40_000, 50_000, 5),
        stored("ab12aa", "videoA", "early", 10_000, 20_000, 1),
    ];
    let name = VideoName::ByID(String::from("videoA"));
    match respond(&name, None, &records) {
        Reply::Segments(segments) => {
            assert_eq!(segments.len(), 2);
            assert_eq!(segments[0].uuid, "early");
            assert_eq!(segments[0].segment, (10_000, 20_000));
            assert_eq!(segments[1].uuid, "late");
        }
        other => panic!("unexpected {:?}", other),
    }
}

#[test]
fn healthy_database_gives_a_healthy_report() {
    let check = check_database(None, 12);
    assert_eq!(check.status, "healthy");
    assert_eq!(check.message, Some(String::from("Database connection successful")));
    assert_eq!(check.response_time_ms, Some(12));
    let (report, code) = health_report(check, String::from("now"));
    assert_eq!(code, 200);
    assert_eq!(report.status, "healthy");
    assert_eq!(report.timestamp, "now");
    assert_eq!(report.checks.database.status, "healthy");
    assert_eq!(report.checks.database.response_time_ms, Some(12));
}

#[test]
fn failed_database_gives_an_unhealthy_report() {
    let check = check_database(Some("connection refused"), 3_000);
    assert_eq!(check.status, "unhealthy");
    assert_eq!(
        check.message,
        Some(String::from("Database connection failed: connection refused"))
    );
    assert_eq!(check.response_time_ms, Some(3_000));
    let (report, code) = health_report(check, String::from("then"));
    assert_eq!(code, 503);
    assert_eq!(report.status, "unhealthy");
    assert_eq!(report.timestamp, "then");
    assert_eq!(
        report.checks.database.message,
        Some(String::from("Database connection failed: connection refused"))
    );
}

#[test]
fn health_check_stamps_the_report() {
    let (report, code) = health_check(None, 4, 0, 0).unwrap();
    assert_eq!(code, 200);
    assert_eq!(report.status, "healthy");
    assert_eq!(report.timestamp, "1970-01-01T00:00:00+00:00");
    let (report, code) = health_check(Some("down"), 4, 1_700_000_000, 123_000_000).unwrap();
    assert_eq!(code, 503);
    assert_eq!(report.status, "unhealthy");
    assert_eq!(report.timestamp, "2023-11-14T22:13:20.123+00:00");
    assert_eq!(report.checks.database.message, Some(String::from("Database connection failed: down")));
}

#[test]
fn health_check_writes_far_years_and_leap_seconds() {
    let (report, _) = health_check(None, 4, 253_402_300_800, 0).unwrap();
    assert_eq!(report.timestamp, "+10000-01-01T00:00:00+00:00");
    let (report, _) = health_check(None, 4, -62_198_755_200, 1).unwrap();
    assert_eq!(report.timestamp, "-0001-01-01T00:00:00.000000001+00:00");
    let (report, _) = health_check(None, 4, 59, 1_500_000_000).unwrap();
    assert_eq!(report.timestamp, "1970-01-01T00:00:60.500+00:00");
    assert!(health_check(None, 4, 58, 1_500_000_000).is_none());
    assert!(health_check(None, 4, 0, 2_000_000_000).is_none());
}

#[test]
fn health_check_has_no_report_for_an_unwritable_time() {
    assert!(health_check(None, 4, i64::MAX, 0).is_none());
    assert!(health_check(Some("down"), 4, i64::MIN, 0).is_none());
}

#[test]
fn stubs_know_nobody() {
    let vip = fake_is_user_vip();
    assert_eq!(vip.hashed_user_id, "");
    assert!(!vip.vip);
    let info = fake_user_info();
    assert_eq!(info.user_id, "");
    assert_eq!(info.user_name, "");
    assert_eq!(info.minutes_saved, 0);
    assert_eq!(info.segment_count, 0);
    assert_eq!(info.view_count, 0);
    assert_eq!(metrics(), "# Metrics handled by actix-web-prom middleware");
}

#[test]
fn store_query_names_statement_and_key() {
    match skip_segments("ab12", None) {
        Lookup::Fetch(query) => {
            assert_eq!(
                query.sql(),
                r#"SELECT * FROM "sponsorTimes" WHERE "shadowHidden" = 0 AND "hidden" = 0 AND "votes" >= 0 AND "category" = ANY($1) AND "hashedVideoID" LIKE $2"#
            );
            assert_eq!(query.key(), "ab12%");
        }
        other => panic!("unexpected {:?}", other),
    }
    match skip_segments_by_id(Some("dQw4w9WgXcQ"), None) {
        Lookup::Fetch(query) => {
            assert_eq!(
                query.sql(),
                r#"SELECT * FROM "sponsorTimes" WHERE "shadowHidden" = 0 AND "hidden" = 0 AND "votes" >= 0 AND "category" = ANY($1) AND "videoID" = $2"#
            );
            assert_eq!(query.key(), "dQw4w9WgXcQ");
        }
        other => panic!("unexpected {:?}", other),
    }
}
