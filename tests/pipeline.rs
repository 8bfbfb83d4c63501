use shirotweet::error::{Error, TweetFailReason};
use shirotweet::parser::parse_payload;
use shirotweet::pipeline::{
    anonymous_retry_restricted, classify_fetch_body, classify_fetch_json, evict_cached, filter_unprocessed, process_payload, rate_limit_backoff,
    run_auth_round, store_plan, CrawlState, FetchReply, FetchRound, FetchStep, Persist, PostOutcome,
};
use shirotweet::records::Tweet;
use shirotweet::store::{TweetDB, TweetDownloadDB};

fn tweet(id: u64, thread: u64, reply: Option<u64>, media_id: &str) -> String {
    let reply = match reply {
        Some(r) => format!(r#""in_reply_to_status_id_str": "{}","#, r),
        None => String::new(),
    };
    format!(
        r#"{{"rest_id": "{id}", "__typename": "Tweet",
            "core": {{"user_results": {{"result": {{"__typename": "User",
                "legacy": {{"name": "S", "screen_name": "s"}}}}}}}},
            "legacy": {{"created_at": "x", "id_str": "{id}", "user_id_str": "1",
                "conversation_id_str": "{thread}", "full_text": "t", "lang": "en",
                "display_text_range": [], "favorite_count": 0, "favorited": false, "quote_count": 0,
                "is_quote_status": false, "reply_count": 0, "retweet_count": 0, "retweeted": false,
                "self_thread": {{"id_str": "{thread}"}}, {reply}
                "entities": {{"media": [{{"display_url": "d", "expanded_url": "e", "id_str": "{media_id}",
                    "indices": [], "media_url_https": "https://pbs.twimg.com/media/{media_id}.jpg",
                    "type": "photo", "url": "u", "original_info": {{"height": 1, "width": 1}}}}]}}}}}}"#
    )
}

fn payload(tweets: &[(u64, String)]) -> String {
    let entries: Vec<String> = tweets
        .iter()
        .map(|(id, t)| {
            format!(
                r#"{{"entryId": "tweet-{}", "content": {{"entryType": "TimelineTimelineItem",
                    "itemContent": {{"tweet_results": {{"result": {}}}}}}}}}"#,
                id, t
            )
        })
        .collect();
    format!(
        r#"{{"data": {{"threaded_conversation_with_injections_v2": {{"instructions": [
            {{"type": "TimelineAddEntries", "entries": [{}]}}]}}}}}}"#,
        entries.join(",")
    )
}

#[test]
fn fetch_bodies_are_classified() {
    assert!(matches!(classify_fetch_body("Rate limit exceeded"), Err(Error::RateLimitExceeded)));
    match classify_fetch_body("<html>") {
        Err(Error::CustomError { msg }) => assert_eq!(msg, "Invalied TweetDetail return"),
        _ => panic!("expected an invalid body"),
    }
    assert!(matches!(classify_fetch_body("{oops"), Err(Error::TweetJsonSchemaInvalid)));
    assert!(matches!(classify_fetch_body(r#"{"errors": [{"message": "OverCapacity"}]}"#), Err(Error::RateLimitExceeded)));
    assert!(classify_fetch_body(r#"{"errors": [{"message": "warning"}], "data": {}}"#).is_ok());
    assert!(classify_fetch_body(r#"{"data": {}}"#).is_ok());
    let root = parse_payload(r#"{"errors": 3}"#).unwrap();
    assert!(matches!(classify_fetch_json(&root), Err(Error::TweetJsonSchemaInvalid)));
}

#[test]
fn backoff_schedule() {
    assert_eq!(rate_limit_backoff(1), 60);
    assert_eq!(rate_limit_backoff(2), 720);
    assert_eq!(rate_limit_backoff(3), 840);
    assert_eq!(rate_limit_backoff(u64::MAX), u64::MAX);
}

#[test]
fn authenticated_rounds_are_bounded() {
    assert!(run_auth_round(3, 0));
    assert!(run_auth_round(3, 4));
    assert!(!run_auth_round(3, 5));
    assert!(!run_auth_round(0, 0));
}

#[test]
fn fetch_round_skips_cached_and_retries_rate_limits() {
    let mut cache = TweetDownloadDB::new();
    cache.insert(1, "https://twitter.com/a/status/1", "{}").unwrap();
    let urls = vec![
        "https://twitter.com/a/status/1".to_string(),
        "https://twitter.com/a/status/2".to_string(),
        "https://twitter.com/a/status/3".to_string(),
    ];
    let mut round = FetchRound::new(urls);
    let mut fetched = Vec::new();
    let mut sleeps = Vec::new();
    loop {
        match round.next(&cache) {
            FetchStep::Done => break,
            FetchStep::Fetch { url, id, pause_secs } => {
                assert_eq!(pause_secs, 0);
                fetched.push(url.clone());
                let mut attempt = 0;
                loop {
                    attempt += 1;
                    let result = if id == 2 && attempt <= 2 {
                        Err(Error::RateLimitExceeded)
                    } else if id == 3 {
                        Err(Error::TweetJsonSchemaInvalid)
                    } else {
                        Ok("{\"data\": 1}".to_string())
                    };
                    match round.on_result(&mut cache, id, result) {
                        FetchReply::Retry { sleep_secs } => sleeps.push(sleep_secs),
                        _ => break,
                    }
                }
            }
        }
    }
    assert_eq!(fetched, vec!["https://twitter.com/a/status/2".to_string(), "https://twitter.com/a/status/3".to_string()]);
    assert_eq!(sleeps, vec![60, 720]);
    assert_eq!(round.succeed, vec!["https://twitter.com/a/status/1".to_string(), "https://twitter.com/a/status/2".to_string()]);
    assert_eq!(round.failed, vec!["https://twitter.com/a/status/3".to_string()]);
    assert!(cache.is_exist(2));
    assert!(!cache.is_exist(3));
}

#[test]
fn hundredth_url_pauses() {
    let urls: Vec<String> = (1..=100).map(|i| format!("https://twitter.com/a/status/{}", i)).collect();
    let mut cache = TweetDownloadDB::new();
    for i in 1..=98u64 {
        cache.insert(i, &format!("https://twitter.com/a/status/{}", i), "{}").unwrap();
    }
    let mut round = FetchRound::new(urls);
    match round.next(&cache) {
        FetchStep::Fetch { id, pause_secs, .. } => assert_eq!((id, pause_secs), (99, 0)),
        FetchStep::Done => panic!("expected a fetch"),
    }
    assert_eq!(round.on_result(&mut cache, 99, Ok("{}".to_string())), FetchReply::Stored);
    match round.next(&cache) {
        FetchStep::Fetch { id, pause_secs, .. } => assert_eq!((id, pause_secs), (100, 10)),
        FetchStep::Done => panic!("expected a fetch"),
    }
}

#[test]
fn end_to_end_thread_of_two() {
    let mut db = TweetDB::new();
    db.insert_tweet(&Tweet { id: 11, author: "s".into(), content: "old".into(), create_time: 0 });
    let urls = vec![
        "https://twitter.com/s/status/11".to_string(),
        "https://twitter.com/s/status/21".to_string(),
        "https://twitter.com/s/status/31".to_string(),
    ];
    let open = filter_unprocessed(&urls, &db);
    assert_eq!(open, vec!["https://twitter.com/s/status/21".to_string(), "https://twitter.com/s/status/31".to_string()]);

    let x = payload(&[(20, tweet(20, 20, None, "m20")), (21, tweet(21, 20, Some(20), "m21"))]);
    let y = payload(&[(31, tweet(31, 31, None, "m31"))]);
    let mut cache = TweetDownloadDB::new();
    let mut round = FetchRound::new(open);
    let mut fetched = 0;
    while let FetchStep::Fetch { id, .. } = round.next(&cache) {
        fetched += 1;
        let body = if id == 21 { x.clone() } else { y.clone() };
        assert!(classify_fetch_body(&body).is_ok());
        assert_eq!(round.on_result(&mut cache, id, Ok(body)), FetchReply::Stored);
    }
    assert_eq!(fetched, 2);
    match process_payload(21, &cache.get_json(21).unwrap(), true) {
        PostOutcome::Stored(plan) => {
            assert_eq!(plan.ids.len(), 2);
            store_plan(&mut db, &plan);
        }
        _ => panic!("expected a stored plan"),
    }
    assert!(db.get_tweet(20).is_ok());
    assert!(db.get_tweet(21).is_ok());
    assert_eq!(db.get_medias(20).len(), 1);
    assert_eq!(db.get_medias(21).len(), 1);
    let mut edges = 0;
    let mut db2 = TweetDB::new();
    if let PostOutcome::Stored(plan) = process_payload(21, &cache.get_json(21).unwrap(), true) {
        edges = plan.threads.iter().flatten().count();
        store_plan(&mut db2, &plan);
        store_plan(&mut db2, &plan);
    }
    assert_eq!(edges, 1);
    assert_eq!(db2.get_medias(21).len(), 1);
}

#[test]
fn eviction_before_authenticated_round() {
    let mut cache = TweetDownloadDB::new();
    cache.insert(1, "https://twitter.com/a/status/1", "{}").unwrap();
    cache.insert(2, "https://twitter.com/a/status/2", "{}").unwrap();
    let urls = vec!["https://twitter.com/a/status/1".to_string(), "junk".to_string(), "https://twitter.com/a/status/3".to_string()];
    assert_eq!(evict_cached(&mut cache, &urls), vec![1, 3]);
    assert!(!cache.is_exist(1));
    assert!(cache.is_exist(2));
}

#[test]
fn crawl_state_applies_outcomes() {
    let mut db = TweetDB::new();
    let mut state = CrawlState::new();
    let url = "https://twitter.com/s/status/77".to_string();
    match state.apply(&mut db, url.clone(), PostOutcome::Terminal(TweetFailReason::Deleted)) {
        Persist::Failure { id, reason } => assert_eq!((id, reason), (77, TweetFailReason::Deleted)),
        _ => panic!("expected a new failure row"),
    }
    assert!(matches!(state.apply(&mut db, url.clone(), PostOutcome::Terminal(TweetFailReason::Deleted)), Persist::Nothing));
    assert!(matches!(state.apply(&mut db, "https://twitter.com/s/status/78".to_string(), PostOutcome::Retry), Persist::Nothing));
    assert_eq!(state.remaining, vec!["https://twitter.com/s/status/78".to_string()]);
    assert_eq!(state.tally.deleted, 2);
    let body = payload(&[(79, tweet(79, 79, None, "m79"))]);
    let outcome = process_payload(79, &body, true);
    assert!(matches!(state.apply(&mut db, "https://twitter.com/s/status/79".to_string(), outcome), Persist::Rows(_)));
    assert!(db.get_tweet(79).is_ok());
    assert_eq!(state.tally.success, 1);
    assert!(state.no_media.is_empty());
}

#[test]
fn restricted_posts_wait_only_for_an_authenticated_tier() {
    assert!(anonymous_retry_restricted(true));
    assert!(!anonymous_retry_restricted(false));
    let parsed = Err(Error::TweetRestricted);
    let outcome = shirotweet::pipeline::plan_post(5, &parsed, anonymous_retry_restricted(false));
    assert!(matches!(outcome, PostOutcome::Terminal(TweetFailReason::Restricted)));
}
