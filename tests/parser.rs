use shirotweet::error::{Error, TweetFailReason};
use shirotweet::json::Json;
use shirotweet::parser::{extract_all_tweets, parse_payload, tombstone_error};
use shirotweet::post::{default_bitrate, tweet_type_default};
use shirotweet::pipeline::{plan_post, process_payload, PostOutcome};
use shirotweet::views::get_thread;

fn tweet(id: u64, thread: Option<u64>, reply: Option<u64>, media: &str) -> String {
    let thread = match thread {
        Some(t) => format!(r#""self_thread": {{"id_str": "{}"}},"#, t),
        None => String::new(),
    };
    let reply = match reply {
        Some(r) => format!(r#""in_reply_to_status_id_str": "{}","#, r),
        None => String::new(),
    };
    format!(
        r#"{{"__typename": "Tweet", "rest_id": "{id}",
            "core": {{"user_results": {{"result": {{"__typename": "User",
                "legacy": {{"name": "Shiro", "screen_name": "shiro"}}}}}}}},
            "legacy": {{"created_at": "Wed Oct 10 20:19:24 +0000 2018", "id_str": "{id}",
                "user_id_str": "7", "conversation_id_str": "{id}", "full_text": "text {id}",
                "lang": "en", "display_text_range": [0, 9], "favorite_count": 1,
                "favorited": false, "quote_count": 0, "is_quote_status": false,
                "reply_count": 0, "retweet_count": 0, "retweeted": false, {thread} {reply}
                "entities": {{{media}}}}}}}"#
    )
}

fn item_entry(id: u64, result: &str) -> String {
    format!(
        r#"{{"entryId": "tweet-{}", "content": {{"entryType": "TimelineTimelineItem",
            "itemContent": {{"tweet_results": {{"result": {}}}}}}}}}"#,
        id, result
    )
}

fn payload(entries: &[String]) -> String {
    format!(
        r#"{{"data": {{"threaded_conversation_with_injections_v2": {{"instructions": [
            {{"type": "TimelineClearCache"}},
            {{"type": "TimelineAddEntries", "entries": [{}]}}]}}}}}}"#,
        entries.join(",")
    )
}

fn photo(id: &str) -> String {
    format!(
        r#""media": [{{"display_url": "d", "expanded_url": "e", "id_str": "{id}", "indices": [1, 2],
            "media_url_https": "https://pbs.twimg.com/media/{id}.jpg", "type": "photo", "url": "u",
            "original_info": {{"height": 10, "width": 20}}}}]"#
    )
}

fn parse(text: &str) -> Json {
    parse_payload(text).expect("valid JSON")
}

const SUSPENDED: &str = "这条推文来自一个已冻结的账号";

#[test]
fn thread_of_three_yields_three_items_and_two_edges() {
    let entries = vec![
        item_entry(100, &tweet(100, Some(100), None, &photo("m100"))),
        item_entry(101, &tweet(101, Some(100), Some(100), "")),
        item_entry(102, &tweet(102, Some(100), Some(101), &photo("m102"))),
    ];
    let root = parse(&payload(&entries));
    let parsed = extract_all_tweets(101, &root);
    let map = parsed.as_ref().ok().expect("parsed");
    assert_eq!(map.len(), 3);
    let mut ids = get_thread(101, map).expect("thread");
    ids.sort();
    assert_eq!(ids, vec![100, 101, 102]);
    match plan_post(101, &parsed, true) {
        PostOutcome::Stored(plan) => {
            assert_eq!(plan.tweets.len(), 3);
            let edges: Vec<_> = plan.threads.iter().flatten().collect();
            assert_eq!(edges.len(), 2);
            assert!(edges.iter().all(|e| e.thread_id == 100 && e.tweet_id != 100));
            let media: usize = plan.medias.iter().map(|m| m.len()).sum();
            assert_eq!(media, 2);
        }
        _ => panic!("expected a stored plan"),
    }
}

#[test]
fn single_post_thread_has_no_edges() {
    let entries = vec![item_entry(5, &tweet(5, Some(5), Some(4), ""))];
    let root = parse(&payload(&entries));
    let parsed = extract_all_tweets(5, &root);
    assert_eq!(parsed.as_ref().ok().map(|m| m.len()), Some(1));
    assert!(get_thread(5, parsed.as_ref().ok().unwrap()).is_none());
    match plan_post(5, &parsed, true) {
        PostOutcome::Stored(plan) => {
            assert_eq!(plan.ids, vec![5]);
            assert!(plan.threads.iter().all(|t| t.is_none()));
        }
        _ => panic!("expected a stored plan"),
    }
}

#[test]
fn suspended_tombstone_is_terminal() {
    let tomb = format!(
        r#"{{"__typename": "TweetTombstone", "tombstone": {{"__typename": "TextTombstone",
            "text": {{"text": "{} 了解更多"}}}}}}"#,
        SUSPENDED
    );
    let text = payload(&[item_entry(9, &tomb)]);
    let root = parse(&text);
    assert!(matches!(extract_all_tweets(9, &root), Err(Error::TwitterAccountSuspended)));
    assert!(matches!(process_payload(9, &text, true), PostOutcome::Terminal(TweetFailReason::AccountSuspended)));
    assert!(matches!(process_payload(9, &text, false), PostOutcome::Terminal(TweetFailReason::AccountSuspended)));
}

#[test]
fn tombstone_for_other_post_is_skipped() {
    let tomb = format!(
        r#"{{"__typename": "TweetTombstone", "tombstone": {{"__typename": "TextTombstone",
            "text": {{"text": "{}"}}}}}}"#,
        SUSPENDED
    );
    let entries = vec![item_entry(8, &tomb), item_entry(9, &tweet(9, None, None, ""))];
    let root = parse(&payload(&entries));
    assert_eq!(extract_all_tweets(9, &root).ok().map(|m| m.len()), Some(1));
}

#[test]
fn tombstone_phrases_classify() {
    assert!(matches!(tombstone_error("该账号所有者限制了可以查看其推文的用户。"), Error::TweetRestricted));
    assert!(matches!(tombstone_error("这条推文来自一个已不存在的账号。"), Error::TwitterAccountNotExisted));
    assert!(matches!(tombstone_error("受年龄限制的成人内容。这些内容可能不适合 18 岁以下的用户。"), Error::TweetAdultContent));
    assert!(matches!(tombstone_error("这条推文违反了当地法律，已被隐藏。"), Error::TweetIllegalBan));
    assert!(matches!(tombstone_error("这条推文不可用。了解更多"), Error::TweetNotExists));
    assert!(matches!(tombstone_error("something else"), Error::TweetUnknownError(ref m) if m == "something else"));
}

#[test]
fn restricted_is_retried_only_before_the_authenticated_tier() {
    let parsed = Err(Error::TweetRestricted);
    assert!(matches!(plan_post(1, &parsed, true), PostOutcome::Retry));
    assert!(matches!(plan_post(1, &parsed, false), PostOutcome::Terminal(TweetFailReason::Restricted)));
    assert!(matches!(plan_post(1, &Err(Error::TweetJsonSchemaInvalid), false), PostOutcome::Retry));
}

#[test]
fn deleted_marker_in_errors() {
    let root = parse(r#"{"errors": [{"message": "x"}, {"message": "_Missing: No status found with that ID."}], "data": {}}"#);
    assert!(matches!(extract_all_tweets(1, &root), Err(Error::TweetNotExists)));
}

#[test]
fn add_entries_must_be_unique() {
    let none = parse(r#"{"data": {"threaded_conversation_with_injections_v2": {"instructions": []}}}"#);
    assert!(matches!(extract_all_tweets(1, &none), Err(Error::TweetJsonSchemaInvalid)));
    let two = parse(
        r#"{"data": {"threaded_conversation_with_injections_v2": {"instructions": [
            {"type": "TimelineAddEntries", "entries": []}, {"type": "TimelineAddEntries", "entries": []}]}}}"#,
    );
    assert!(matches!(extract_all_tweets(1, &two), Err(Error::Todo(_))));
}

#[test]
fn unknown_entry_type_is_unimplemented() {
    let entry = r#"{"entryId": "x", "content": {"entryType": "TimelineCursor"}}"#.to_string();
    let root = parse(&payload(&[entry]));
    match extract_all_tweets(1, &root) {
        Err(Error::Unimplemented(m)) => assert_eq!(m, "Entry Type handler for TimelineCursor"),
        _ => panic!("expected Unimplemented"),
    }
}

#[test]
fn requested_post_must_be_present() {
    let root = parse(&payload(&[item_entry(2, &tweet(2, None, None, ""))]));
    assert!(matches!(extract_all_tweets(3, &root), Err(Error::TweetJsonSchemaInvalid)));
}

#[test]
fn module_entries_and_visibility_wrapping() {
    let wrapped = format!(r#"{{"__typename": "TweetWithVisibilityResults", "tweet": {}}}"#, tweet(21, None, None, ""));
    let module = format!(
        r#"{{"entryId": "conversationthread-1", "content": {{"entryType": "TimelineTimelineModule", "items": [
            {{"item": {{"itemContent": {{"tweet_results": {{"result": {}}}}}}}}},
            {{"item": {{"itemContent": {{"tweet_results": {{"result": {{"__typename": "Cursor"}}}}}}}}}}]}}}}"#,
        wrapped
    );
    let root = parse(&payload(&[item_entry(20, &tweet(20, None, None, "")), module]));
    let mut ids: Vec<u64> = extract_all_tweets(20, &root).ok().unwrap().keys().copied().collect();
    ids.sort();
    assert_eq!(ids, vec![20, 21]);
}

#[test]
fn wrapped_non_tweet_is_an_error() {
    let wrapped = r#"{"__typename": "TweetWithVisibilityResults", "tweet": {"__typename": "Other"}}"#;
    let root = parse(&payload(&[item_entry(20, &tweet(20, None, None, "")), item_entry(21, wrapped)]));
    assert!(matches!(extract_all_tweets(20, &root), Err(Error::TweetJsonSchemaInvalid)));
}

#[test]
fn malformed_json_is_retried() {
    assert!(parse_payload("{not json").is_none());
    assert!(matches!(process_payload(1, "{not json", false), PostOutcome::Retry));
}

#[test]
fn parse_json_reads_values() {
    match parse_payload(r#"{"a": [1, "x", true, null]}"#) {
        Some(Json::Object(fields)) => {
            assert_eq!(fields.len(), 1);
            assert_eq!(fields[0].0, "a");
            match &fields[0].1 {
                Json::Array(items) => {
                    assert!(matches!(&items[0], Json::Number(n) if n == "1"));
                    assert!(matches!(&items[1], Json::Str(s) if s == "x"));
                    assert!(matches!(items[2], Json::Bool(true)));
                    assert!(matches!(items[3], Json::Null));
                }
                _ => panic!("expected an array"),
            }
        }
        _ => panic!("expected an object"),
    }
}

#[test]
fn video_takes_highest_bitrate_variant() {
    let video = r#""media": [{"display_url": "d", "expanded_url": "e", "id_str": "v1", "indices": [0, 1],
        "media_url_https": "https://pbs.twimg.com/thumb.jpg", "type": "video", "url": "u",
        "original_info": {"height": 720, "width": 1280},
        "video_info": {"variants": [
            {"bitrate": 0, "url": "https://video/low.m3u8"},
            {"bitrate": 800, "url": "https://video/800.mp4"},
            {"bitrate": 320, "url": "https://video/320.mp4"}]}}]"#;
    let t = tweet(30, None, None, "").replace(r#""entities": {}"#, &format!(r#""entities": {{}}, "extended_entities": {{{}}}"#, video));
    let root = parse(&payload(&[item_entry(30, &t)]));
    let map = extract_all_tweets(30, &root).ok().expect("parsed");
    let medias = map.get(&30).unwrap().get_medias();
    assert_eq!(medias.len(), 1);
    assert_eq!(medias[0].url, "https://video/800.mp4");
    assert_eq!((medias[0].no, medias[0].width, medias[0].height), (1, 1280, 720));
    assert_eq!(medias[0]._type, "video");
}

#[test]
fn variant_without_bitrate_counts_as_zero() {
    let gif = r#""media": [{"display_url": "d", "expanded_url": "e", "id_str": "g1", "indices": [0, 1],
        "media_url_https": "https://pbs.twimg.com/thumb.jpg", "type": "animated_gif", "url": "u",
        "original_info": {"height": 1, "width": 1},
        "video_info": {"variants": [{"url": "https://video/only.mp4"}]}}]"#;
    let t = tweet(31, None, None, gif);
    let root = parse(&payload(&[item_entry(31, &t)]));
    let map = extract_all_tweets(31, &root).ok().expect("parsed");
    let medias = map.get(&31).unwrap().get_medias();
    assert_eq!(medias[0].url, "https://video/only.mp4");
}

#[test]
fn post_row_of_an_item() {
    let root = parse(&payload(&[item_entry(40, &tweet(40, None, None, &photo("p40")))]));
    let map = extract_all_tweets(40, &root).ok().expect("parsed");
    let item = map.get(&40).unwrap();
    let row = item.as_tweet();
    assert_eq!(row.id, 40);
    assert_eq!(row.author, "shiro");
    assert_eq!(row.content, "text 40");
    assert_eq!(row.create_time, 1539202764);
    assert!(item.as_thread().is_none());
    let ms = item.get_medias();
    assert_eq!(ms[0].url, "https://pbs.twimg.com/media/p40.jpg");
    assert_eq!(ms[0].tweet_id, 40);
}

#[test]
fn unparsable_creation_time_is_zero() {
    let t = tweet(41, None, None, "").replace("Wed Oct 10 20:19:24 +0000 2018", "yesterday");
    let root = parse(&payload(&[item_entry(41, &t)]));
    let map = extract_all_tweets(41, &root).ok().expect("parsed");
    assert_eq!(map.get(&41).unwrap().as_tweet().create_time, 0);
}

#[test]
fn missing_required_member_is_schema_error() {
    let t = tweet(42, None, None, "").replace(r#""lang": "en","#, "");
    let root = parse(&payload(&[item_entry(42, &t)]));
    assert!(matches!(extract_all_tweets(42, &root), Err(Error::TweetJsonSchemaInvalid)));
}

#[test]
fn item_description_and_defaults() {
    assert_eq!(default_bitrate(), 0);
    assert_eq!(tweet_type_default(), "Tweet");
    let plain = parse(&payload(&[item_entry(50, &tweet(50, None, None, ""))]));
    let map = extract_all_tweets(50, &plain).ok().expect("parsed");
    assert_eq!(map.get(&50).unwrap().describe(), "TweetItem<50>");
    let with_media = parse(&payload(&[item_entry(51, &tweet(51, None, None, &photo("q")))]));
    let map = extract_all_tweets(51, &with_media).ok().expect("parsed");
    let item = map.get(&51).unwrap();
    assert_eq!(item.describe(), "TweetItem<51>[https://pbs.twimg.com/media/q.jpg]");
    assert_eq!(item.typename, "Tweet");
}

#[test]
fn tombstones_of_other_posts_are_skipped() {
    let other = r#"{"__typename": "TweetTombstone", "tombstone": {"__typename": "OtherTombstone"}}"#;
    let bare = r#"{"__typename": "TweetTombstone", "tombstone": "gone"}"#;
    let entries = vec![item_entry(8, other), item_entry(7, bare), item_entry(9, &tweet(9, None, None, ""))];
    let root = parse(&payload(&entries));
    assert_eq!(extract_all_tweets(9, &root).ok().map(|m| m.len()), Some(1));
}

#[test]
fn wrapped_tombstone_of_other_post_is_an_error() {
    let wrapped = format!(
        r#"{{"__typename": "TweetWithVisibilityResults", "tweet": {{"__typename": "TweetTombstone",
            "tombstone": {{"__typename": "TextTombstone", "text": {{"text": "{}"}}}}}}}}"#,
        SUSPENDED
    );
    let root = parse(&payload(&[item_entry(8, &wrapped), item_entry(9, &tweet(9, None, None, ""))]));
    assert!(matches!(extract_all_tweets(9, &root), Err(Error::TweetJsonSchemaInvalid)));
}

#[test]
fn unknown_tombstone_of_requested_post() {
    let other = r#"{"__typename": "TweetTombstone", "tombstone": {"__typename": "OtherTombstone"}}"#;
    let root = parse(&payload(&[item_entry(9, other)]));
    match extract_all_tweets(9, &root) {
        Err(Error::TweetUnknownError(m)) => assert_eq!(m, "Tombstone type unknown."),
        _ => panic!("expected an unknown tombstone"),
    }
}
