use shirotweet::error::{Error, TweetFailReason};
use shirotweet::records::{Media, ThreadInfo, Tweet};
use shirotweet::store::{TweetDB, TweetDownloadDB};

fn post(id: u64, content: &str) -> Tweet {
    Tweet { id, author: "shiro".to_string(), content: content.to_string(), create_time: 5 }
}

fn media(id: &str, tweet_id: u64, url: &str) -> Media {
    Media {
        id: id.to_string(),
        tweet_id,
        url: url.to_string(),
        width: 1,
        height: 2,
        no: 1,
        _type: "photo".to_string(),
    }
}

#[test]
fn raw_cache_insert_exists_remove() {
    let mut c = TweetDownloadDB::new();
    assert!(!c.is_exist(1));
    assert!(c.insert(1, "https://twitter.com/a/status/1", "{}").is_ok());
    assert!(c.is_exist(1));
    assert_eq!(c.get_json(1).ok(), Some("{}".to_string()));
    assert!(matches!(c.insert(1, "https://twitter.com/a/status/1?x", "{}"), Err(Error::DuplicateKey)));
    assert!(matches!(c.insert(2, "https://twitter.com/a/status/1", "{}"), Err(Error::DuplicateKey)));
    assert!(!c.is_exist(2));
    assert!(c.remove(1).is_ok());
    assert!(!c.is_exist(1));
    assert!(matches!(c.get_json(1), Err(Error::NotFound)));
    assert!(c.remove(1).is_ok());
}

#[test]
fn inserting_a_post_twice_keeps_one_row() {
    let mut db = TweetDB::new();
    assert!(db.insert_tweet(&post(7, "first")));
    assert!(!db.insert_tweet(&post(7, "second")));
    assert!(db.is_exist(7));
    let t = db.get_tweet(7).ok().expect("stored");
    assert_eq!(t.content, "first");
}

#[test]
fn media_unique_on_id_and_url() {
    let mut db = TweetDB::new();
    assert!(db.insert_media(&media("m1", 7, "u1")));
    assert!(!db.insert_media(&media("m1", 7, "u2")));
    assert!(!db.insert_media(&media("m2", 7, "u1")));
    assert!(db.insert_media(&media("m3", 8, "u3")));
    assert!(db.insert_media(&media("m4", 7, "u4")));
    let ms: Vec<String> = db.get_medias(7).into_iter().map(|m| m.id).collect();
    assert_eq!(ms, vec!["m1".to_string(), "m4".to_string()]);
    assert!(db.get_medias(9).is_empty());
}

#[test]
fn thread_edges_are_unique_per_post() {
    let mut db = TweetDB::new();
    let e = ThreadInfo { tweet_id: 2, thread_id: 1, reply_to: 1 };
    assert!(db.insert_thread(&e));
    assert!(!db.insert_thread(&e));
}

#[test]
fn failures_are_recorded_once_and_read_back() {
    let mut db = TweetDB::new();
    let url = "https://twitter.com/x/status/55";
    assert!(matches!(db.insert_fail(url, TweetFailReason::AccountSuspended), Ok(true)));
    assert!(matches!(db.insert_fail(url, TweetFailReason::Deleted), Ok(false)));
    assert!(db.is_exist(55));
    assert!(matches!(db.get_tweet(55), Err(Error::TwitterAccountSuspended)));
    assert!(!db.insert_tweet(&post(55, "late")));
    assert!(matches!(db.insert_fail("not a url", TweetFailReason::Deleted), Err(Error::NotATweet)));
    match db.get_tweet(56) {
        Err(Error::CustomError { msg }) => assert_eq!(msg, "Not exists in TwDB."),
        _ => panic!("expected a missing post"),
    }
}
