use shirotweet::error::{Error, TweetFailReason};
use shirotweet::summary::Tally;
use shirotweet::pipeline::PostOutcome;
use shirotweet::records::Tweet;

#[test]
fn fail_reasons_of_errors() {
    assert_eq!(Error::TweetRestricted.try_make_fail_reason(), Some(TweetFailReason::Restricted));
    assert_eq!(Error::TweetNotExists.try_make_fail_reason(), Some(TweetFailReason::Deleted));
    assert_eq!(Error::TweetIllegalBan.try_make_fail_reason(), Some(TweetFailReason::Deleted));
    assert_eq!(Error::TwitterAccountSuspended.try_make_fail_reason(), Some(TweetFailReason::AccountSuspended));
    assert_eq!(Error::TwitterAccountNotExisted.try_make_fail_reason(), Some(TweetFailReason::AccountNotExisted));
    assert_eq!(Error::TweetJsonSchemaInvalid.try_make_fail_reason(), None);
    assert_eq!(Error::TweetAdultContent.try_make_fail_reason(), None);
    assert_eq!(Error::Todo("x".to_string()).try_make_fail_reason(), None);
}

#[test]
fn fail_reason_names_round_trip() {
    for r in [
        TweetFailReason::Restricted,
        TweetFailReason::Deleted,
        TweetFailReason::AccountSuspended,
        TweetFailReason::AccountNotExisted,
    ] {
        assert_eq!(TweetFailReason::try_from(r.to_string()), Ok(r));
    }
    assert_eq!(TweetFailReason::AccountSuspended.to_string(), "account suspended");
    assert_eq!(TweetFailReason::try_from("banned".to_string()), Err(()));
}

#[test]
fn fail_reason_into_error() {
    let e: Error = TweetFailReason::Deleted.into();
    assert!(matches!(e, Error::TweetNotExists));
}

#[test]
fn error_messages() {
    assert_eq!(Error::CustomError { msg: "boom".to_string() }.message(), "ShiroTweet Error: boom.");
    assert_eq!(Error::TweetParseFailed(None).message(), "Tweet json data parse failed.");
    assert_eq!(Error::JsonFailed(Some("eof".to_string())).message(), "Json failed: eof.");
    assert_eq!(Error::RateLimitExceeded.message(), "Rate limit exceeded.");
}

#[test]
fn tally_counts_outcomes() {
    let mut t = Tally::new();
    t.record(&PostOutcome::Terminal(TweetFailReason::Deleted));
    t.record(&PostOutcome::Terminal(TweetFailReason::AccountSuspended));
    t.record(&PostOutcome::Retry);
    assert_eq!(t.deleted, 1);
    assert_eq!(t.account_suspended, 1);
    assert_eq!(t.total(), 2);
    let ok: Result<Tweet, Error> = Ok(Tweet { id: 1, author: "a".into(), content: "c".into(), create_time: 0 });
    assert!(t.record_lookup(&ok, 3));
    assert!(t.record_lookup(&Err(Error::TweetRestricted), 0));
    assert!(!t.record_lookup(&Err(Error::DBError), 0));
    assert_eq!((t.success, t.medias, t.restricted, t.total()), (1, 3, 1, 4));
}
