use shirotweet::url::{collect_url_list, extract_line_url, extract_twitter_url, username_from_analytics_url};

#[test]
fn extracts_author_and_id() {
    let r = extract_twitter_url("https://twitter.com/kagurayukina1/status/1496364341897179136");
    assert_eq!(r, Some(("kagurayukina1", 1496364341897179136u64)));
}

#[test]
fn extracts_from_url_with_query() {
    let r = extract_twitter_url("https://twitter.com/abc_1/status/42?s=20&t=x");
    assert_eq!(r, Some(("abc_1", 42u64)));
}

#[test]
fn canonical_form_round_trips() {
    for (author, id) in [("a", 0u64), ("longlong_114", 1496448495527796736u64), ("x", u64::MAX)] {
        let url = format!("https://twitter.com/{}/status/{}", author, id);
        assert_eq!(extract_twitter_url(&url), Some((author, id)));
    }
}

#[test]
fn rejects_non_post_urls() {
    assert_eq!(extract_twitter_url("https://twitter.com/home"), None);
    assert_eq!(extract_twitter_url("https://example.com/a/status/1"), None);
    assert_eq!(extract_twitter_url("https://twitter.com/a/status/"), None);
    assert_eq!(extract_twitter_url("https://twitter.com/a/status/18446744073709551616"), None);
}

#[test]
fn line_url_drops_surrounding_text() {
    let r = extract_line_url("see https://twitter.com/u/status/123?s=1 later");
    assert_eq!(r, Some("https://twitter.com/u/status/123".to_string()));
    assert_eq!(extract_line_url("https://twitter.com/u/status/123abc"), None);
    assert_eq!(extract_line_url("no url here"), None);
}

#[test]
fn url_list_is_sorted_and_deduplicated() {
    let lines: Vec<String> = vec![
        "https://twitter.com/b/status/2".to_string(),
        "junk".to_string(),
        "x https://twitter.com/a/status/1 y".to_string(),
        "https://twitter.com/b/status/2?s=20".to_string(),
        "https://twitter.com/a/status/10".to_string(),
    ];
    let r = collect_url_list(&lines);
    assert_eq!(
        r,
        vec![
            "https://twitter.com/a/status/1".to_string(),
            "https://twitter.com/a/status/10".to_string(),
            "https://twitter.com/b/status/2".to_string(),
        ]
    );
    assert_eq!(collect_url_list(&r), r);
}

#[test]
fn url_list_of_nothing_is_empty() {
    assert!(collect_url_list(&Vec::new()).is_empty());
}

#[test]
fn analytics_username() {
    assert_eq!(
        username_from_analytics_url("https://analytics.twitter.com/user/someone/home"),
        Some("someone".to_string())
    );
    assert_eq!(username_from_analytics_url("https://analytics.twitter.com/about"), None);
}

#[test]
fn only_the_first_status_marker_counts() {
    assert_eq!(extract_line_url("https://twitter.com/a/status/1x https://twitter.com/b/status/2"), None);
    assert_eq!(
        extract_line_url("https://twitter.com/a/status/12é"),
        Some("https://twitter.com/a/status/12".to_string())
    );
}
