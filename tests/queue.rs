use shirotweet::download::{extract_fn, is_need_orig, make_task, manifest_line, DownloadFailure, DownloadQueue, DownloadTask};

#[test]
fn file_names_of_media_urls() {
    assert_eq!(extract_fn("https://pbs.twimg.com/media/FR0utoaakaAUgnee.jpg?name=orig"), "FR0utoaakaAUgnee.jpg");
    assert_eq!(extract_fn("https://video.twimg.com/ext_tw_video/1/pu/vid/720x1280/abc.mp4?tag=12"), "abc.mp4");
    assert_eq!(extract_fn("no-slash"), "");
}

#[test]
fn original_quality_heuristic() {
    assert!(is_need_orig("https://pbs.twimg.com/media/abc.jpg"));
    assert!(is_need_orig("https://pbs.twimg.com/media/abc.jpg?"));
    assert!(!is_need_orig("https://pbs.twimg.com/media/abc.jpg?format=jpg"));
    assert!(!is_need_orig("https://video.twimg.com/x/abc.mp4"));
    assert!(!is_need_orig("nothing"));
}

#[test]
fn tasks_for_media() {
    let t = make_task("shiro", "https://pbs.twimg.com/media/abc.jpg");
    assert_eq!(t.url, "https://pbs.twimg.com/media/abc.jpg?name=orig");
    assert_eq!(t.path, "shiro");
    assert_eq!(t.filename, Some("abc.jpg".to_string()));
    let v = make_task("shiro", "https://video.twimg.com/x/abc.mp4?tag=1");
    assert_eq!(v.url, "https://video.twimg.com/x/abc.mp4?tag=1");
    assert_eq!(v.filename, Some("abc.mp4".to_string()));
}

fn task(name: &str) -> DownloadTask {
    DownloadTask { url: format!("https://h/{}", name), path: "p".to_string(), filename: Some(name.to_string()) }
}

#[test]
fn rounds_retry_and_set_aside() {
    let mut q = DownloadQueue::new(vec![task("a"), task("b"), task("c")]);
    let mut rounds = 0;
    let mut done: Vec<String> = Vec::new();
    while !q.is_finished() {
        rounds += 1;
        assert!(rounds <= 3, "the queue must drain");
        let batch = q.take_round();
        let mut failures = Vec::new();
        for t in batch {
            let name = t.filename.clone().unwrap();
            if name == "b" {
                failures.push(DownloadFailure { task: t, missing: true });
            } else if name == "c" && rounds == 1 {
                failures.push(DownloadFailure { task: t, missing: false });
            } else {
                done.push(name);
            }
        }
        q.end_round(failures);
    }
    done.sort();
    assert_eq!(done, vec!["a".to_string(), "c".to_string()]);
    assert_eq!(rounds, 2);
    assert_eq!(q.unrecoverable.len(), 1);
    assert_eq!(manifest_line(&q.unrecoverable[0]), "https://h/b ==> p/b\n");
}
