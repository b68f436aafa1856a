use websearch_tui::prefetch::{
    http_error_message, sanitize_filename, url_to_filename, CacheProbe, FetchOutcome, FileInfo,
    PrefetchManager, PrefetchStatus, PromoteError, CONCURRENT_LIMIT,
};
use websearch_tui::search::SearchResult;

fn result(title: &str, url: &str) -> SearchResult {
    SearchResult {
        title: title.to_string(),
        url: url.to_string(),
        description: "d".to_string(),
    }
}

fn miss() -> CacheProbe {
    CacheProbe { in_promoted: false, in_staging: false }
}

#[test]
fn test_sanitize_filename() {
    assert_eq!(sanitize_filename("Hello World! Test"), "Hello_World_Test");
    assert_eq!(sanitize_filename("Multiple   Spaces"), "Multiple_Spaces");
}

#[test]
fn test_url_to_filename() {
    let filename = url_to_filename(
        "https://github.com/rust-lang/rust",
        "The Rust Programming Language",
    );
    assert!(filename.starts_with("github_com_"));
    assert!(filename.contains("The_Rust_Programming"));
    assert!(filename.ends_with(".md"));
}

#[test]
fn test_url_to_filename_exact() {
    // The hash part is eight hex digits of a 32-bit FNV-style hash of the
    // URL's characters; recompute it here.
    let url = "https://www.example.com/a";
    let mut h: u32 = 0x811c9dc5;
    for c in url.chars() {
        h = (h ^ (c as u32)).wrapping_mul(16777619);
    }
    let expected = format!("example_com_{:08x}_Title.md", h);
    assert_eq!(url_to_filename(url, "Title"), expected);
}

#[test]
fn test_url_to_filename_no_host() {
    let filename = url_to_filename("not a url", "Some Title");
    assert!(filename.starts_with("unknown_"));
    assert!(filename.ends_with("_Some_Title.md"));
}

#[test]
fn test_http_error_message() {
    assert_eq!(http_error_message(500), "HTTP 500");
    assert_eq!(http_error_message(404), "HTTP 404");
}

#[test]
fn test_status_pending_before_submit_only_if_never_submitted() {
    let mut pm = PrefetchManager::new("websearch");
    assert_eq!(pm.get_status("https://a.example"), PrefetchStatus::Pending);
    let results = vec![result("A", "https://a.example")];
    let probes = vec![miss()];
    let queue = pm.prefetch_all(&results, &probes);
    assert_eq!(queue.len(), 1);
    assert_eq!(pm.get_status("https://a.example"), PrefetchStatus::Pending);
    let token = pm.begin_fetch("https://a.example").unwrap();
    assert_eq!(pm.get_status("https://a.example"), PrefetchStatus::InProgress);
    assert!(pm.finish_fetch("https://a.example", token, FetchOutcome::TimedOut));
    assert_eq!(pm.get_status("https://a.example"), PrefetchStatus::Timeout);
    // A URL never submitted still answers, with Pending.
    assert_eq!(pm.get_status("https://never.example"), PrefetchStatus::Pending);
}

#[test]
fn test_cache_hit_is_cached_and_not_fetched() {
    let mut pm = PrefetchManager::new("websearch");
    let results = vec![result("A", "https://a.example"), result("B", "https://b.example")];
    let probes = vec![CacheProbe { in_promoted: false, in_staging: true }, miss()];
    let queue = pm.prefetch_all(&results, &probes);
    // The cached URL is never queued for fetching: the fetch count for it
    // stays zero.
    assert_eq!(queue.len(), 1);
    assert_eq!(queue[0].url, "https://b.example");
    match pm.get_status("https://a.example") {
        PrefetchStatus::Cached(path) => {
            assert!(path.starts_with("websearch/current_search/"));
            assert!(path.ends_with(".md"));
        }
        other => panic!("expected Cached, got {:?}", other),
    }
    let (completed, total) = pm.get_progress();
    assert_eq!((completed, total), (1, 2));
}

#[test]
fn test_promoted_cache_hit_points_into_promoted_dir() {
    let mut pm = PrefetchManager::new("websearch");
    let results = vec![result("A", "https://a.example")];
    let probes = vec![CacheProbe { in_promoted: true, in_staging: true }];
    let queue = pm.prefetch_all(&results, &probes);
    assert!(queue.is_empty());
    match pm.get_status("https://a.example") {
        PrefetchStatus::Cached(path) => assert!(path.starts_with("websearch/active_tabs/")),
        other => panic!("expected Cached, got {:?}", other),
    }
}

#[test]
fn test_concurrency_bound() {
    let mut pm = PrefetchManager::new("websearch");
    let n = CONCURRENT_LIMIT + 8;
    let results: Vec<SearchResult> =
        (0..n).map(|i| result("Title", &format!("https://site{}.example", i))).collect();
    let probes: Vec<CacheProbe> = (0..n).map(|_| miss()).collect();
    let queue = pm.prefetch_all(&results, &probes);
    assert_eq!(queue.len(), n);
    let mut started = Vec::new();
    for r in &queue {
        if let Some(token) = pm.begin_fetch(&r.url) {
            started.push((r.url.clone(), token));
        }
    }
    // No more than the limit may be in flight at once.
    assert_eq!(started.len(), CONCURRENT_LIMIT);
    // Finishing one frees a slot for the next.
    let (url, token) = started[0].clone();
    assert!(pm.finish_fetch(&url, token, FetchOutcome::TimedOut));
    assert!(pm.begin_fetch(&queue[CONCURRENT_LIMIT].url).is_some());
}

#[test]
fn test_timeout_is_distinct_from_failed() {
    let mut pm = PrefetchManager::new("websearch");
    let results = vec![result("A", "https://slow.example")];
    let probes = vec![miss()];
    pm.prefetch_all(&results, &probes);
    let token = pm.begin_fetch("https://slow.example").unwrap();
    assert!(pm.finish_fetch("https://slow.example", token, FetchOutcome::TimedOut));
    let status = pm.get_status("https://slow.example");
    assert_eq!(status, PrefetchStatus::Timeout);
    assert!(!matches!(status, PrefetchStatus::Failed(_)));
    assert!(!matches!(status, PrefetchStatus::Ready(_)));
}

#[test]
fn test_three_url_scenario() {
    // A has a cached artifact, B's fetch succeeds, C's fetch returns HTTP 500.
    let mut pm = PrefetchManager::new("websearch");
    let results = vec![
        result("A", "https://a.example"),
        result("B", "https://b.example"),
        result("C", "https://c.example"),
    ];
    let probes = vec![CacheProbe { in_promoted: false, in_staging: true }, miss(), miss()];
    let queue = pm.prefetch_all(&results, &probes);
    assert_eq!(queue.len(), 2);
    let tb = pm.begin_fetch("https://b.example").unwrap();
    assert!(pm.finish_fetch(
        "https://b.example",
        tb,
        FetchOutcome::Fetched("websearch/current_search/b.md".to_string()),
    ));
    let tc = pm.begin_fetch("https://c.example").unwrap();
    assert!(pm.finish_fetch(
        "https://c.example",
        tc,
        FetchOutcome::FetchFailed(http_error_message(500)),
    ));
    assert_eq!(pm.get_progress(), (3, 3));
    assert!(matches!(pm.get_status("https://a.example"), PrefetchStatus::Cached(_)));
    assert!(matches!(pm.get_status("https://b.example"), PrefetchStatus::Ready(_)));
    assert_eq!(
        pm.get_status("https://c.example"),
        PrefetchStatus::Failed("HTTP 500".to_string())
    );
}

#[test]
fn test_new_batch_rejects_stragglers() {
    // A new batch is started while the prior batch still has two tasks in
    // flight; their late writes must not reach the new table.
    let mut pm = PrefetchManager::new("websearch");
    let results = vec![result("X", "https://x.example"), result("Y", "https://y.example")];
    let probes = vec![miss(), miss()];
    pm.prefetch_all(&results, &probes);
    let tx = pm.begin_fetch("https://x.example").unwrap();
    let ty = pm.begin_fetch("https://y.example").unwrap();

    pm.clear_current_search();
    let new_results = vec![result("Z", "https://z.example")];
    let new_probes = vec![miss()];
    pm.prefetch_all(&new_results, &new_probes);

    // The stragglers finish now; both are rejected.
    assert!(!pm.finish_fetch(
        "https://x.example",
        tx,
        FetchOutcome::Fetched("websearch/current_search/x.md".to_string()),
    ));
    assert!(!pm.finish_fetch("https://y.example", ty, FetchOutcome::TimedOut));

    // The table shows only the newly submitted URL.
    let statuses = pm.get_all_statuses();
    assert_eq!(statuses.len(), 1);
    assert_eq!(statuses[0].0, "https://z.example");
    assert_eq!(pm.get_status("https://x.example"), PrefetchStatus::Pending);
    assert_eq!(pm.get_progress(), (0, 1));
}

#[test]
fn test_straggler_of_same_url_in_new_batch_rejected() {
    // Even when the new batch resubmits the same URL and it is in progress
    // again, a token from the old generation is rejected.
    let mut pm = PrefetchManager::new("websearch");
    let results = vec![result("X", "https://x.example")];
    let probes = vec![miss()];
    pm.prefetch_all(&results, &probes);
    let old_token = pm.begin_fetch("https://x.example").unwrap();

    pm.clear_current_search();
    pm.prefetch_all(&vec![result("X", "https://x.example")], &vec![miss()]);
    let new_token = pm.begin_fetch("https://x.example").unwrap();
    assert_ne!(old_token, new_token);
    assert!(!pm.finish_fetch("https://x.example", old_token, FetchOutcome::TimedOut));
    assert!(pm.finish_fetch(
        "https://x.example",
        new_token,
        FetchOutcome::Fetched("websearch/current_search/x.md".to_string()),
    ));
}

#[test]
fn test_promote_is_idempotent() {
    let mut pm = PrefetchManager::new("websearch");
    let results = vec![result("A", "https://a.example")];
    let probes = vec![miss()];
    pm.prefetch_all(&results, &probes);
    let token = pm.begin_fetch("https://a.example").unwrap();
    let staged = "websearch/current_search/a_file.md".to_string();
    assert!(pm.finish_fetch("https://a.example", token, FetchOutcome::Fetched(staged.clone())));

    let first = pm.activate_page("https://a.example").unwrap();
    assert_eq!(first.path, "websearch/active_tabs/a_file.md");
    assert_eq!(first.moved, Some((staged, "websearch/active_tabs/a_file.md".to_string())));

    // Promoting again returns the same path and asks for no further move,
    // so exactly one artifact file remains for the key.
    let second = pm.activate_page("https://a.example").unwrap();
    assert_eq!(second.path, first.path);
    assert_eq!(second.moved, None);
}

#[test]
fn test_promote_not_ready_and_failed() {
    let mut pm = PrefetchManager::new("websearch");
    let results = vec![result("A", "https://a.example"), result("B", "https://b.example")];
    let probes = vec![miss(), miss()];
    pm.prefetch_all(&results, &probes);
    // Pending is not ready; an unknown URL is not ready either.
    assert_eq!(pm.activate_page("https://a.example"), Err(PromoteError::NotReady));
    assert_eq!(pm.activate_page("https://other.example"), Err(PromoteError::NotReady));
    let ta = pm.begin_fetch("https://a.example").unwrap();
    assert_eq!(pm.activate_page("https://a.example"), Err(PromoteError::NotReady));
    assert!(pm.finish_fetch("https://a.example", ta, FetchOutcome::FetchFailed("HTTP 500".to_string())));
    assert_eq!(
        pm.activate_page("https://a.example"),
        Err(PromoteError::PrefetchFailed("HTTP 500".to_string()))
    );
    let tb = pm.begin_fetch("https://b.example").unwrap();
    assert!(pm.finish_fetch("https://b.example", tb, FetchOutcome::TimedOut));
    assert_eq!(
        pm.activate_page("https://b.example"),
        Err(PromoteError::PrefetchFailed("Page timed out after 8 seconds".to_string()))
    );
}

#[test]
fn test_cleanup_selects_only_expired_md_files() {
    let pm = PrefetchManager::new("websearch");
    let week = 7 * 24 * 60 * 60;
    let hour = 60 * 60;
    let promoted = vec![
        FileInfo { name: "old_tab.md".to_string(), age_secs: week },
        FileInfo { name: "fresh_tab.md".to_string(), age_secs: hour },
        FileInfo { name: "notes.txt".to_string(), age_secs: week },
    ];
    let staging = vec![
        FileInfo { name: "old_page.md".to_string(), age_secs: week },
        FileInfo { name: "fresh_page.md".to_string(), age_secs: hour },
    ];
    let plan = pm.cleanup_old_files(&promoted, &staging);
    assert_eq!(
        plan,
        vec![
            "websearch/active_tabs/old_tab.md".to_string(),
            "websearch/current_search/old_page.md".to_string(),
        ]
    );
    assert_eq!(plan.len(), 2);
}

#[test]
fn test_cleanup_on_empty_directories_returns_zero() {
    let pm = PrefetchManager::new("websearch");
    let plan = pm.cleanup_old_files(&Vec::new(), &Vec::new());
    assert_eq!(plan.len(), 0);
}

#[test]
fn test_cleanup_age_boundary() {
    // Exactly the retention window old is kept; one second older goes.
    let pm = PrefetchManager::new("websearch");
    let window = 5 * 24 * 60 * 60;
    let staging = vec![
        FileInfo { name: "at_limit.md".to_string(), age_secs: window },
        FileInfo { name: "past_limit.md".to_string(), age_secs: window + 1 },
    ];
    let plan = pm.cleanup_old_files(&Vec::new(), &staging);
    assert_eq!(plan, vec!["websearch/current_search/past_limit.md".to_string()]);
}

#[test]
fn test_begin_fetch_refuses_wrong_states() {
    let mut pm = PrefetchManager::new("websearch");
    let results = vec![result("A", "https://a.example")];
    let probes = vec![CacheProbe { in_promoted: true, in_staging: false }];
    pm.prefetch_all(&results, &probes);
    // Cached is terminal: no fetch may start for it, nor for unknown URLs.
    assert!(pm.begin_fetch("https://a.example").is_none());
    assert!(pm.begin_fetch("https://unknown.example").is_none());
}
