use websearch_tui::duckduckgo_search::{
    duckduckgo_search_url, parse_duckduckgo_results, resolve_result_url, RawAnchor,
};
use websearch_tui::search::{brave_search_url, collect_brave_results, RawResult};
use websearch_tui::searxng_search::{
    attempt_plan, collect_searxng_results, searxng_instances, searxng_search_url,
    shuffled_attempt_plan,
};
use websearch_tui::startpage_search::{
    collect_generic_links, is_valid_result, startpage_search_url,
};

#[test]
fn search_test_max_results_constant() {
    assert_eq!(websearch_tui::search::MAX_RESULTS, 10);
}

#[test]
fn searxng_search_test_max_results_constant() {
    assert_eq!(websearch_tui::searxng_search::MAX_RESULTS, 10);
}

#[test]
fn startpage_search_test_max_results_constant() {
    assert_eq!(websearch_tui::startpage_search::MAX_RESULTS, 10);
}

#[test]
fn duckduckgo_search_test_max_results_constant() {
    assert_eq!(websearch_tui::duckduckgo_search::MAX_RESULTS, 10);
}

#[test]
fn test_instances_list() {
    let instances = searxng_instances();
    assert!(!instances.is_empty());
    assert!(instances.len() >= 5);
}

#[test]
fn test_url_encoding() {
    let query = "rust programming language";
    let encoded = duckduckgo_search_url(query);
    assert!(encoded.contains("rust"));
}

#[test]
fn test_duckduckgo_search_url() {
    assert_eq!(
        duckduckgo_search_url("rust programming"),
        "https://html.duckduckgo.com/html/?q=rust%20programming"
    );
    assert_eq!(duckduckgo_search_url("abc123"), "https://html.duckduckgo.com/html/?q=abc123");
}

#[test]
fn test_startpage_search_url() {
    assert_eq!(
        startpage_search_url("rust lang"),
        "https://www.startpage.com/sp/search?q=rust%20lang&language=english"
    );
}

#[test]
fn test_is_valid_result() {
    // Valid titles
    assert!(is_valid_result("Rust Programming Language", "https://rust-lang.org"));
    assert!(is_valid_result("Example Article Title", "https://example.com/article"));
    assert!(is_valid_result("Hello World", "https://example.com"));

    // Invalid - too short
    assert!(!is_valid_result("Hi", "https://example.com"));

    // Invalid - title is URL
    assert!(!is_valid_result("https://example.com", "https://example.com"));

    // Invalid - navigation
    assert!(!is_valid_result("Login", "https://example.com/login"));

    // Invalid - not URL
    assert!(!is_valid_result("Valid Title", "not-a-url"));

    // Invalid - only dots
    assert!(!is_valid_result("...........", "https://example.com"));

    // Invalid - no alphanumeric
    assert!(!is_valid_result("!!!!", "https://example.com"));

    // Invalid - CSS-like content
    assert!(!is_valid_result(".container { padding: 10px; }", "https://example.com"));
    assert!(!is_valid_result("color: rgb(255, 0, 0);", "https://example.com"));
    assert!(!is_valid_result("var(--primary-color)", "https://example.com"));

    // Invalid - code-like with many special chars
    assert!(!is_valid_result("{ a: 1; b: 2; c: 3; }", "https://example.com"));
}

#[test]
fn test_alphanumeric_validation() {
    // Valid - has enough alphanumeric chars
    assert!(is_valid_result("Hello World", "https://example.com"));

    // Invalid - mostly special chars
    assert!(!is_valid_result("...", "https://example.com"));
    assert!(!is_valid_result("!!!", "https://example.com"));
    assert!(!is_valid_result("---", "https://example.com"));
}

#[test]
fn test_resolve_redirect_url() {
    assert_eq!(
        resolve_result_url("//duckduckgo.com/l/?uddg=https%3A%2F%2Fexample.com&rut=123").as_deref(),
        Some("https://example.com")
    );
    assert_eq!(
        resolve_result_url("/l/?uddg=https%3A%2F%2Ftest.com").as_deref(),
        Some("https://test.com")
    );
    assert_eq!(resolve_result_url("https://direct.example/page").as_deref(),
        Some("https://direct.example/page"));
    assert_eq!(resolve_result_url("/relative/link"), None);
    assert_eq!(resolve_result_url("//duckduckgo.com/l/?other=1"), None);
}

#[test]
fn test_parse_duckduckgo_results() {
    let anchors = vec![
        RawAnchor {
            title: "Example Title".to_string(),
            href: "//duckduckgo.com/l/?uddg=https%3A%2F%2Fexample.com&rut=123".to_string(),
            snippet: Some("Example description".to_string()),
        },
        RawAnchor {
            title: "Test Page".to_string(),
            href: "/l/?uddg=https%3A%2F%2Ftest.com".to_string(),
            snippet: Some("Test description".to_string()),
        },
    ];
    let results = parse_duckduckgo_results(&anchors).unwrap();
    assert_eq!(results.len(), 2);
    assert_eq!(results[0].title, "Example Title");
    assert_eq!(results[0].url, "https://example.com");
    assert_eq!(results[1].url, "https://test.com");
}

#[test]
fn test_parse_duckduckgo_results_all_invalid() {
    let anchors = vec![RawAnchor {
        title: "".to_string(),
        href: "https://example.com".to_string(),
        snippet: None,
    }];
    assert!(parse_duckduckgo_results(&anchors).is_err());
}

#[test]
fn test_collect_brave_results() {
    assert!(collect_brave_results(None).is_empty());
    let rows: Vec<RawResult> = (0..12)
        .map(|i| RawResult {
            title: format!("Title {}", i),
            url: format!("https://site{}.example", i),
            description: if i == 0 { None } else { Some(format!("desc {}", i)) },
        })
        .collect();
    let results = collect_brave_results(Some(rows));
    assert_eq!(results.len(), 10);
    assert_eq!(results[0].description, "No description");
    assert_eq!(results[1].description, "desc 1");
    assert_eq!(results[9].url, "https://site9.example");
}

#[test]
fn test_brave_search_url() {
    assert_eq!(
        brave_search_url("rust lang"),
        "https://api.search.brave.com/res/v1/web/search?q=rust%20lang&count=10"
    );
}

#[test]
fn test_searxng_search_url() {
    assert_eq!(
        searxng_search_url("https://searx.be", "rust lang", None),
        "https://searx.be/search?q=rust%20lang&format=json&categories=general"
    );
    let engines = "duckduckgo,bing".to_string();
    assert_eq!(
        searxng_search_url("https://searx.be", "x1", Some(&engines)),
        "https://searx.be/search?q=x1&format=json&categories=general&engines=duckduckgo,bing"
    );
}

#[test]
fn test_attempt_plan() {
    let instances = searxng_instances();
    let plan = attempt_plan(&instances);
    assert_eq!(plan.len(), 10);
    for i in 0..5 {
        assert_eq!(plan[2 * i].0, instances[i]);
        assert_eq!(plan[2 * i].1, None);
        assert_eq!(plan[2 * i + 1].0, instances[i]);
        assert_eq!(plan[2 * i + 1].1, Some("duckduckgo,bing".to_string()));
    }
}

#[test]
fn test_shuffled_plan_keeps_instances() {
    // The shuffled plan tries every curated instance exactly once (twice,
    // counting the fallback-engine retry), whatever order came out.
    let plan = shuffled_attempt_plan();
    assert_eq!(plan.len(), 10);
    let mut planned: Vec<String> = (0..5).map(|i| plan[2 * i].0.clone()).collect();
    planned.sort();
    let mut curated = searxng_instances();
    curated.sort();
    assert_eq!(planned, curated);
    for i in 0..5 {
        assert_eq!(plan[2 * i].1, None);
        assert_eq!(plan[2 * i].0, plan[2 * i + 1].0);
        assert_eq!(plan[2 * i + 1].1, Some("duckduckgo,bing".to_string()));
    }
}

#[test]
fn test_collect_searxng_results_filters_empties() {
    let rows = vec![
        RawResult {
            title: "Good Result".to_string(),
            url: "https://good.example".to_string(),
            description: None,
        },
        RawResult { title: "".to_string(), url: "https://x.example".to_string(), description: None },
        RawResult { title: "No URL".to_string(), url: "".to_string(), description: None },
    ];
    let results = collect_searxng_results(&rows);
    assert_eq!(results.len(), 1);
    assert_eq!(results[0].title, "Good Result");
    assert_eq!(results[0].description, "No description");
}

#[test]
fn test_generic_links_simple_list() {
    let links = vec![
        ("Example Domain".to_string(), "https://example.com".to_string()),
        ("Rust Programming Language".to_string(), "https://rust-lang.org".to_string()),
        ("GitHub Homepage".to_string(), "https://github.com".to_string()),
    ];
    let results = collect_generic_links(&links);
    assert!(results.is_some());
    let results = results.unwrap();
    assert_eq!(results.len(), 3);
    assert_eq!(results[0].url, "https://example.com");
    assert_eq!(results[0].description, "No description available");
}

#[test]
fn test_generic_links_filters_skip_patterns() {
    let links = vec![
        ("Valid Result One".to_string(), "https://one.example".to_string()),
        ("Privacy Policy Page".to_string(), "https://www.startpage.com/privacy".to_string()),
        ("Valid Result Two".to_string(), "https://two.example".to_string()),
        ("Valid Result Three".to_string(), "https://three.example".to_string()),
    ];
    let results = collect_generic_links(&links).unwrap();
    assert_eq!(results.len(), 3);
    assert!(!results.iter().any(|r| r.url.contains("startpage")));
}

#[test]
fn test_generic_links_deduplicates() {
    let links = vec![
        ("Example Domain".to_string(), "https://example.com".to_string()),
        ("Duplicate Link".to_string(), "https://example.com".to_string()),
        ("Rust Language".to_string(), "https://rust-lang.org".to_string()),
        ("GitHub Homepage".to_string(), "https://github.com".to_string()),
    ];
    let results = collect_generic_links(&links).unwrap();
    assert_eq!(results.len(), 3);
    assert_eq!(results[0].title, "Example Domain");
    assert_eq!(results[1].url, "https://rust-lang.org");
}

#[test]
fn test_generic_links_needs_three() {
    let links = vec![
        ("Example Domain".to_string(), "https://example.com".to_string()),
        ("Rust Language".to_string(), "https://rust-lang.org".to_string()),
    ];
    assert!(collect_generic_links(&links).is_none());
}
