use websearch_tui::app::{App, AppState};
use websearch_tui::extract_clean_md::{extract_clean_markdown, ExtractedContent};
use websearch_tui::prefetch::{CacheProbe, FetchOutcome, PrefetchManager, PrefetchStatus};
use websearch_tui::search::SearchResult;
use websearch_tui::ui::truncate;

fn result(title: &str, url: &str) -> SearchResult {
    SearchResult {
        title: title.to_string(),
        url: url.to_string(),
        description: "d".to_string(),
    }
}

fn miss() -> CacheProbe {
    CacheProbe { in_promoted: false, in_staging: false }
}

fn app_with_results(n: usize) -> App {
    let mut app = App::new(PrefetchManager::new("websearch"));
    app.start_search();
    let results: Vec<SearchResult> =
        (0..n).map(|i| result("Title", &format!("https://site{}.example", i))).collect();
    let probes: Vec<CacheProbe> = (0..n).map(|_| miss()).collect();
    app.finish_search(results, &probes);
    app
}

#[test]
fn test_app_search_lifecycle() {
    let mut app = App::new(PrefetchManager::new("websearch"));
    assert_eq!(app.state, AppState::Input);
    app.start_search();
    assert_eq!(app.state, AppState::Searching);
    assert_eq!(app.status_message, "Searching...");
    let results = vec![result("A", "https://a.example"), result("B", "https://b.example")];
    let probes = vec![miss(), miss()];
    let queue = app.finish_search(results, &probes);
    assert_eq!(app.state, AppState::Results);
    assert_eq!(queue.len(), 2);
    assert_eq!(app.status_message, "Found 2 results. Prefetching...");
    assert_eq!(app.get_prefetch_progress(), (0, 2));
    assert_eq!(app.get_prefetch_status("https://a.example"), PrefetchStatus::Pending);
}

#[test]
fn test_app_empty_search_is_error() {
    let mut app = App::new(PrefetchManager::new("websearch"));
    app.start_search();
    let queue = app.finish_search(Vec::new(), &Vec::new());
    assert!(queue.is_empty());
    assert_eq!(app.state, AppState::Error);
    assert_eq!(app.error_message.as_deref(), Some("No results found"));
    app.dismiss_error();
    assert_eq!(app.state, AppState::Input);
    assert!(app.error_message.is_none());
}

#[test]
fn test_app_navigation_wraps() {
    let mut app = app_with_results(3);
    assert_eq!(app.selected_index, 0);
    app.next_result();
    assert_eq!(app.selected_index, 1);
    app.next_result();
    app.next_result();
    assert_eq!(app.selected_index, 0);
    app.previous_result();
    assert_eq!(app.selected_index, 2);
    app.first_result();
    assert_eq!(app.selected_index, 0);
    app.last_result();
    assert_eq!(app.selected_index, 2);
}

#[test]
fn test_app_toggle_selection() {
    let mut app = app_with_results(3);
    app.toggle_selection();
    assert_eq!(app.selected_items, vec![0]);
    app.next_result();
    app.toggle_selection();
    assert_eq!(app.selected_items, vec![0, 1]);
    app.toggle_selection();
    assert_eq!(app.selected_items, vec![0]);
}

#[test]
fn test_app_open_in_browser() {
    let mut app = app_with_results(3);
    // Nothing marked: the current result opens.
    let urls = app.open_in_browser();
    assert_eq!(urls, vec!["https://site0.example".to_string()]);
    assert_eq!(app.status_message, "Opened 1 URL(s) in browser");
    // Marked results open together, and the marks clear.
    app.toggle_selection();
    app.next_result();
    app.toggle_selection();
    let urls = app.open_in_browser();
    assert_eq!(
        urls,
        vec!["https://site0.example".to_string(), "https://site1.example".to_string()]
    );
    assert_eq!(app.status_message, "Opened 2 URL(s) in browser");
    assert!(app.selected_items.is_empty());
}

#[test]
fn test_app_progress_messages() {
    let mut app = app_with_results(2);
    app.update_prefetch_progress(1, 2);
    assert_eq!(app.status_message, "Prefetching: 1/2");
    app.update_prefetch_progress(2, 2);
    assert_eq!(app.status_message, "\u{2713} All 2 pages ready!");
}

#[test]
fn test_app_prepare_neovim_open() {
    let mut app = app_with_results(1);
    // Still pending: not ready to open.
    assert!(app.prepare_neovim_open().is_err());
    let token = app.prefetch_manager.begin_fetch("https://site0.example").unwrap();
    assert!(app.prefetch_manager.finish_fetch(
        "https://site0.example",
        token,
        FetchOutcome::Fetched("websearch/current_search/page.md".to_string()),
    ));
    let outcome = app.prepare_neovim_open().unwrap();
    assert_eq!(outcome.path, "websearch/active_tabs/page.md");
    assert!(outcome.moved.is_some());
}

#[test]
fn test_app_scroll_offset() {
    let mut app = app_with_results(10);
    // 22 lines leave room for five items; the first five need no scroll.
    assert_eq!(app.get_scroll_offset(22), 0);
    for _ in 0..6 {
        app.next_result();
    }
    assert_eq!(app.selected_index, 6);
    assert_eq!(app.get_scroll_offset(22), 2);
    assert_eq!(app.get_scroll_offset(0), 0);
}

#[test]
fn test_truncate() {
    assert_eq!(truncate("short", 80), "short");
    assert_eq!(truncate("abcdefghij", 8), "abcde...");
    assert_eq!(truncate("abcdefghij", 2), "...");
}

#[test]
fn test_formatted_markdown_full() {
    let content = ExtractedContent {
        title: "A \"quoted\" title".to_string(),
        byline: Some("Jo Writer".to_string()),
        excerpt: Some("A short excerpt.".to_string()),
        site_name: Some("Example Site".to_string()),
        markdown: "Body text.".to_string(),
        url: "https://example.com/a".to_string(),
    };
    let expected = "---\ntitle: \"A \\\"quoted\\\" title\"\nurl: https://example.com/a\nauthor: \"Jo Writer\"\nsource: \"Example Site\"\n---\n\n# A \"quoted\" title\n\n**Author**: Jo Writer\n**Source**: Example Site\n**URL**: <https://example.com/a>\n\n> A short excerpt.\n\n---\n\nBody text.";
    assert_eq!(content.to_formatted_markdown(), expected);
}

#[test]
fn test_formatted_markdown_minimal() {
    let content = ExtractedContent {
        title: "Plain".to_string(),
        byline: None,
        excerpt: Some("".to_string()),
        site_name: None,
        markdown: "Text".to_string(),
        url: "https://example.com".to_string(),
    };
    let expected = "---\ntitle: \"Plain\"\nurl: https://example.com\n---\n\n# Plain\n\n**URL**: <https://example.com>\n\n---\n\nText";
    assert_eq!(content.to_formatted_markdown(), expected);
}

#[test]
fn test_extract_titled_article() {
    let html = r#"
        <html>
        <head><title>Test Title</title></head>
        <body>
            <article>
                <h1>Test Title</h1>
                <p>Test content with <strong>bold</strong> text.</p>
            </article>
        </body>
        </html>
    "#;

    let result = extract_clean_markdown(html, "https://test.com");
    assert!(result.is_ok());

    let content = result.unwrap();
    assert_eq!(content.title, "Test Title");
    assert!(content.markdown.contains("bold"));
    assert_eq!(content.url, "https://test.com");
}
