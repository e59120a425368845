use folio::app::{
    reduce, AppError, AppEvent, AppState, Effect, ImportReport, KeyCode, KeyPress, RenderedNote, Screen,
};
use folio::config::{Config, Topic};
use folio::fetch::Paper;
use folio::templates::default_note_template;

fn paper(id: &str, title: &str) -> Paper {
    Paper {
        id: id.to_string(),
        title: title.to_string(),
        authors: vec!["A. Author".into()],
        published: String::from("2023"),
        abstract_text: String::from("Abstract."),
        source: String::from("ArXiv"),
        citations: 0,
        venue: None,
        doi: None,
        arxiv_id: Some(id.to_string()),
        semantic_scholar_id: None,
        abs_url: format!("http://arxiv.org/abs/{id}"),
        pdf_url: None,
        tldr: None,
    }
}

/// Answers the fetch the state asked for last with `papers`.
fn answer(state: &mut AppState, papers: Vec<Paper>) -> Vec<Effect> {
    let query = state.query.trim().to_string();
    let offset = state.offset;
    reduce(state, AppEvent::FetchSucceeded { query, offset, papers })
}

fn fresh() -> AppState {
    AppState::new(Config::default(), Some(default_note_template().to_string()))
}

fn key(state: &mut AppState, code: KeyCode) -> Vec<Effect> {
    reduce(state, AppEvent::Input(KeyPress { code, ctrl: false }))
}

fn typed(state: &mut AppState, text: &str) {
    for c in text.chars() {
        assert!(key(state, KeyCode::Char(c)).is_empty());
    }
}

fn fetch_query(effects: &[Effect]) -> (String, usize) {
    assert_eq!(effects.len(), 1);
    match &effects[0] {
        Effect::Fetch { query, offset } => (query.clone(), *offset),
        other => panic!("expected a fetch, got {other:?}"),
    }
}

/// A state on the results screen for query "rust" with two papers.
fn with_results() -> AppState {
    let mut s = fresh();
    key(&mut s, KeyCode::Char('/'));
    s.query.clear();
    typed(&mut s, "rust");
    let fx = key(&mut s, KeyCode::Enter);
    assert_eq!(fetch_query(&fx), ("rust".to_string(), 0));
    answer(&mut s, vec![paper("1", "One"), paper("2", "Two")]);
    s
}

#[test]
fn new_state_starts_on_the_first_topic() {
    let s = fresh();
    assert_eq!(s.screen, Screen::Start);
    assert_eq!(s.topic, "Database Storage Engines");
    assert_eq!(s.query, "LSM tree B-tree WAL compaction storage engine");
    assert_eq!(s.status, "Choose a topic or edit the search, then press Enter.");
    assert!(!s.loading && !s.wants_quit && !s.editing_query);
    assert_eq!(s.offset, 0);
    assert!(s.page_cache.is_empty() && s.papers.is_empty() && s.selected.is_empty());
}

#[test]
fn new_state_without_topics_is_a_custom_search() {
    let mut c = Config::default();
    c.topics = vec![];
    let s = AppState::new(c, None);
    assert_eq!(s.topic, "Custom Search");
    assert_eq!(s.query, "");
}

#[test]
fn quitting() {
    let mut s = fresh();
    assert!(reduce(&mut s, AppEvent::Input(KeyPress { code: KeyCode::Char('c'), ctrl: true })).is_empty());
    assert!(s.wants_quit);
    let mut s = fresh();
    key(&mut s, KeyCode::Char('q'));
    assert!(s.wants_quit);
    let mut s = fresh();
    key(&mut s, KeyCode::Char('/'));
    key(&mut s, KeyCode::Char('q'));
    assert!(!s.wants_quit);
    assert!(s.query.ends_with('q'));
    reduce(&mut s, AppEvent::Input(KeyPress { code: KeyCode::Char('c'), ctrl: true }));
    assert!(s.wants_quit);
}

#[test]
fn moving_through_topics() {
    let mut s = fresh();
    key(&mut s, KeyCode::Char('j'));
    assert_eq!(s.topic_cursor, 1);
    assert_eq!(s.topic, "Database Transactions");
    assert_eq!(s.query, "MVCC transactions OCC 2PL serializability");
    assert_eq!(s.status, "Press Enter to fetch this topic.");
    key(&mut s, KeyCode::Up);
    key(&mut s, KeyCode::Char('k'));
    assert_eq!(s.topic_cursor, 0);
    for _ in 0..60 {
        key(&mut s, KeyCode::Down);
    }
    assert_eq!(s.topic_cursor, 49);
    assert_eq!(s.topic, "AI Model Serving");
}

#[test]
fn empty_topic_query_asks_for_typing() {
    let mut c = Config::default();
    c.topics = vec![Topic::new("A", "a"), Topic::new("Empty", "")];
    let mut s = AppState::new(c, None);
    key(&mut s, KeyCode::Char('j'));
    assert_eq!(s.status, "Press / to type a custom search.");
    let fx = key(&mut s, KeyCode::Enter);
    assert!(fx.is_empty());
    assert!(matches!(s.error, Some(AppError::EmptyQuery)));
    assert_eq!(s.status, "Type a search query with / before fetching.");
}

#[test]
fn editing_the_query() {
    let mut s = fresh();
    key(&mut s, KeyCode::Char('/'));
    assert!(s.editing_query);
    assert_eq!(s.status, "Editing search. Enter fetches, Esc cancels editing.");
    s.query.clear();
    typed(&mut s, "graph");
    assert_eq!(s.topic, "Custom Search");
    key(&mut s, KeyCode::Backspace);
    assert_eq!(s.query, "grap");
    key(&mut s, KeyCode::Char('\u{7}'));
    assert_eq!(s.query, "grap");
    key(&mut s, KeyCode::Esc);
    assert!(!s.editing_query);
    assert_eq!(s.query, "grap");
    assert_eq!(s.status, "Search editing cancelled.");
}

#[test]
fn e_also_edits_the_query() {
    let mut s = fresh();
    key(&mut s, KeyCode::Char('e'));
    assert!(s.editing_query);
    assert_eq!(s.status, "Editing search. Enter fetches, Esc cancels editing.");
    key(&mut s, KeyCode::Char('e'));
    assert!(s.query.ends_with('e'));
}

#[test]
fn typing_then_erasing_gives_the_query_back() {
    let mut s = fresh();
    key(&mut s, KeyCode::Char('/'));
    let before = s.query.clone();
    key(&mut s, KeyCode::Char('x'));
    key(&mut s, KeyCode::Backspace);
    assert_eq!(s.query, before);
    assert!(s.editing_query);
}

#[test]
fn submitting_a_query_fetches_the_first_page() {
    let mut s = fresh();
    s.offset = 40;
    key(&mut s, KeyCode::Char('/'));
    s.query = String::from("  spaced out  ");
    let fx = key(&mut s, KeyCode::Enter);
    assert_eq!(fetch_query(&fx), ("spaced out".to_string(), 0));
    assert!(s.loading);
    assert_eq!(s.status, "Fetching papers for 'spaced out'...");
    assert!(key(&mut s, KeyCode::Char('r')).is_empty());
}

#[test]
fn fetched_papers_are_shown_and_cached() {
    let s = with_results();
    assert_eq!(s.screen, Screen::Results);
    assert!(!s.loading);
    assert_eq!(s.papers.len(), 2);
    assert_eq!(s.status, "Page 1 · 2 papers for 'rust'");
    assert_eq!(s.page_cache.len(), 1);
}

#[test]
fn an_empty_page_says_so() {
    let mut s = fresh();
    answer(&mut s, vec![]);
    assert_eq!(s.status, "No papers found. Try a broader query.");
    assert_eq!(s.screen, Screen::Results);
}

#[test]
fn paging_forward_and_back_uses_the_cache() {
    let mut s = with_results();
    let fx = key(&mut s, KeyCode::Char('n'));
    assert_eq!(fetch_query(&fx), ("rust".to_string(), 20));
    answer(&mut s, vec![paper("3", "Three")]);
    assert_eq!(s.status, "Page 2 · 1 papers for 'rust'");
    let fx = key(&mut s, KeyCode::Left);
    assert!(fx.is_empty());
    assert_eq!(s.offset, 0);
    assert_eq!(s.papers[0].id, "1");
    assert_eq!(s.status, "Page 1 · 2 papers for 'rust' (cached)");
    let fx = key(&mut s, KeyCode::Left);
    assert!(fx.is_empty());
    assert_eq!(s.offset, 0);
    let fx = key(&mut s, KeyCode::Char('n'));
    assert!(fx.is_empty());
    assert_eq!(s.papers[0].id, "3");
    assert_eq!(s.status, "Page 2 · 1 papers for 'rust' (cached)");
}

#[test]
fn p_previews_the_paper_under_the_cursor() {
    let mut s = with_results();
    let fx = key(&mut s, KeyCode::Char('n'));
    answer(&mut s, vec![paper("3", "Three")]);
    assert_eq!(fx.len(), 1);
    key(&mut s, KeyCode::Char('J'));
    let fx = key(&mut s, KeyCode::Char('p'));
    assert!(fx.is_empty());
    assert_eq!(s.offset, 20);
    assert_eq!(s.papers[0].id, "3");
    assert_eq!(s.screen, Screen::Results);
    assert_eq!(s.preview_scroll, 0);
}

#[test]
fn a_new_search_clears_the_cache() {
    let mut s = with_results();
    key(&mut s, KeyCode::Char('/'));
    let fx = key(&mut s, KeyCode::Enter);
    assert_eq!(fetch_query(&fx), ("rust".to_string(), 0));
    assert!(s.page_cache.is_empty());
}

#[test]
fn moving_through_results_and_scrolling() {
    let mut s = with_results();
    key(&mut s, KeyCode::Char('J'));
    key(&mut s, KeyCode::PageDown);
    assert_eq!(s.preview_scroll, 2);
    key(&mut s, KeyCode::Char('j'));
    assert_eq!(s.cursor, 1);
    assert_eq!(s.preview_scroll, 0);
    key(&mut s, KeyCode::Char('j'));
    assert_eq!(s.cursor, 1);
    key(&mut s, KeyCode::Char('K'));
    assert_eq!(s.preview_scroll, 0);
    s.preview_scroll = u16::MAX;
    key(&mut s, KeyCode::Char('J'));
    assert_eq!(s.preview_scroll, u16::MAX);
}

#[test]
fn toggling_selection_twice() {
    let mut s = with_results();
    key(&mut s, KeyCode::Char(' '));
    assert_eq!(s.selected, vec!["1".to_string()]);
    key(&mut s, KeyCode::Char('j'));
    key(&mut s, KeyCode::Char(' '));
    assert_eq!(s.selected.len(), 2);
    key(&mut s, KeyCode::Char(' '));
    assert_eq!(s.selected, vec!["1".to_string()]);
}

#[test]
fn importing_selected_papers() {
    let mut s = with_results();
    key(&mut s, KeyCode::Char('j'));
    key(&mut s, KeyCode::Char(' '));
    key(&mut s, KeyCode::Char('k'));
    let fx = key(&mut s, KeyCode::Enter);
    assert_eq!(fx.len(), 1);
    let (papers, topic) = match &fx[0] {
        Effect::Render { papers, topic } => (papers.clone(), topic.clone()),
        other => panic!("expected a render, got {other:?}"),
    };
    assert_eq!(papers.len(), 1);
    assert_eq!(papers[0].id, "2");
    assert_eq!(topic, "Custom Search");
    assert!(s.loading);
    assert_eq!(s.status, "Importing 1 papers to Obsidian...");

    let notes = papers
        .into_iter()
        .map(|paper| RenderedNote { paper, text: Some(String::from("# Two\n")) })
        .collect();
    let fx = reduce(&mut s, AppEvent::NotesRendered { topic, notes });
    match &fx[..] {
        [Effect::Import { papers, topic, rendered }] => {
            assert_eq!(papers[0].id, "2");
            assert_eq!(topic, "Custom Search");
            assert_eq!(rendered, &vec!["# Two\n".to_string()]);
        }
        other => panic!("expected an import, got {other:?}"),
    }
    assert!(s.loading);
    assert_eq!(s.status, "Importing 1 papers to Obsidian...");
}

#[test]
fn importing_the_highlighted_paper_when_none_is_selected() {
    let mut s = with_results();
    let fx = key(&mut s, KeyCode::Enter);
    match &fx[0] {
        Effect::Render { papers, .. } => assert_eq!(papers[0].id, "1"),
        other => panic!("expected a render, got {other:?}"),
    }
}

#[test]
fn importing_with_nothing_to_import() {
    let mut s = fresh();
    answer(&mut s, vec![]);
    let fx = key(&mut s, KeyCode::Enter);
    assert!(fx.is_empty());
    assert!(matches!(s.error, Some(AppError::NothingSelected)));
    assert_eq!(s.status, "Select with space, or highlight a paper and press Enter.");
}

#[test]
fn a_broken_template_stops_the_import() {
    let mut c = Config::default();
    c.topics = vec![Topic::new("T", "rust")];
    let mut s = AppState::new(c, None);
    key(&mut s, KeyCode::Enter);
    answer(&mut s, vec![paper("1", "One")]);
    let fx = key(&mut s, KeyCode::Enter);
    assert_eq!(fx.len(), 1);
    let notes = vec![
        RenderedNote { paper: paper("1", "One"), text: Some(String::from("ok")) },
        RenderedNote { paper: paper("2", "Two"), text: None },
    ];
    let fx = reduce(&mut s, AppEvent::NotesRendered { topic: String::from("T"), notes });
    assert!(fx.is_empty());
    assert!(!s.loading);
    match &s.error {
        Some(AppError::Import(m)) => {
            assert_eq!(m, "Failed to render note. Check your ~/.config/folio/templates/note.md syntax.")
        }
        other => panic!("unexpected {other:?}"),
    }
    assert_eq!(
        s.status,
        "Template error: Failed to render note. Check your ~/.config/folio/templates/note.md syntax."
    );
}

#[test]
fn a_finished_import_is_reported() {
    let mut s = with_results();
    key(&mut s, KeyCode::Char(' '));
    key(&mut s, KeyCode::Enter);
    let mut report = ImportReport::new(String::from("/vault/Papers"));
    report.record(String::from("/vault/Papers/a.md"), true);
    report.record(String::from("/vault/Papers/b.md"), false);
    reduce(&mut s, AppEvent::ImportSucceeded(report));
    assert_eq!(s.screen, Screen::Imported);
    assert!(!s.loading);
    assert!(s.selected.is_empty());
    assert_eq!(s.status, "Imported 1 papers (1 skipped) to /vault/Papers");
    let r = s.import_report.as_ref().unwrap();
    assert_eq!((r.written, r.skipped, r.files.len()), (1, 1, 2));

    key(&mut s, KeyCode::Enter);
    assert_eq!(s.screen, Screen::Results);
    assert_eq!(s.status, "Continue browsing. Enter imports selected papers.");
}

#[test]
fn an_import_without_skips() {
    let mut s = with_results();
    let mut report = ImportReport::new(String::from("/v/P"));
    report.record(String::from("/v/P/a.md"), true);
    reduce(&mut s, AppEvent::ImportSucceeded(report));
    assert_eq!(s.status, "Imported 1 papers to /v/P");
    key(&mut s, KeyCode::Char('t'));
    assert_eq!(s.screen, Screen::Start);
    assert_eq!(s.status, "Choose a topic or edit the search, then press Enter.");
}

#[test]
fn going_back() {
    let mut s = with_results();
    let mut report = ImportReport::new(String::from("/v"));
    report.record(String::from("/v/a.md"), true);
    reduce(&mut s, AppEvent::ImportSucceeded(report));
    key(&mut s, KeyCode::Char('b'));
    assert_eq!(s.screen, Screen::Results);
    assert_eq!(s.status, "Continue browsing. Enter imports selected papers.");
    key(&mut s, KeyCode::Char('b'));
    assert_eq!(s.screen, Screen::Start);
    assert_eq!(s.status, "Choose a topic or edit the search, then press Enter.");
    assert!(s.error.is_none());
}

#[test]
fn failures_are_reported() {
    let mut s = with_results();
    reduce(&mut s, AppEvent::FetchFailed(AppError::Network(String::from("connection refused"))));
    assert_eq!(s.status, "Fetch failed: Network error: connection refused");
    reduce(&mut s, AppEvent::FetchFailed(AppError::Network(String::from("HTTP status 429"))));
    assert_eq!(
        s.status,
        "API Rate Limit Hit. Obtain a free key at https://www.semanticscholar.org/product/api and add it to ~/.config/folio/config.toml"
    );
    reduce(&mut s, AppEvent::FetchFailed(AppError::Network(String::from("Too Many Requests"))));
    assert!(s.status.starts_with("API Rate Limit Hit."));
    reduce(&mut s, AppEvent::ImportFailed(AppError::Import(String::from("disk full"))));
    assert_eq!(s.status, "Import failed");
    assert!(!s.loading);
    assert_eq!(s.error.as_ref().unwrap().message(), "Import error: disk full");
}

#[test]
fn error_messages() {
    assert_eq!(AppError::Network("x".into()).message(), "Network error: x");
    assert_eq!(AppError::EmptyQuery.message(), "Type a search query before fetching papers");
    assert_eq!(
        AppError::NothingSelected.message(),
        "Select a paper first, or highlight one and press Enter"
    );
    assert_eq!(AppError::Import("y".into()).message(), "Import error: y");
    assert_eq!(AppError::Import("y".into()).duplicate().message(), "Import error: y");
}

#[test]
fn ticks_cycle_the_spinner() {
    let mut s = fresh();
    let mut frames = vec![];
    for _ in 0..5 {
        assert!(reduce(&mut s, AppEvent::Tick).is_empty());
        frames.push(s.loading_frame);
    }
    assert_eq!(frames, vec![1, 2, 3, 0, 1]);
}

#[test]
fn import_report_counts() {
    let mut r = ImportReport::new(String::from("/f"));
    assert_eq!((r.written, r.skipped), (0, 0));
    r.record(String::from("/f/a.md"), false);
    r.record(String::from("/f/b.md"), true);
    r.record(String::from("/f/c.md"), true);
    assert_eq!((r.written, r.skipped), (2, 1));
    assert_eq!(r.files, vec!["/f/a.md".to_string(), "/f/b.md".to_string(), "/f/c.md".to_string()]);
    let d = r.duplicate();
    assert_eq!(d.folder, "/f");
}

#[test]
fn pages_are_cached_under_what_was_fetched() {
    let mut s = fresh();
    key(&mut s, KeyCode::Char('/'));
    s.query = String::from("rust ");
    let fx = key(&mut s, KeyCode::Enter);
    let (q, o) = fetch_query(&fx);
    assert_eq!((q.as_str(), o), ("rust", 0));
    reduce(&mut s, AppEvent::FetchSucceeded { query: q, offset: o, papers: vec![paper("1", "One")] });
    let fx = key(&mut s, KeyCode::Char('r'));
    assert!(fx.is_empty());
    assert_eq!(s.status, "Page 1 · 1 papers for 'rust' (cached)");
}

#[test]
fn a_page_answered_after_paging_is_cached_under_its_own_offset() {
    let mut s = with_results();
    let fx = key(&mut s, KeyCode::Char('n'));
    let (q, o) = fetch_query(&fx);
    assert_eq!(o, 20);
    assert!(key(&mut s, KeyCode::Char('n')).is_empty());
    assert_eq!(s.offset, 40);
    reduce(&mut s, AppEvent::FetchSucceeded { query: q, offset: o, papers: vec![paper("3", "Three")] });
    key(&mut s, KeyCode::Left);
    assert_eq!(s.offset, 20);
    assert_eq!(s.papers[0].id, "3");
    assert!(s.status.ends_with("(cached)"));
}
