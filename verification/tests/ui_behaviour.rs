use folio::app::{AppError, AppState, Screen};
use folio::config::Config;
use folio::ui::{
    authors_line, centered_rect, controls, display_query, file_lines, footer_text, header_title,
    list_title, needs_redraw, page_title, selection_marker, spinner, topic_name,
};

fn fresh() -> AppState {
    AppState::new(Config::default(), None)
}

#[test]
fn titles_and_controls_per_screen() {
    assert_eq!(header_title(Screen::Start), " Librarian ");
    assert_eq!(header_title(Screen::Results), " Librarian Results ");
    assert_eq!(header_title(Screen::Imported), " Import Complete ");
    assert_eq!(controls(Screen::Start), "Enter fetch  / edit  j/k move  q quit");
    assert_eq!(
        controls(Screen::Results),
        "j/k move  J/K scroll  p preview  space select  Enter import  n/← page  b back  q quit"
    );
    assert_eq!(controls(Screen::Imported), "Enter continue  t topics  q quit");
}

#[test]
fn spinner_frames() {
    let frames: Vec<&str> = (0..12).map(spinner).collect();
    assert_eq!(frames, vec!["⠋", "⠙", "⠹", "⠸", "⠼", "⠴", "⠦", "⠧", "⠇", "⠏", "⠏", "⠏"]);
}

#[test]
fn query_and_topic_shown() {
    let mut s = fresh();
    assert_eq!(display_query(&s), "LSM tree B-tree WAL compaction storage engine");
    s.query.clear();
    assert_eq!(display_query(&s), "type a search query");
    assert_eq!(topic_name(&s), "Database Storage Engines");
    s.topic_cursor = 50;
    assert_eq!(topic_name(&s), "Custom");
}

#[test]
fn footer_shows_spinner_error_or_status() {
    let mut s = fresh();
    assert_eq!(footer_text(&s), "Choose a topic or edit the search, then press Enter.");
    s.error = Some(AppError::EmptyQuery);
    assert_eq!(footer_text(&s), "Error: Type a search query before fetching papers");
    s.loading = true;
    s.loading_frame = 2;
    assert_eq!(footer_text(&s), "⠹ Working...");
}

#[test]
fn long_titles_are_cut() {
    assert_eq!(list_title("Short"), "Short");
    let exactly = "x".repeat(55);
    assert_eq!(list_title(&exactly), exactly);
    let long = "é".repeat(60);
    let cut = list_title(&long);
    assert_eq!(cut, format!("{}...", "é".repeat(52)));
    assert_eq!(cut.chars().count(), 55);
}

#[test]
fn selection_marks() {
    let mut s = fresh();
    s.selected = vec!["a".to_string()];
    assert_eq!(selection_marker(&s, &"a".to_string()), (true, "[x] "));
    assert_eq!(selection_marker(&s, &"b".to_string()), (false, "[ ] "));
}

#[test]
fn page_titles_count_from_one() {
    assert_eq!(page_title(0), " Papers (Page 1) ");
    assert_eq!(page_title(19), " Papers (Page 1) ");
    assert_eq!(page_title(20), " Papers (Page 2) ");
    assert_eq!(page_title(200), " Papers (Page 11) ");
}

#[test]
fn author_lines() {
    assert_eq!(authors_line(&vec![]), "Unknown");
    assert_eq!(authors_line(&vec!["A".into()]), "A");
    assert_eq!(authors_line(&vec!["A".into(), "B".into(), "C".into()]), "A, B, C");
}

#[test]
fn file_lists_stop_at_ten() {
    let few: Vec<String> = (0..3).map(|i| format!("/v/{i}.md")).collect();
    assert_eq!(file_lines(&few), vec!["- /v/0.md", "- /v/1.md", "- /v/2.md"]);
    let many: Vec<String> = (0..13).map(|i| format!("/v/{i}.md")).collect();
    let lines = file_lines(&many);
    assert_eq!(lines.len(), 11);
    assert_eq!(lines[9], "- /v/9.md");
    assert_eq!(lines[10], "- ... and 3 more");
}

#[test]
fn popup_is_centred_and_fits() {
    assert_eq!(centered_rect(38, 5, (0, 0, 100, 40)), (31, 17, 38, 5));
    assert_eq!(centered_rect(38, 5, (10, 2, 20, 3)), (10, 2, 20, 3));
    assert_eq!(centered_rect(38, 5, (0, 0, 39, 6)), (0, 0, 38, 5));
}

#[test]
fn redraw_after_events_and_busy_ticks() {
    assert!(needs_redraw(false, false));
    assert!(needs_redraw(false, true));
    assert!(needs_redraw(true, true));
    assert!(!needs_redraw(true, false));
}
