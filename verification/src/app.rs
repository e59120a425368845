//! The application's state and the reducer that moves it: every key press,
//! fetch result, import result and timer tick goes through [`reduce`], which
//! updates the state and says what outside work to start next.
use vstd::prelude::*;
use vstd::string::*;

use crate::config::{Config, ConfigView, TopicView};
use crate::fetch::{copy_papers, papers_view, strings_view, Paper, PaperView};
use crate::templates::{engine_templates, note_engine, note_engine_templates, render_failure_message};
use crate::text::{
    chars_of, concat, contains, decimal, decimal_string, has_infix, is_control, control, string_of_range,
    trim, trimmed,
};

verus! {

// ---------------------------------------------------------------------------
// Screens, errors, reports
// ---------------------------------------------------------------------------

/// Which screen is showing.
#[derive(Clone, Copy, PartialEq, Eq, Structural, Debug)]
pub enum Screen {
    Start,
    Results,
    Imported,
}

/// What went wrong last.
#[derive(Debug, Clone)]
pub enum AppError {
    Network(String),
    EmptyQuery,
    NothingSelected,
    Import(String),
}

/// The mathematical value of an [`AppError`].
pub enum AppErrorView {
    Network(Seq<char>),
    EmptyQuery,
    NothingSelected,
    Import(Seq<char>),
}

impl View for AppError {
    type V = AppErrorView;

    open spec fn view(&self) -> AppErrorView {
        match self {
            AppError::Network(e) => AppErrorView::Network(e@),
            AppError::EmptyQuery => AppErrorView::EmptyQuery,
            AppError::NothingSelected => AppErrorView::NothingSelected,
            AppError::Import(e) => AppErrorView::Import(e@),
        }
    }
}

/// The text shown for an error.
pub open spec fn error_message(e: AppErrorView) -> Seq<char> {
    match e {
        AppErrorView::Network(m) => "Network error: "@ + m,
        AppErrorView::EmptyQuery => "Type a search query before fetching papers"@,
        AppErrorView::NothingSelected => "Select a paper first, or highlight one and press Enter"@,
        AppErrorView::Import(m) => "Import error: "@ + m,
    }
}

impl AppError {
    /// The text shown for this error.
    pub fn message(&self) -> (r: String)
        ensures
            r@ == error_message(self@),
    {
        match self {
            AppError::Network(e) => concat("Network error: ", e.as_str()),
            AppError::EmptyQuery => String::from_str("Type a search query before fetching papers"),
            AppError::NothingSelected => String::from_str(
                "Select a paper first, or highlight one and press Enter",
            ),
            AppError::Import(e) => concat("Import error: ", e.as_str()),
        }
    }

    /// A copy of this error.
    pub fn duplicate(&self) -> (r: AppError)
        ensures
            r@ == self@,
    {
        match self {
            AppError::Network(e) => AppError::Network(e.clone()),
            AppError::EmptyQuery => AppError::EmptyQuery,
            AppError::NothingSelected => AppError::NothingSelected,
            AppError::Import(e) => AppError::Import(e.clone()),
        }
    }
}

/// The outcome of an import: how many notes were written, how many already
/// existed, where they went, and the file of every paper.
#[derive(Debug, Clone)]
pub struct ImportReport {
    pub written: usize,
    pub skipped: usize,
    pub folder: String,
    pub files: Vec<String>,
}

/// The mathematical value of an [`ImportReport`].
pub struct ImportReportView {
    pub written: usize,
    pub skipped: usize,
    pub folder: Seq<char>,
    pub files: Seq<Seq<char>>,
}

impl View for ImportReport {
    type V = ImportReportView;

    open spec fn view(&self) -> ImportReportView {
        ImportReportView {
            written: self.written,
            skipped: self.skipped,
            folder: self.folder@,
            files: strings_view(self.files@),
        }
    }
}

impl ImportReport {
    /// Every paper handled so far was either written or skipped.
    pub open spec fn wf(&self) -> bool {
        self.written + self.skipped == self.files.len()
    }

    /// A report for an import into `folder` that has handled nothing yet.
    pub fn new(folder: String) -> (r: ImportReport)
        ensures
            r.wf(),
            r@ == (ImportReportView { written: 0, skipped: 0, folder: folder@, files: seq![] }),
    {
        let r = ImportReport { written: 0, skipped: 0, folder, files: Vec::new() };
        assert(strings_view(r.files@) == Seq::<Seq<char>>::empty());
        r
    }

    /// Records one paper's note file, newly written or already there.
    pub fn record(&mut self, file: String, was_written: bool)
        requires
            old(self).wf(),
        ensures
            final(self).wf(),
            final(self)@ == (ImportReportView {
                written: if was_written { (old(self).written + 1) as usize } else { old(self).written },
                skipped: if was_written { old(self).skipped } else { (old(self).skipped + 1) as usize },
                folder: old(self).folder@,
                files: old(self)@.files.push(file@),
            }),
    {
        let ghost before = self.files@;
        self.files.push(file);
        let _n = self.files.len();
        assert(strings_view(self.files@) == strings_view(before).push(file@));
        if was_written {
            self.written = self.written + 1;
        } else {
            self.skipped = self.skipped + 1;
        }
    }

    /// A copy of this report.
    pub fn duplicate(&self) -> (r: ImportReport)
        ensures
            r@ == self@,
    {
        ImportReport {
            written: self.written,
            skipped: self.skipped,
            folder: self.folder.clone(),
            files: crate::fetch::copy_strings(&self.files),
        }
    }
}

// ---------------------------------------------------------------------------
// Events and effects
// ---------------------------------------------------------------------------

/// A key, as far as the app tells keys apart.
#[derive(Clone, Copy, PartialEq, Eq, Structural, Debug)]
pub enum KeyCode {
    Char(char),
    Enter,
    Esc,
    Backspace,
    Up,
    Down,
    PageUp,
    PageDown,
    Left,
    Other,
}

/// A key press: the key, and whether Control was held.
#[derive(Clone, Copy, PartialEq, Eq, Structural, Debug)]
pub struct KeyPress {
    pub code: KeyCode,
    pub ctrl: bool,
}

/// One paper's note as the template rendered it: its text, or `None` when
/// the template failed.
#[derive(Debug)]
pub struct RenderedNote {
    pub paper: Paper,
    pub text: Option<String>,
}

/// The mathematical value of a [`RenderedNote`].
pub struct RenderedNoteView {
    pub paper: PaperView,
    pub text: Option<Seq<char>>,
}

impl View for RenderedNote {
    type V = RenderedNoteView;

    open spec fn view(&self) -> RenderedNoteView {
        RenderedNoteView { paper: self.paper@, text: crate::fetch::opt_view(self.text) }
    }
}

/// The views of a sequence of rendered notes.
pub open spec fn notes_view(v: Seq<RenderedNote>) -> Seq<RenderedNoteView> {
    v.map_values(|n: RenderedNote| n@)
}

/// Something that happened.
pub enum AppEvent {
    Input(KeyPress),
    /// The page asked for by [`Effect::Fetch`] for `query` at `offset`.
    FetchSucceeded { query: String, offset: usize, papers: Vec<Paper> },
    FetchFailed(AppError),
    /// The notes asked for by [`Effect::Render`] were rendered, for `topic`.
    NotesRendered { topic: String, notes: Vec<RenderedNote> },
    ImportSucceeded(ImportReport),
    ImportFailed(AppError),
    Tick,
}

/// The mathematical value of an [`AppEvent`].
pub enum AppEventView {
    Input(KeyPress),
    FetchSucceeded { query: Seq<char>, offset: usize, papers: Seq<PaperView> },
    FetchFailed(AppErrorView),
    NotesRendered { topic: Seq<char>, notes: Seq<RenderedNoteView> },
    ImportSucceeded(ImportReportView),
    ImportFailed(AppErrorView),
    Tick,
}

impl View for AppEvent {
    type V = AppEventView;

    open spec fn view(&self) -> AppEventView {
        match self {
            AppEvent::Input(k) => AppEventView::Input(*k),
            AppEvent::FetchSucceeded { query, offset, papers } => AppEventView::FetchSucceeded {
                query: query@,
                offset: *offset,
                papers: papers_view(papers@),
            },
            AppEvent::FetchFailed(e) => AppEventView::FetchFailed(e@),
            AppEvent::NotesRendered { topic, notes } => AppEventView::NotesRendered {
                topic: topic@,
                notes: notes_view(notes@),
            },
            AppEvent::ImportSucceeded(r) => AppEventView::ImportSucceeded(r@),
            AppEvent::ImportFailed(e) => AppEventView::ImportFailed(e@),
            AppEvent::Tick => AppEventView::Tick,
        }
    }
}

/// Outside work that the reducer asks for.
#[derive(Debug)]
pub enum Effect {
    /// Fetch one page of search results.
    Fetch { query: String, offset: usize },
    /// Render these papers' notes with the state's template engine, for
    /// `topic`, and hand them back as [`AppEvent::NotesRendered`].
    Render { papers: Vec<Paper>, topic: String },
    /// Write these papers' notes (already rendered, one per paper) into the vault.
    Import { papers: Vec<Paper>, topic: String, rendered: Vec<String> },
}

/// The mathematical value of an [`Effect`].
pub enum EffectView {
    Fetch { query: Seq<char>, offset: usize },
    Render { papers: Seq<PaperView>, topic: Seq<char> },
    Import { papers: Seq<PaperView>, topic: Seq<char>, rendered: Seq<Seq<char>> },
}

impl View for Effect {
    type V = EffectView;

    open spec fn view(&self) -> EffectView {
        match self {
            Effect::Fetch { query, offset } => EffectView::Fetch { query: query@, offset: *offset },
            Effect::Render { papers, topic } => EffectView::Render {
                papers: papers_view(papers@),
                topic: topic@,
            },
            Effect::Import { papers, topic, rendered } => EffectView::Import {
                papers: papers_view(papers@),
                topic: topic@,
                rendered: strings_view(rendered@),
            },
        }
    }
}

/// The views of a sequence of effects.
pub open spec fn effects_view(v: Seq<Effect>) -> Seq<EffectView> {
    v.map_values(|e: Effect| e@)
}

// ---------------------------------------------------------------------------
// The page cache
// ---------------------------------------------------------------------------

/// One page of results kept for a (query, offset) pair.
pub struct CachedPage {
    pub query: String,
    pub offset: usize,
    pub papers: Vec<Paper>,
}

/// The mathematical value of a [`CachedPage`].
pub struct CachedPageView {
    pub query: Seq<char>,
    pub offset: usize,
    pub papers: Seq<PaperView>,
}

impl View for CachedPage {
    type V = CachedPageView;

    open spec fn view(&self) -> CachedPageView {
        CachedPageView { query: self.query@, offset: self.offset, papers: papers_view(self.papers@) }
    }
}

/// The views of the pages in a cache.
pub open spec fn pages_view(v: Seq<CachedPage>) -> Seq<CachedPageView> {
    v.map_values(|p: CachedPage| p@)
}

/// Where the page for `(query, offset)` sits in the cache, or -1.
pub open spec fn page_index(c: Seq<CachedPageView>, query: Seq<char>, offset: usize) -> int
    decreases c.len(),
{
    if c.len() == 0 {
        -1
    } else if c.last().query == query && c.last().offset == offset {
        c.len() - 1
    } else {
        page_index(c.drop_last(), query, offset)
    }
}

/// The cached papers for `(query, offset)`, if that page is cached.
pub open spec fn cached_page(c: Seq<CachedPageView>, query: Seq<char>, offset: usize) -> Option<
    Seq<PaperView>,
> {
    let i = page_index(c, query, offset);
    if i >= 0 {
        Some(c[i].papers)
    } else {
        None
    }
}

/// The cache with `papers` stored for `(query, offset)`, replacing what was there.
pub open spec fn cache_store(
    c: Seq<CachedPageView>,
    query: Seq<char>,
    offset: usize,
    papers: Seq<PaperView>,
) -> Seq<CachedPageView> {
    let i = page_index(c, query, offset);
    let page = CachedPageView { query, offset, papers };
    if i >= 0 {
        c.update(i, page)
    } else {
        c.push(page)
    }
}

/// No two pages of the cache have the same key.
pub open spec fn keys_unique(c: Seq<CachedPageView>) -> bool {
    forall|i: int, j: int|
        0 <= i < j < c.len() ==> !(#[trigger] c[i].query == #[trigger] c[j].query && c[i].offset
            == c[j].offset)
}

proof fn lemma_page_index(c: Seq<CachedPageView>, query: Seq<char>, offset: usize)
    ensures
        -1 <= page_index(c, query, offset) < c.len(),
        page_index(c, query, offset) >= 0 ==> c[page_index(c, query, offset)].query == query
            && c[page_index(c, query, offset)].offset == offset,
        page_index(c, query, offset) < 0 ==> forall|k: int|
            0 <= k < c.len() ==> !(#[trigger] c[k].query == query && c[k].offset == offset),
    decreases c.len(),
{
    if c.len() > 0 {
        lemma_page_index(c.drop_last(), query, offset);
        if !(c.last().query == query && c.last().offset == offset) {
            assert forall|k: int| 0 <= k < c.len() - 1 implies #[trigger] c[k] == c.drop_last()[k] by {
            }
        }
    }
}

proof fn lemma_cache_store_keeps_keys_unique(
    c: Seq<CachedPageView>,
    query: Seq<char>,
    offset: usize,
    papers: Seq<PaperView>,
)
    requires
        keys_unique(c),
    ensures
        keys_unique(cache_store(c, query, offset, papers)),
        cached_page(cache_store(c, query, offset, papers), query, offset) == Some(papers),
{
    lemma_page_index(c, query, offset);
    let d = cache_store(c, query, offset, papers);
    lemma_page_index(d, query, offset);
    let i = page_index(c, query, offset);
    if i >= 0 {
        assert forall|a: int, b: int|
            0 <= a < b < d.len() implies !(#[trigger] d[a].query == #[trigger] d[b].query
            && d[a].offset == d[b].offset) by {
            if a != i && b != i {
                assert(d[a] == c[a] && d[b] == c[b]);
            }
        }
        let j = page_index(d, query, offset);
        assert(d[i].query == query && d[i].offset == offset);
        if j != i {
            if j >= 0 {
                if j < i {
                    assert(d[j].query == d[i].query);
                } else {
                    assert(d[i].query == d[j].query);
                }
            }
        }
    } else {
        assert(d[d.len() - 1].query == query);
        let j = page_index(d, query, offset);
        if j >= 0 && j != d.len() - 1 {
            assert(d[j] == c[j]);
        }
        assert forall|a: int, b: int|
            0 <= a < b < d.len() implies !(#[trigger] d[a].query == #[trigger] d[b].query
            && d[a].offset == d[b].offset) by {
            if b < d.len() - 1 {
                assert(d[a] == c[a] && d[b] == c[b]);
            } else {
                assert(d[a] == c[a]);
            }
        }
    }
}

fn find_page(cache: &Vec<CachedPage>, query: &String, offset: usize) -> (r: Option<usize>)
    ensures
        match r {
            Some(i) => i as int == page_index(pages_view(cache@), query@, offset),
            None => page_index(pages_view(cache@), query@, offset) == -1,
        },
{
    let mut i: usize = cache.len();
    let ghost full = pages_view(cache@);
    assert(full.take(i as int) == full);
    while i > 0
        invariant
            i <= cache.len(),
            full == pages_view(cache@),
            page_index(full, query@, offset) == page_index(full.take(i as int), query@, offset),
        decreases i,
    {
        let page = &cache[i - 1];
        assert(full.take(i as int).last() == page@);
        assert(full.take(i as int).drop_last() == full.take(i - 1));
        if page.offset == offset && page.query == *query {
            return Some(i - 1);
        }
        i = i - 1;
    }
    None
}

// ---------------------------------------------------------------------------
// The state
// ---------------------------------------------------------------------------

/// Everything the app knows.
pub struct AppState {
    pub config: Config,
    pub screen: Screen,
    pub papers: Vec<Paper>,
    /// The ids of the selected papers, each once.
    pub selected: Vec<String>,
    pub cursor: usize,
    pub topic_cursor: usize,
    pub loading: bool,
    pub loading_frame: usize,
    pub error: Option<AppError>,
    pub query: String,
    pub topic: String,
    pub editing_query: bool,
    pub status: String,
    pub import_report: Option<ImportReport>,
    pub wants_quit: bool,
    pub preview_scroll: u16,
    /// Pagination: the index of the first result of the current page.
    pub offset: usize,
    /// The template engine, built once at startup.
    pub tera: tera::Tera,
    /// Pages already fetched, keyed by (query, offset), each key once.
    pub page_cache: Vec<CachedPage>,
}

/// The mathematical value of an [`AppState`] (the template engine aside).
pub struct AppStateView {
    pub config: ConfigView,
    pub screen: Screen,
    pub papers: Seq<PaperView>,
    pub selected: Seq<Seq<char>>,
    pub cursor: usize,
    pub topic_cursor: usize,
    pub loading: bool,
    pub loading_frame: usize,
    pub error: Option<AppErrorView>,
    pub query: Seq<char>,
    pub topic: Seq<char>,
    pub editing_query: bool,
    pub status: Seq<char>,
    pub import_report: Option<ImportReportView>,
    pub wants_quit: bool,
    pub preview_scroll: u16,
    pub offset: usize,
    pub page_cache: Seq<CachedPageView>,
}

/// The view of an optional error.
pub open spec fn opt_error_view(e: Option<AppError>) -> Option<AppErrorView> {
    match e {
        Some(e) => Some(e@),
        None => None,
    }
}

/// The view of an optional report.
pub open spec fn opt_report_view(r: Option<ImportReport>) -> Option<ImportReportView> {
    match r {
        Some(r) => Some(r@),
        None => None,
    }
}

impl View for AppState {
    type V = AppStateView;

    open spec fn view(&self) -> AppStateView {
        AppStateView {
            config: self.config@,
            screen: self.screen,
            papers: papers_view(self.papers@),
            selected: strings_view(self.selected@),
            cursor: self.cursor,
            topic_cursor: self.topic_cursor,
            loading: self.loading,
            loading_frame: self.loading_frame,
            error: opt_error_view(self.error),
            query: self.query@,
            topic: self.topic@,
            editing_query: self.editing_query,
            status: self.status@,
            import_report: opt_report_view(self.import_report),
            wants_quit: self.wants_quit,
            preview_scroll: self.preview_scroll,
            offset: self.offset,
            page_cache: pages_view(self.page_cache@),
        }
    }
}

/// What every state the app reaches satisfies: the spinner frame is one of
/// four, no paper is selected twice, no page is cached twice, and the
/// cursors point into their lists (or are 0 when the list is empty).
pub open spec fn wf(s: AppStateView) -> bool {
    &&& s.loading_frame < 4
    &&& s.selected.no_duplicates()
    &&& keys_unique(s.page_cache)
    &&& (s.cursor < s.papers.len() || s.cursor == 0)
    &&& (s.topic_cursor < s.config.topics.len() || s.topic_cursor == 0)
}

impl AppState {
    /// This state satisfies [`wf`].
    pub open spec fn wf(&self) -> bool {
        wf(self@)
    }
}

/// The status line on the start screen.
pub open spec fn start_status() -> Seq<char> {
    "Choose a topic or edit the search, then press Enter."@
}

/// The status line when going back to the results.
pub open spec fn browse_status() -> Seq<char> {
    "Continue browsing. Enter imports selected papers."@
}

/// The topic name of a search typed by hand.
pub open spec fn custom_search() -> Seq<char> {
    "Custom Search"@
}

/// The state a configuration starts the app in: the first topic (or an
/// empty custom search when there are no topics) on the start screen.
pub open spec fn initial_state(c: ConfigView) -> AppStateView {
    let first = if c.topics.len() > 0 {
        c.topics[0]
    } else {
        TopicView { name: custom_search(), query: seq![] }
    };
    AppStateView {
        config: c,
        screen: Screen::Start,
        papers: seq![],
        selected: seq![],
        cursor: 0,
        topic_cursor: 0,
        loading: false,
        loading_frame: 0,
        error: None,
        query: first.query,
        topic: first.name,
        editing_query: false,
        status: start_status(),
        import_report: None,
        wants_quit: false,
        preview_scroll: 0,
        offset: 0,
        page_cache: seq![],
    }
}

impl AppState {
    /// The app's first state for `config`. `template` is the note template's
    /// text, or `None` when it could not be loaded (every note render then
    /// fails).
    pub fn new(config: Config, template: Option<String>) -> (s: AppState)
        ensures
            s@ == initial_state(config@),
            s.wf(),
            engine_templates(s.tera) == note_engine_templates(
                match template {
                    Some(t) => Some(t@),
                    None => None,
                },
            ),
    {
        let (query, topic) = if config.topics.len() > 0 {
            (config.topics[0].query.clone(), config.topics[0].name.clone())
        } else {
            (String::new(), String::from_str("Custom Search"))
        };
        let tera = match &template {
            Some(t) => note_engine(Some(t.as_str())),
            None => note_engine(None),
        };
        let s = AppState {
            config,
            screen: Screen::Start,
            papers: Vec::new(),
            selected: Vec::new(),
            cursor: 0,
            topic_cursor: 0,
            loading: false,
            loading_frame: 0,
            error: None,
            query,
            topic,
            editing_query: false,
            status: String::from_str("Choose a topic or edit the search, then press Enter."),
            import_report: None,
            wants_quit: false,
            preview_scroll: 0,
            offset: 0,
            tera,
            page_cache: Vec::new(),
        };
        assert(s@.papers == Seq::<PaperView>::empty());
        assert(s@.selected == Seq::<Seq<char>>::empty());
        assert(s@.page_cache == Seq::<CachedPageView>::empty());
        s
    }
}


// ---------------------------------------------------------------------------
// The transitions, as functions of the state's value
// ---------------------------------------------------------------------------

/// The state with `wants_quit` set.
pub open spec fn quit(s: AppStateView) -> AppStateView {
    AppStateView { wants_quit: true, ..s }
}

/// "Page P · N papers for 'Q'", P counting pages of twenty from 1.
pub open spec fn page_status(offset: usize, count: nat, query: Seq<char>) -> Seq<char> {
    "Page "@ + decimal((offset / 20 + 1) as nat) + " · "@ + decimal(count) + " papers for '"@
        + query + "'"@
}

/// Fetching the current page: nothing while a request is under way; an
/// error for an empty query; the cached page if there is one; otherwise a
/// fetch request for the trimmed query at the current offset.
pub open spec fn fetch_current(s: AppStateView) -> (AppStateView, Seq<EffectView>) {
    if s.loading {
        (s, seq![])
    } else {
        let q = trimmed(s.query);
        if q.len() == 0 {
            (
                AppStateView {
                    error: Some(AppErrorView::EmptyQuery),
                    status: "Type a search query with / before fetching."@,
                    ..s
                },
                seq![],
            )
        } else {
            match cached_page(s.page_cache, q, s.offset) {
                Some(ps) => (
                    AppStateView {
                        papers: ps,
                        cursor: 0,
                        preview_scroll: 0,
                        screen: Screen::Results,
                        error: None,
                        status: page_status(s.offset, ps.len(), q) + " (cached)"@,
                        ..s
                    },
                    seq![],
                ),
                None => (
                    AppStateView {
                        loading: true,
                        error: None,
                        status: "Fetching papers for '"@ + q + "'..."@,
                        ..s
                    },
                    seq![EffectView::Fetch { query: q, offset: s.offset }],
                ),
            }
        }
    }
}

/// Moving the cursor one step down (or up): through the topics on the start
/// screen, picking up the topic's name and query; through the papers on the
/// results screen; nowhere on the import screen. The cursor stops at the ends.
pub open spec fn move_cursor(s: AppStateView, down: bool) -> AppStateView {
    match s.screen {
        Screen::Start => {
            let n = s.config.topics.len();
            let last: int = if n == 0 { 0 } else { n - 1 };
            let tc: int = if down {
                if s.topic_cursor + 1 <= last { s.topic_cursor + 1 } else { last }
            } else {
                if s.topic_cursor == 0 { 0 } else { s.topic_cursor - 1 }
            };
            let moved = AppStateView { topic_cursor: tc as usize, ..s };
            if tc < n {
                let t = s.config.topics[tc];
                AppStateView {
                    topic: t.name,
                    query: t.query,
                    status: if t.query.len() == 0 {
                        "Press / to type a custom search."@
                    } else {
                        "Press Enter to fetch this topic."@
                    },
                    ..moved
                }
            } else {
                moved
            }
        },
        Screen::Results => {
            if s.papers.len() == 0 {
                s
            } else {
                let c: int = if down {
                    if s.cursor + 1 <= s.papers.len() - 1 { s.cursor + 1 } else { s.papers.len() - 1 }
                } else {
                    if s.cursor == 0 { 0 } else { s.cursor - 1 }
                };
                AppStateView { cursor: c as usize, preview_scroll: 0, ..s }
            }
        },
        Screen::Imported => s,
    }
}

/// The selection with the paper under the cursor toggled in or out.
pub open spec fn toggle_selection(s: AppStateView) -> AppStateView {
    if s.cursor < s.papers.len() {
        let id = s.papers[s.cursor as int].id;
        if s.selected.contains(id) {
            AppStateView { selected: s.selected.remove_value(id), ..s }
        } else {
            AppStateView { selected: s.selected.push(id), ..s }
        }
    } else {
        s
    }
}

/// A key while the search query is being edited.
pub open spec fn query_key(s: AppStateView, k: KeyPress) -> (AppStateView, Seq<EffectView>) {
    if k.code == KeyCode::Char('c') && k.ctrl {
        (quit(s), seq![])
    } else if k.code == KeyCode::Esc {
        (AppStateView { editing_query: false, status: "Search editing cancelled."@, ..s }, seq![])
    } else if k.code == KeyCode::Enter {
        fetch_current(AppStateView { editing_query: false, offset: 0, page_cache: seq![], ..s })
    } else if k.code == KeyCode::Backspace {
        (
            AppStateView {
                query: if s.query.len() > 0 { s.query.drop_last() } else { s.query },
                ..s
            },
            seq![],
        )
    } else {
        match k.code {
            KeyCode::Char(c) => if !is_control(c) {
                (AppStateView { query: s.query.push(c), topic: custom_search(), ..s }, seq![])
            } else {
                (s, seq![])
            },
            _ => (s, seq![]),
        }
    }
}

/// The key that goes to the next page of results: `n`.
pub open spec fn is_next_page(code: KeyCode) -> bool {
    code == KeyCode::Char('n')
}

/// Whether a key press asks to import the selected papers.
pub open spec fn is_import_request(s: AppStateView, k: KeyPress) -> bool {
    !s.editing_query && k.code == KeyCode::Enter && s.screen == Screen::Results
}

/// A key while browsing (not editing the query), other than an import request.
pub open spec fn browse_key(s: AppStateView, k: KeyPress) -> (AppStateView, Seq<EffectView>) {
    let code = k.code;
    if code == KeyCode::Char('c') && k.ctrl {
        (quit(s), seq![])
    } else if code == KeyCode::Char('q') {
        (quit(s), seq![])
    } else if code == KeyCode::Char('/') || code == KeyCode::Char('e') {
        (
            AppStateView {
                editing_query: true,
                status: "Editing search. Enter fetches, Esc cancels editing."@,
                ..s
            },
            seq![],
        )
    } else if code == KeyCode::Char('j') || code == KeyCode::Down {
        (move_cursor(s, true), seq![])
    } else if code == KeyCode::Char('k') || code == KeyCode::Up {
        (move_cursor(s, false), seq![])
    } else if code == KeyCode::Char('J') || code == KeyCode::PageDown {
        (
            AppStateView {
                preview_scroll: if s.preview_scroll < u16::MAX { (s.preview_scroll + 1) as u16 } else { u16::MAX },
                ..s
            },
            seq![],
        )
    } else if code == KeyCode::Char('K') || code == KeyCode::PageUp {
        (
            AppStateView {
                preview_scroll: if s.preview_scroll > 0 { (s.preview_scroll - 1) as u16 } else { 0 },
                ..s
            },
            seq![],
        )
    } else if is_next_page(code) && s.screen == Screen::Results {
        fetch_current(AppStateView { offset: (s.offset + 20) as usize, ..s })
    } else if code == KeyCode::Left && s.screen == Screen::Results {
        fetch_current(
            AppStateView { offset: if s.offset >= 20 { (s.offset - 20) as usize } else { 0 }, ..s },
        )
    } else if code == KeyCode::Char('p') && s.screen == Screen::Results {
        (AppStateView { preview_scroll: 0, ..s }, seq![])
    } else if code == KeyCode::Char('r') {
        fetch_current(s)
    } else if code == KeyCode::Char('b') {
        let back = if s.screen == Screen::Imported { Screen::Results } else { Screen::Start };
        (
            AppStateView {
                screen: back,
                error: None,
                status: if back == Screen::Start { start_status() } else { browse_status() },
                ..s
            },
            seq![],
        )
    } else if code == KeyCode::Char('t') && s.screen == Screen::Imported {
        (AppStateView { screen: Screen::Start, error: None, status: start_status(), ..s }, seq![])
    } else if code == KeyCode::Char(' ') && s.screen == Screen::Results {
        (toggle_selection(s), seq![])
    } else if code == KeyCode::Enter && s.screen == Screen::Imported {
        (AppStateView { screen: Screen::Results, status: browse_status(), ..s }, seq![])
    } else if code == KeyCode::Enter {
        fetch_current(s)
    } else {
        (s, seq![])
    }
}

/// The rate-limit advice shown when a fetch error mentions HTTP 429.
pub open spec fn rate_limit_status() -> Seq<char> {
    "API Rate Limit Hit. Obtain a free key at https://www.semanticscholar.org/product/api and add it to ~/.config/folio/config.toml"@
}

/// The fetch for `query` at `offset` returned `ps`: show them as the
/// results and cache them under that query and offset.
pub open spec fn on_fetch_succeeded(
    s: AppStateView,
    query: Seq<char>,
    offset: usize,
    ps: Seq<PaperView>,
) -> AppStateView {
    AppStateView {
        loading: false,
        error: None,
        cursor: 0,
        preview_scroll: 0,
        screen: Screen::Results,
        import_report: None,
        page_cache: cache_store(s.page_cache, query, offset, ps),
        papers: ps,
        status: if ps.len() == 0 {
            "No papers found. Try a broader query."@
        } else {
            page_status(s.offset, ps.len(), s.query)
        },
        ..s
    }
}

/// A fetch failed with `e`.
pub open spec fn on_fetch_failed(s: AppStateView, e: AppErrorView) -> AppStateView {
    let m = error_message(e);
    AppStateView {
        loading: false,
        error: Some(e),
        status: if has_infix(m, "429"@) || has_infix(m, "Too Many Requests"@) {
            rate_limit_status()
        } else {
            "Fetch failed: "@ + m
        },
        ..s
    }
}

/// The status line after an import.
pub open spec fn import_status(r: ImportReportView) -> Seq<char> {
    if r.skipped > 0 {
        "Imported "@ + decimal(r.written as nat) + " papers ("@ + decimal(r.skipped as nat)
            + " skipped) to "@ + r.folder
    } else {
        "Imported "@ + decimal(r.written as nat) + " papers to "@ + r.folder
    }
}

/// An import finished with report `r`.
pub open spec fn on_import_succeeded(s: AppStateView, r: ImportReportView) -> AppStateView {
    AppStateView {
        loading: false,
        error: None,
        selected: seq![],
        status: import_status(r),
        import_report: Some(r),
        screen: Screen::Imported,
        ..s
    }
}

/// An import failed with `e`.
pub open spec fn on_import_failed(s: AppStateView, e: AppErrorView) -> AppStateView {
    AppStateView { loading: false, error: Some(e), status: "Import failed"@, ..s }
}

/// A timer tick: the spinner moves on one of its four frames.
pub open spec fn on_tick(s: AppStateView) -> AppStateView {
    AppStateView { loading_frame: ((s.loading_frame + 1) % 4) as usize, ..s }
}

/// Whether every note was rendered.
pub open spec fn all_rendered(notes: Seq<RenderedNoteView>) -> bool {
    forall|i: int| 0 <= i < notes.len() ==> (#[trigger] notes[i]).text is Some
}

/// The papers of the rendered notes, in order.
pub open spec fn note_papers(notes: Seq<RenderedNoteView>) -> Seq<PaperView> {
    notes.map_values(|n: RenderedNoteView| n.paper)
}

/// The texts of the rendered notes, in order.
pub open spec fn note_texts_of(notes: Seq<RenderedNoteView>) -> Seq<Seq<char>> {
    notes.map_values(|n: RenderedNoteView| n.text.unwrap())
}

/// The rendered notes came back: when every one rendered, ask to import
/// the papers with those texts; otherwise report the template error.
pub open spec fn on_notes_rendered(
    s: AppStateView,
    topic: Seq<char>,
    notes: Seq<RenderedNoteView>,
) -> (AppStateView, Seq<EffectView>) {
    if all_rendered(notes) {
        (
            s,
            seq![
                EffectView::Import {
                    papers: note_papers(notes),
                    topic,
                    rendered: note_texts_of(notes),
                },
            ],
        )
    } else {
        (render_failed(s), seq![])
    }
}

/// An import request: nothing while busy; a complaint when nothing is
/// selected; otherwise start loading and ask for the selected papers'
/// notes to be rendered for the current topic.
pub open spec fn import_request(s: AppStateView) -> (AppStateView, Seq<EffectView>) {
    if s.loading {
        (s, seq![])
    } else {
        let ps = selected_papers(s);
        if ps.len() == 0 {
            (nothing_selected(s), seq![])
        } else {
            (import_started(s, ps.len()), seq![EffectView::Render { papers: ps, topic: s.topic }])
        }
    }
}

/// The next state and the effects to start, for every event.
pub open spec fn step(s: AppStateView, ev: AppEventView) -> (AppStateView, Seq<EffectView>) {
    match ev {
        AppEventView::Input(k) => if s.editing_query {
            query_key(s, k)
        } else if is_import_request(s, k) {
            import_request(s)
        } else {
            browse_key(s, k)
        },
        AppEventView::FetchSucceeded { query, offset, papers } => (
            on_fetch_succeeded(s, query, offset, papers),
            seq![],
        ),
        AppEventView::FetchFailed(e) => (on_fetch_failed(s, e), seq![]),
        AppEventView::NotesRendered { topic, notes } => on_notes_rendered(s, topic, notes),
        AppEventView::ImportSucceeded(r) => (on_import_succeeded(s, r), seq![]),
        AppEventView::ImportFailed(e) => (on_import_failed(s, e), seq![]),
        AppEventView::Tick => (on_tick(s), seq![]),
    }
}

/// The papers among `ps` whose ids are in `sel`, in order.
pub open spec fn chosen(ps: Seq<PaperView>, sel: Seq<Seq<char>>) -> Seq<PaperView>
    decreases ps.len(),
{
    if ps.len() == 0 {
        seq![]
    } else {
        let r = chosen(ps.drop_last(), sel);
        if sel.contains(ps.last().id) {
            r.push(ps.last())
        } else {
            r
        }
    }
}

/// The papers an import takes: the selected ones, or else the one under the
/// cursor, if any.
pub open spec fn selected_papers(s: AppStateView) -> Seq<PaperView> {
    let c = chosen(s.papers, s.selected);
    if c.len() > 0 {
        c
    } else if s.cursor < s.papers.len() {
        seq![s.papers[s.cursor as int]]
    } else {
        seq![]
    }
}

/// The state once the import of `n` papers has started.
pub open spec fn import_started(s: AppStateView, n: nat) -> AppStateView {
    AppStateView {
        loading: true,
        error: None,
        status: "Importing "@ + decimal(n) + " papers to Obsidian..."@,
        ..s
    }
}

/// The state when a note could not be rendered.
pub open spec fn render_failed(s: AppStateView) -> AppStateView {
    AppStateView {
        loading: false,
        error: Some(AppErrorView::Import(render_failure_message())),
        status: "Template error: "@ + render_failure_message(),
        ..s
    }
}

/// The state when there is nothing to import.
pub open spec fn nothing_selected(s: AppStateView) -> AppStateView {
    AppStateView {
        error: Some(AppErrorView::NothingSelected),
        status: "Select with space, or highlight a paper and press Enter."@,
        ..s
    }
}

/// The one machine limit of a step: moving to the next page must not take
/// the offset past `usize::MAX`.
pub open spec fn can_step(s: AppStateView, ev: AppEventView) -> bool {
    match ev {
        AppEventView::Input(k) => (!s.editing_query && is_next_page(k.code) && s.screen
            == Screen::Results) ==> s.offset + 20 <= usize::MAX,
        _ => true,
    }
}


// ---------------------------------------------------------------------------
// The transitions
// ---------------------------------------------------------------------------

fn page_status_text(offset: usize, count: usize, query: &str) -> (r: String)
    ensures
        r@ == page_status(offset, count as nat, query@),
{
    let mut r = String::from_str("Page ");
    let page = decimal_string((offset / 20 + 1) as u64);
    r.append(page.as_str());
    r.append(" · ");
    let n = decimal_string(count as u64);
    r.append(n.as_str());
    r.append(" papers for '");
    r.append(query);
    r.append("'");
    r
}

/// Stores `papers` in the cache under `(query, offset)`.
fn store_page(cache: &mut Vec<CachedPage>, query: String, offset: usize, papers: Vec<Paper>)
    requires
        keys_unique(pages_view(old(cache)@)),
    ensures
        pages_view(final(cache)@) == cache_store(
            pages_view(old(cache)@),
            query@,
            offset,
            papers_view(papers@),
        ),
        keys_unique(pages_view(final(cache)@)),
{
    proof {
        lemma_cache_store_keeps_keys_unique(
            pages_view(cache@),
            query@,
            offset,
            papers_view(papers@),
        );
    }
    let found = find_page(cache, &query, offset);
    let ghost before = pages_view(cache@);
    let page = CachedPage { query, offset, papers };
    match found {
        Some(i) => {
            proof {
                lemma_page_index(before, page@.query, offset);
            }
            cache.set(i, page);
            assert(pages_view(cache@) == before.update(i as int, page@));
        },
        None => {
            cache.push(page);
            assert(pages_view(cache@) == before.push(page@));
        },
    }
}

/// Fetches the current page (see the spec function of the same name).
fn fetch_current_page(state: &mut AppState) -> (effects: Vec<Effect>)
    requires
        wf(old(state)@),
    ensures
        final(state).tera == old(state).tera,
        (final(state)@, effects_view(effects@)) == fetch_current(old(state)@),
        wf(final(state)@),
{
    if state.loading {
        let e: Vec<Effect> = Vec::new();
        assert(effects_view(e@) == Seq::<EffectView>::empty());
        return e;
    }
    let q = trim(state.query.as_str());
    if q.as_str().is_empty() {
        state.error = Some(AppError::EmptyQuery);
        state.status = String::from_str("Type a search query with / before fetching.");
        let e: Vec<Effect> = Vec::new();
        assert(effects_view(e@) == Seq::<EffectView>::empty());
        return e;
    }
    let ghost cache = pages_view(state.page_cache@);
    proof {
        lemma_page_index(cache, q@, state.offset);
    }
    match find_page(&state.page_cache, &q, state.offset) {
        Some(i) => {
            assert(cache[i as int] == state.page_cache@[i as int]@);
            let ps = copy_papers(&state.page_cache[i].papers);
            let mut status = page_status_text(state.offset, ps.len(), q.as_str());
            status.append(" (cached)");
            state.papers = ps;
            state.cursor = 0;
            state.preview_scroll = 0;
            state.screen = Screen::Results;
            state.error = None;
            state.status = status;
            let e: Vec<Effect> = Vec::new();
            assert(effects_view(e@) == Seq::<EffectView>::empty());
            e
        },
        None => {
            state.loading = true;
            state.error = None;
            let mut status = String::from_str("Fetching papers for '");
            status.append(q.as_str());
            status.append("'...");
            state.status = status;
            let e = vec![Effect::Fetch { query: q, offset: state.offset }];
            assert(effects_view(e@) == seq![e@[0]@]);
            e
        },
    }
}

/// Moves the cursor (see [`move_cursor`]).
fn move_the_cursor(state: &mut AppState, down: bool)
    requires
        wf(old(state)@),
    ensures
        final(state).tera == old(state).tera,
        final(state)@ == move_cursor(old(state)@, down),
        wf(final(state)@),
{
    match state.screen {
        Screen::Start => {
            let n = state.config.topics.len();
            let last = if n == 0 {
                0
            } else {
                n - 1
            };
            let tc = if down {
                if state.topic_cursor + 1 <= last {
                    state.topic_cursor + 1
                } else {
                    last
                }
            } else {
                if state.topic_cursor == 0 {
                    0
                } else {
                    state.topic_cursor - 1
                }
            };
            state.topic_cursor = tc;
            if tc < n {
                let name = state.config.topics[tc].name.clone();
                let query = state.config.topics[tc].query.clone();
                let empty = query.as_str().is_empty();
                state.topic = name;
                state.query = query;
                state.status = if empty {
                    String::from_str("Press / to type a custom search.")
                } else {
                    String::from_str("Press Enter to fetch this topic.")
                };
            }
        },
        Screen::Results => {
            if state.papers.len() > 0 {
                let len = state.papers.len();
                let c = if down {
                    if state.cursor + 1 <= len - 1 {
                        state.cursor + 1
                    } else {
                        len - 1
                    }
                } else {
                    if state.cursor == 0 {
                        0
                    } else {
                        state.cursor - 1
                    }
                };
                state.cursor = c;
                state.preview_scroll = 0;
            }
        },
        Screen::Imported => {},
    }
}

/// Where `id` sits in `list`, if it is there.
fn position(list: &Vec<String>, id: &String) -> (r: Option<usize>)
    ensures
        match r {
            Some(i) => i < list.len() && list@[i as int]@ == id@,
            None => !strings_view(list@).contains(id@),
        },
{
    let mut i: usize = 0;
    while i < list.len()
        invariant
            i <= list.len(),
            forall|k: int| 0 <= k < i ==> list@[k]@ != id@,
        decreases list.len() - i,
    {
        if list[i] == *id {
            return Some(i);
        }
        i = i + 1;
    }
    proof {
        if strings_view(list@).contains(id@) {
            let k = choose|k: int| 0 <= k < strings_view(list@).len() && strings_view(list@)[k] == id@;
            assert(list@[k]@ == id@);
        }
    }
    None
}

proof fn lemma_remove_value_unique(s: Seq<Seq<char>>, i: int)
    requires
        s.no_duplicates(),
        0 <= i < s.len(),
    ensures
        s.remove_value(s[i]) == s.remove(i),
        s.remove(i).no_duplicates(),
{
    s.index_of_first_ensures(s[i]);
    assert(s.contains(s[i]));
    let j = s.index_of_first(s[i]).unwrap();
    assert(s[j] == s[i]);
    assert(j == i);
    assert forall|a: int, b: int|
        0 <= a < s.remove(i).len() && 0 <= b < s.remove(i).len() && a != b implies s.remove(i)[a]
        != s.remove(i)[b] by {
        let a0 = if a < i { a } else { a + 1 };
        let b0 = if b < i { b } else { b + 1 };
        assert(s.remove(i)[a] == s[a0]);
        assert(s.remove(i)[b] == s[b0]);
    }
}

/// Toggles the paper under the cursor in or out of the selection.
fn toggle_selected(state: &mut AppState)
    requires
        wf(old(state)@),
    ensures
        final(state).tera == old(state).tera,
        final(state)@ == toggle_selection(old(state)@),
        wf(final(state)@),
{
    if state.cursor < state.papers.len() {
        let id = state.papers[state.cursor].id.clone();
        let ghost sel = strings_view(state.selected@);
        match position(&state.selected, &id) {
            Some(i) => {
                assert(sel[i as int] == id@);
                proof {
                    lemma_remove_value_unique(sel, i as int);
                }
                state.selected.remove(i);
                assert(strings_view(state.selected@) == sel.remove(i as int));
            },
            None => {
                state.selected.push(id);
                assert(strings_view(state.selected@) == sel.push(id@));
            },
        }
    }
}

/// Handles a key while the query is being edited (see [`query_key`]).
pub fn handle_query_input(state: &mut AppState, key: KeyPress) -> (effects: Vec<Effect>)
    requires
        wf(old(state)@),
    ensures
        final(state).tera == old(state).tera,
        (final(state)@, effects_view(effects@)) == query_key(old(state)@, key),
        wf(final(state)@),
{
    let none: Vec<Effect> = Vec::new();
    assert(effects_view(none@) == Seq::<EffectView>::empty());
    if key.code == KeyCode::Char('c') && key.ctrl {
        state.wants_quit = true;
        none
    } else if key.code == KeyCode::Esc {
        state.editing_query = false;
        state.status = String::from_str("Search editing cancelled.");
        none
    } else if key.code == KeyCode::Enter {
        state.editing_query = false;
        state.offset = 0;
        state.page_cache.clear();
        assert(pages_view(state.page_cache@) == Seq::<CachedPageView>::empty());
        fetch_current_page(state)
    } else if key.code == KeyCode::Backspace {
        let v = chars_of(state.query.as_str());
        if v.len() > 0 {
            let shorter = string_of_range(&v, 0, v.len() - 1);
            assert(v@.subrange(0, v.len() - 1) == v@.drop_last());
            state.query = shorter;
        }
        none
    } else {
        match key.code {
            KeyCode::Char(c) => {
                if !control(c) {
                    crate::text::push_char(&mut state.query, c);
                    state.topic = String::from_str("Custom Search");
                }
                none
            },
            _ => none,
        }
    }
}

/// The papers among `papers` whose ids are in `selected`, in order.
fn chosen_papers(papers: &Vec<Paper>, selected: &Vec<String>) -> (r: Vec<Paper>)
    ensures
        papers_view(r@) == chosen(papers_view(papers@), strings_view(selected@)),
{
    let mut r: Vec<Paper> = Vec::new();
    let mut i: usize = 0;
    let ghost all = papers_view(papers@);
    let ghost sel = strings_view(selected@);
    while i < papers.len()
        invariant
            i <= papers.len(),
            all == papers_view(papers@),
            sel == strings_view(selected@),
            papers_view(r@) == chosen(all.take(i as int), sel),
        decreases papers.len() - i,
    {
        assert(all.take(i + 1).drop_last() == all.take(i as int));
        assert(all.take(i + 1).last() == papers@[i as int]@);
        match position(selected, &papers[i].id) {
            Some(k) => {
                assert(sel[k as int] == papers@[i as int].id@);
                r.push(papers[i].duplicate());
                assert(papers_view(r@) == chosen(all.take(i as int), sel).push(papers@[i as int]@));
            },
            None => {},
        }
        i = i + 1;
    }
    assert(all.take(papers.len() as int) == all);
    r
}

/// The papers an import takes (see the spec function of the same name).
fn selected_papers_of(state: &AppState) -> (r: Vec<Paper>)
    ensures
        papers_view(r@) == selected_papers(state@),
{
    let c = chosen_papers(&state.papers, &state.selected);
    if c.len() > 0 {
        c
    } else if state.cursor < state.papers.len() {
        let p = state.papers[state.cursor].duplicate();
        let r = vec![p];
        assert(papers_view(r@) == seq![state@.papers[state.cursor as int]]);
        r
    } else {
        let r: Vec<Paper> = Vec::new();
        assert(papers_view(r@) == Seq::<PaperView>::empty());
        r
    }
}

/// Starts an import of the selected papers (see [`import_request`]).
fn import_selected(state: &mut AppState) -> (effects: Vec<Effect>)
    requires
        wf(old(state)@),
    ensures
        (final(state)@, effects_view(effects@)) == import_request(old(state)@),
        final(state).tera == old(state).tera,
        wf(final(state)@),
{
    let none: Vec<Effect> = Vec::new();
    assert(effects_view(none@) == Seq::<EffectView>::empty());
    if state.loading {
        return none;
    }
    let papers = selected_papers_of(state);
    if papers.len() == 0 {
        state.error = Some(AppError::NothingSelected);
        state.status = String::from_str("Select with space, or highlight a paper and press Enter.");
        return none;
    }
    state.loading = true;
    state.error = None;
    let mut status = String::from_str("Importing ");
    let count = decimal_string(papers.len() as u64);
    status.append(count.as_str());
    status.append(" papers to Obsidian...");
    state.status = status;
    let topic = state.topic.clone();
    let e = vec![Effect::Render { papers, topic }];
    assert(effects_view(e@) == seq![e@[0]@]);
    e
}

/// The rendered notes came back (see [`on_notes_rendered`]).
fn import_outcome(state: &mut AppState, topic: String, notes: Vec<RenderedNote>) -> (effects: Vec<Effect>)
    requires
        wf(old(state)@),
    ensures
        (final(state)@, effects_view(effects@)) == on_notes_rendered(
            old(state)@,
            topic@,
            notes_view(notes@),
        ),
        final(state).tera == old(state).tera,
        wf(final(state)@),
{
    let ghost nv = notes_view(notes@);
    let mut papers: Vec<Paper> = Vec::new();
    let mut rendered: Vec<String> = Vec::new();
    let mut i: usize = 0;
    while i < notes.len()
        invariant
            i <= notes.len(),
            nv == notes_view(notes@),
            forall|k: int| 0 <= k < i ==> (#[trigger] nv[k]).text is Some,
            papers_view(papers@) == note_papers(nv.take(i as int)),
            strings_view(rendered@) == note_texts_of(nv.take(i as int)),
            state@ == old(state)@,
            state.tera == old(state).tera,
            wf(old(state)@),
        decreases notes.len() - i,
    {
        assert(nv[i as int] == notes@[i as int]@);
        assert(nv.take(i + 1) == nv.take(i as int).push(nv[i as int]));
        match &notes[i].text {
            Some(t) => {
                papers.push(notes[i].paper.duplicate());
                rendered.push(t.clone());
                assert(papers_view(papers@) == note_papers(nv.take(i as int)).push(nv[i as int].paper));
                assert(strings_view(rendered@) == note_texts_of(nv.take(i as int)).push(t@));
                assert(note_papers(nv.take(i + 1)) == note_papers(nv.take(i as int)).push(nv[i as int].paper));
                assert(note_texts_of(nv.take(i + 1)) == note_texts_of(nv.take(i as int)).push(t@));
            },
            None => {
                assert(!all_rendered(nv));
                let msg = crate::templates::NoteError::Render.message();
                state.loading = false;
                state.status = concat("Template error: ", msg.as_str());
                state.error = Some(AppError::Import(msg));
                let failed: Vec<Effect> = Vec::new();
                assert(effects_view(failed@) == Seq::<EffectView>::empty());
                return failed;
            },
        }
        i = i + 1;
    }
    assert(nv.take(notes.len() as int) == nv);
    assert(all_rendered(nv));
    let e = vec![Effect::Import { papers, topic, rendered }];
    assert(effects_view(e@) == seq![e@[0]@]);
    e
}

/// Handles a key press: exactly [`step`] for an `Input` event.
pub fn handle_input(state: &mut AppState, key: KeyPress) -> (effects: Vec<Effect>)
    requires
        wf(old(state)@),
        can_step(old(state)@, AppEventView::Input(key)),
    ensures
        wf(final(state)@),
        (final(state)@, effects_view(effects@)) == step(old(state)@, AppEventView::Input(key)),
        final(state).tera == old(state).tera,
{
    if state.editing_query {
        return handle_query_input(state, key);
    }
    let none: Vec<Effect> = Vec::new();
    assert(effects_view(none@) == Seq::<EffectView>::empty());
    let code = key.code;
    if code == KeyCode::Char('c') && key.ctrl {
        state.wants_quit = true;
        none
    } else if code == KeyCode::Char('q') {
        state.wants_quit = true;
        none
    } else if code == KeyCode::Char('/') || code == KeyCode::Char('e') {
        state.editing_query = true;
        state.status = String::from_str("Editing search. Enter fetches, Esc cancels editing.");
        none
    } else if code == KeyCode::Char('j') || code == KeyCode::Down {
        move_the_cursor(state, true);
        none
    } else if code == KeyCode::Char('k') || code == KeyCode::Up {
        move_the_cursor(state, false);
        none
    } else if code == KeyCode::Char('J') || code == KeyCode::PageDown {
        state.preview_scroll = state.preview_scroll.saturating_add(1);
        none
    } else if code == KeyCode::Char('K') || code == KeyCode::PageUp {
        state.preview_scroll = state.preview_scroll.saturating_sub(1);
        none
    } else if code == KeyCode::Char('n') && state.screen == Screen::Results {
        state.offset = state.offset + 20;
        fetch_current_page(state)
    } else if code == KeyCode::Left && state.screen == Screen::Results {
        state.offset = state.offset.saturating_sub(20);
        fetch_current_page(state)
    } else if code == KeyCode::Char('p') && state.screen == Screen::Results {
        state.preview_scroll = 0;
        none
    } else if code == KeyCode::Char('r') {
        fetch_current_page(state)
    } else if code == KeyCode::Char('b') {
        let back = if state.screen == Screen::Imported {
            Screen::Results
        } else {
            Screen::Start
        };
        state.screen = back;
        state.error = None;
        state.status = if back == Screen::Start {
            String::from_str("Choose a topic or edit the search, then press Enter.")
        } else {
            String::from_str("Continue browsing. Enter imports selected papers.")
        };
        none
    } else if code == KeyCode::Char('t') && state.screen == Screen::Imported {
        state.screen = Screen::Start;
        state.error = None;
        state.status = String::from_str("Choose a topic or edit the search, then press Enter.");
        none
    } else if code == KeyCode::Char(' ') && state.screen == Screen::Results {
        toggle_selected(state);
        none
    } else if code == KeyCode::Enter && state.screen == Screen::Results {
        import_selected(state)
    } else if code == KeyCode::Enter && state.screen == Screen::Imported {
        state.screen = Screen::Results;
        state.status = String::from_str("Continue browsing. Enter imports selected papers.");
        none
    } else if code == KeyCode::Enter {
        fetch_current_page(state)
    } else {
        none
    }
}

/// Applies one event to the state and returns the outside work to start:
/// exactly [`step`]. Every step keeps [`wf`] and the template engine.
pub fn reduce(state: &mut AppState, event: AppEvent) -> (effects: Vec<Effect>)
    requires
        wf(old(state)@),
        can_step(old(state)@, event@),
    ensures
        wf(final(state)@),
        final(state)@ == step(old(state)@, event@).0,
        effects_view(effects@) == step(old(state)@, event@).1,
        final(state).tera == old(state).tera,
{
    let none: Vec<Effect> = Vec::new();
    assert(effects_view(none@) == Seq::<EffectView>::empty());
    match event {
        AppEvent::Input(key) => handle_input(state, key),
        AppEvent::NotesRendered { topic, notes } => import_outcome(state, topic, notes),
        AppEvent::FetchSucceeded { query, offset, papers } => {
            let ghost before = state@;
            state.loading = false;
            state.error = None;
            state.cursor = 0;
            state.preview_scroll = 0;
            state.screen = Screen::Results;
            state.import_report = None;
            let cached = copy_papers(&papers);
            store_page(&mut state.page_cache, query, offset, cached);
            let status = if papers.len() == 0 {
                String::from_str("No papers found. Try a broader query.")
            } else {
                page_status_text(state.offset, papers.len(), state.query.as_str())
            };
            state.papers = papers;
            state.status = status;
            none
        },
        AppEvent::FetchFailed(err) => {
            state.loading = false;
            let msg = err.message();
            state.error = Some(err);
            state.status = if contains(msg.as_str(), "429") || contains(
                msg.as_str(),
                "Too Many Requests",
            ) {
                String::from_str(
                    "API Rate Limit Hit. Obtain a free key at https://www.semanticscholar.org/product/api and add it to ~/.config/folio/config.toml",
                )
            } else {
                concat("Fetch failed: ", msg.as_str())
            };
            none
        },
        AppEvent::ImportSucceeded(report) => {
            state.loading = false;
            state.error = None;
            state.selected.clear();
            assert(strings_view(state.selected@) == Seq::<Seq<char>>::empty());
            let mut status = String::from_str("Imported ");
            let written = decimal_string(report.written as u64);
            status.append(written.as_str());
            if report.skipped > 0 {
                status.append(" papers (");
                let skipped = decimal_string(report.skipped as u64);
                status.append(skipped.as_str());
                status.append(" skipped) to ");
            } else {
                status.append(" papers to ");
            }
            status.append(report.folder.as_str());
            state.status = status;
            state.import_report = Some(report);
            state.screen = Screen::Imported;
            none
        },
        AppEvent::ImportFailed(err) => {
            state.loading = false;
            state.error = Some(err);
            state.status = String::from_str("Import failed");
            none
        },
        AppEvent::Tick => {
            state.loading_frame = (state.loading_frame + 1) % 4;
            none
        },
    }
}


// ---------------------------------------------------------------------------
// Laws
// ---------------------------------------------------------------------------

/// A key press without Control.
pub open spec fn press(code: KeyCode) -> AppEventView {
    AppEventView::Input(KeyPress { code, ctrl: false })
}

/// Control-C quits from every screen and mode, and changes nothing else.
pub proof fn law_ctrl_c_quits(s: AppStateView)
    ensures
        step(s, AppEventView::Input(KeyPress { code: KeyCode::Char('c'), ctrl: true })) == (
            quit(s),
            Seq::<EffectView>::empty(),
        ),
{
}

/// While a request is under way, no key starts another one: every key press
/// asks for no outside work and the state stays busy.
pub proof fn law_busy_starts_nothing(s: AppStateView, k: KeyPress)
    requires
        s.loading,
    ensures
        step(s, AppEventView::Input(k)).1.len() == 0,
        step(s, AppEventView::Input(k)).0.loading,
{
}

/// While a request is under way, asking to fetch again changes nothing.
pub proof fn law_busy_refetch_is_ignored(s: AppStateView)
    requires
        s.loading,
        !s.editing_query,
    ensures
        step(s, press(KeyCode::Char('r'))) == (s, Seq::<EffectView>::empty()),
        fetch_current(s) == (s, Seq::<EffectView>::empty()),
{
}

/// The page a fetch returns is cached under the query and offset that
/// were fetched, whatever the state has become in the meantime.
pub proof fn law_fetched_page_is_cached(
    s: AppStateView,
    query: Seq<char>,
    offset: usize,
    ps: Seq<PaperView>,
)
    requires
        wf(s),
    ensures
        ({
            let s1 = step(s, AppEventView::FetchSucceeded { query, offset, papers: ps }).0;
            cached_page(s1.page_cache, query, offset) == Some(ps) && wf(s1)
        }),
{
    lemma_cache_store_keeps_keys_unique(s.page_cache, query, offset, ps);
}

/// A page that a fetch has returned is served from the cache when asked for
/// again: no new request, the same papers on the results screen.
pub proof fn law_fetched_page_is_served_from_cache(s: AppStateView, ps: Seq<PaperView>)
    requires
        wf(s),
        !s.editing_query,
        trimmed(s.query).len() > 0,
    ensures
        ({
            let q = trimmed(s.query);
            let s1 = step(s, AppEventView::FetchSucceeded { query: q, offset: s.offset, papers: ps }).0;
            let r = step(s1, press(KeyCode::Char('r')));
            &&& r.1.len() == 0
            &&& r.0.papers == ps
            &&& r.0.screen == Screen::Results
            &&& !r.0.loading
            &&& r.0.page_cache == s1.page_cache
        }),
{
    lemma_cache_store_keeps_keys_unique(s.page_cache, trimmed(s.query), s.offset, ps);
}

/// Toggling the selection twice on the same paper leaves the set of
/// selected papers, and everything else, as it was.
pub proof fn law_toggle_twice_restores_selection(s: AppStateView)
    requires
        wf(s),
        !s.editing_query,
        s.screen == Screen::Results,
    ensures
        ({
            let space = press(KeyCode::Char(' '));
            {
                let r1 = step(s, space);
                let r2 = step(r1.0, space);
                &&& r2.0.selected.to_set() == s.selected.to_set()
                &&& AppStateView { selected: s.selected, ..r2.0 } == s
                &&& r1.1.len() == 0 && r2.1.len() == 0
            }
        }),
{
    if s.cursor < s.papers.len() {
        let id = s.papers[s.cursor as int].id;
        let sel = s.selected;
        if sel.contains(id) {
            let i = choose|i: int| 0 <= i < sel.len() && sel[i] == id;
            lemma_remove_value_unique(sel, i);
            let removed = sel.remove(i);
            assert(!removed.contains(id)) by {
                if removed.contains(id) {
                    let k = choose|k: int| 0 <= k < removed.len() && removed[k] == id;
                    let k0 = if k < i { k } else { k + 1 };
                    assert(sel[k0] == id);
                }
            }
            assert(removed.push(id).to_set() =~= sel.to_set()) by {
                assert forall|x: Seq<char>| sel.to_set().contains(x) implies removed.push(id).to_set().contains(x) by {
                    let k = choose|k: int| 0 <= k < sel.len() && sel[k] == x;
                    if k == i {
                        assert(removed.push(id)[removed.len() as int] == x);
                    } else {
                        let k1 = if k < i { k } else { k - 1 };
                        assert(removed.push(id)[k1] == x);
                    }
                }
                assert forall|x: Seq<char>| removed.push(id).to_set().contains(x) implies sel.to_set().contains(x) by {
                    let k = choose|k: int| 0 <= k < removed.push(id).len() && removed.push(id)[k] == x;
                    if k == removed.len() {
                        assert(sel[i] == x);
                    } else {
                        let k0 = if k < i { k } else { k + 1 };
                        assert(sel[k0] == x);
                    }
                }
            }
        } else {
            let pushed = sel.push(id);
            assert(pushed.contains(id)) by {
                assert(pushed[sel.len() as int] == id);
            }
            assert(pushed.no_duplicates());
            lemma_remove_value_unique(pushed, sel.len() as int);
            assert(pushed.remove(sel.len() as int) =~= sel);
        }
    }
}

/// Whether a paper is in the selection.
pub open spec fn is_selected(sel: Seq<Seq<char>>) -> spec_fn(PaperView) -> bool {
    |p: PaperView| sel.contains(p.id)
}

proof fn lemma_chosen_is_filter(ps: Seq<PaperView>, sel: Seq<Seq<char>>)
    ensures
        chosen(ps, sel) == ps.filter(is_selected(sel)),
    decreases ps.len(),
{
    reveal(Seq::filter);
    if ps.len() > 0 {
        lemma_chosen_is_filter(ps.drop_last(), sel);
    }
}

/// The papers an import takes, when some are selected, are exactly the
/// page's papers whose ids are selected, in page order: every such paper is
/// taken, and no other.
pub proof fn law_chosen_are_the_selected_papers(ps: Seq<PaperView>, sel: Seq<Seq<char>>)
    ensures
        chosen(ps, sel) == ps.filter(is_selected(sel)),
        forall|i: int| 0 <= i < ps.len() && sel.contains(ps[i].id) ==> #[trigger] chosen(ps, sel).contains(ps[i]),
        forall|i: int| 0 <= i < chosen(ps, sel).len() ==> sel.contains(#[trigger] chosen(ps, sel)[i].id),
        (forall|i: int| 0 <= i < ps.len() ==> sel.contains(#[trigger] ps[i].id)) ==> chosen(ps, sel) == ps,
{
    lemma_chosen_is_filter(ps, sel);
    let f = is_selected(sel);
    assert forall|i: int| 0 <= i < ps.len() && sel.contains(ps[i].id) implies #[trigger] chosen(ps, sel).contains(ps[i]) by {
        assert(f(ps[i]));
        ps.lemma_filter_contains(f, i);
    }
    assert forall|i: int| 0 <= i < chosen(ps, sel).len() implies sel.contains(#[trigger] chosen(ps, sel)[i].id) by {
        ps.lemma_filter_pred(f, i);
    }
    if forall|i: int| 0 <= i < ps.len() ==> sel.contains(#[trigger] ps[i].id) {
        lemma_filter_all(ps, f);
    }
}

proof fn lemma_filter_all(ps: Seq<PaperView>, f: spec_fn(PaperView) -> bool)
    requires
        forall|i: int| 0 <= i < ps.len() ==> f(#[trigger] ps[i]),
    ensures
        ps.filter(f) == ps,
    decreases ps.len(),
{
    reveal(Seq::filter);
    if ps.len() > 0 {
        assert forall|i: int| 0 <= i < ps.drop_last().len() implies f(#[trigger] ps.drop_last()[i]) by {
            assert(ps.drop_last()[i] == ps[i]);
        }
        lemma_filter_all(ps.drop_last(), f);
        assert(f(ps[ps.len() - 1]));
        assert(ps.drop_last().push(ps.last()) == ps);
    }
}

/// Enter on the results screen, with papers selected and nothing under
/// way, asks to render exactly the selected papers of the page, in page
/// order, for the current topic, and says how many.
pub proof fn law_import_takes_the_selected_papers(s: AppStateView)
    requires
        !s.editing_query,
        !s.loading,
        s.screen == Screen::Results,
        s.papers.filter(is_selected(s.selected)).len() > 0,
    ensures
        ({
            let ps = s.papers.filter(is_selected(s.selected));
            let r = step(s, press(KeyCode::Enter));
            &&& r.1 == seq![EffectView::Render { papers: ps, topic: s.topic }]
            &&& r.0.loading
            &&& r.0.status == "Importing "@ + decimal(ps.len()) + " papers to Obsidian..."@
        }),
{
    lemma_chosen_is_filter(s.papers, s.selected);
}

/// Enter on the results screen with no paper of the page selected imports
/// the paper under the cursor alone; with no papers at all it reports that
/// nothing is selected and asks for nothing.
pub proof fn law_import_falls_back_to_the_highlighted_paper(s: AppStateView)
    requires
        !s.editing_query,
        !s.loading,
        s.screen == Screen::Results,
        s.papers.filter(is_selected(s.selected)).len() == 0,
    ensures
        ({
            let r = step(s, press(KeyCode::Enter));
            &&& s.cursor < s.papers.len() ==> r.1 == seq![
                EffectView::Render { papers: seq![s.papers[s.cursor as int]], topic: s.topic },
            ]
            &&& s.papers.len() == 0 ==> r.1.len() == 0 && r.0.error == Some(AppErrorView::NothingSelected)
                && !r.0.loading
        }),
{
    lemma_chosen_is_filter(s.papers, s.selected);
}

/// Asking for a page (Enter on the start screen) while nothing is under way
/// fetches the query with white space trimmed from its ends, at the current
/// offset, unless that page is cached, and then shows the cached papers
/// without a request; an all-blank query is refused with an error.
pub proof fn law_fetch_asks_for_the_trimmed_query(s: AppStateView)
    requires
        !s.editing_query,
        !s.loading,
        s.screen == Screen::Start,
    ensures
        ({
            let q = trimmed(s.query);
            let r = step(s, press(KeyCode::Enter));
            &&& q.len() == 0 ==> r.1.len() == 0 && r.0.error == Some(AppErrorView::EmptyQuery)
            &&& q.len() > 0 && cached_page(s.page_cache, q, s.offset) is None ==> r.1 == seq![
                EffectView::Fetch { query: q, offset: s.offset },
            ] && r.0.loading
            &&& q.len() > 0 && cached_page(s.page_cache, q, s.offset) is Some ==> r.1.len() == 0
                && r.0.papers == cached_page(s.page_cache, q, s.offset).unwrap() && r.0.screen
                == Screen::Results && !r.0.loading
        }),
{
}

/// A failed fetch stops loading and keeps the error; when its message
/// mentions HTTP 429 the status gives the rate-limit advice, otherwise it
/// shows the message after "Fetch failed: ".
pub proof fn law_fetch_failure_is_reported(s: AppStateView, e: AppErrorView)
    ensures
        ({
            let r = step(s, AppEventView::FetchFailed(e));
            &&& r.1.len() == 0
            &&& !r.0.loading
            &&& r.0.error == Some(e)
            &&& has_infix(error_message(e), "429"@) ==> r.0.status == rate_limit_status()
            &&& !has_infix(error_message(e), "429"@) && !has_infix(error_message(e), "Too Many Requests"@)
                ==> r.0.status == "Fetch failed: "@ + error_message(e)
        }),
{
}

/// A finished import clears the selection, keeps the report, shows the
/// import screen and stops loading.
pub proof fn law_import_success_clears_the_selection(s: AppStateView, rep: ImportReportView)
    ensures
        ({
            let r = step(s, AppEventView::ImportSucceeded(rep));
            &&& r.1.len() == 0
            &&& r.0.selected.len() == 0
            &&& r.0.import_report == Some(rep)
            &&& r.0.screen == Screen::Imported
            &&& !r.0.loading
            &&& r.0.papers == s.papers
        }),
{
}

/// On the start screen, moving the topic cursor down or up with topics
/// present picks the topic under the cursor: the state's topic and query
/// are that topic's name and query, and the cursor moves one step unless it
/// is at an end.
pub proof fn law_topic_cursor_picks_its_topic(s: AppStateView, down: bool)
    requires
        wf(s),
        !s.editing_query,
        s.screen == Screen::Start,
        0 < s.config.topics.len() <= usize::MAX,
    ensures
        ({
            let r = step(s, press(if down { KeyCode::Char('j') } else { KeyCode::Char('k') })).0;
            &&& r.topic_cursor < s.config.topics.len()
            &&& r.topic == s.config.topics[r.topic_cursor as int].name
            &&& r.query == s.config.topics[r.topic_cursor as int].query
            &&& down && s.topic_cursor + 1 < s.config.topics.len() ==> r.topic_cursor == s.topic_cursor + 1
            &&& !down && s.topic_cursor > 0 ==> r.topic_cursor == s.topic_cursor - 1
        }),
{
    let k = KeyPress { code: if down { KeyCode::Char('j') } else { KeyCode::Char('k') }, ctrl: false };
    assert(!is_import_request(s, k));
    assert(browse_key(s, k) == (move_cursor(s, down), Seq::<EffectView>::empty()));
    assert(step(s, AppEventView::Input(k)) == (move_cursor(s, down), Seq::<EffectView>::empty()));
}

/// On the results screen, moving down goes to the next paper and moving up
/// to the previous one (staying put at the ends), and moving down then up
/// from a paper that is not the last comes back to it.
pub proof fn law_results_cursor_steps_by_one(s: AppStateView)
    requires
        wf(s),
        !s.editing_query,
        s.screen == Screen::Results,
        0 < s.papers.len() <= usize::MAX,
    ensures
        ({
            let down = step(s, press(KeyCode::Char('j'))).0;
            let up = step(s, press(KeyCode::Char('k'))).0;
            &&& s.cursor + 1 < s.papers.len() ==> down.cursor == s.cursor + 1
            &&& s.cursor + 1 >= s.papers.len() ==> down.cursor == s.cursor
            &&& s.cursor > 0 ==> up.cursor == s.cursor - 1
            &&& s.cursor == 0 ==> up.cursor == 0
            &&& s.cursor + 1 < s.papers.len() ==> step(down, press(KeyCode::Char('k'))).0.cursor
                == s.cursor
        }),
{
    let j = KeyPress { code: KeyCode::Char('j'), ctrl: false };
    let k = KeyPress { code: KeyCode::Char('k'), ctrl: false };
    assert(browse_key(s, j) == (move_cursor(s, true), Seq::<EffectView>::empty()));
    assert(browse_key(s, k) == (move_cursor(s, false), Seq::<EffectView>::empty()));
    let d = move_cursor(s, true);
    assert(d.screen == Screen::Results && !d.editing_query && d.papers == s.papers);
    assert(browse_key(d, k) == (move_cursor(d, false), Seq::<EffectView>::empty()));
}

/// Every spinner frame comes back after four ticks, and a tick changes
/// nothing but the frame.
pub proof fn law_four_ticks_restore_the_frame(s: AppStateView)
    requires
        wf(s),
    ensures
        on_tick(on_tick(on_tick(on_tick(s)))) == s,
        (AppStateView { loading_frame: s.loading_frame, ..on_tick(s) }) == s,
        wf(on_tick(s)),
        step(s, AppEventView::Tick) == (on_tick(s), Seq::<EffectView>::empty()),
{
}

/// While editing the query, typing a printable character appends it, makes
/// the search a custom one and starts nothing; erasing it then gives the
/// query back, still editing.
pub proof fn law_type_then_erase(s: AppStateView, c: char)
    requires
        s.editing_query,
        !is_control(c),
    ensures
        ({
            let r1 = step(s, press(KeyCode::Char(c)));
            let r2 = step(r1.0, press(KeyCode::Backspace));
            &&& r1.0.query == s.query.push(c)
            &&& r1.0.topic == custom_search()
            &&& r1.0.wants_quit == s.wants_quit
            &&& r1.1.len() == 0
            &&& r2.0.query == s.query
            &&& r2.0.editing_query
            &&& r2.1.len() == 0
        }),
{
    assert(s.query.push(c).drop_last() == s.query);
}

/// Esc stops editing and keeps the query as typed.
pub proof fn law_escape_keeps_query(s: AppStateView)
    requires
        s.editing_query,
    ensures
        ({
            let r = step(s, press(KeyCode::Esc));
            r.0.query == s.query && !r.0.editing_query && r.1.len() == 0
        }),
{
}

/// Submitting an edited query starts a new search: the cache is emptied and
/// the first page is asked for.
pub proof fn law_new_search_starts_over(s: AppStateView)
    requires
        s.editing_query,
    ensures
        ({
            let r = step(s, press(KeyCode::Enter));
            r.0.page_cache.len() == 0 && r.0.offset == 0 && !r.0.editing_query
        }),
{
}

/// Going to the next page and back returns to the same offset.
pub proof fn law_next_then_previous_page(s: AppStateView)
    requires
        !s.editing_query,
        s.screen == Screen::Results,
        s.offset + 20 <= usize::MAX,
    ensures
        ({
            let r1 = step(s, press(KeyCode::Char('n')));
            let r2 = step(r1.0, press(KeyCode::Left));
            r2.0.offset == s.offset
        }),
{
}

/// `p` previews the paper under the cursor: it shows its preview from the
/// top, on the same page of results, and fetches nothing.
pub proof fn law_p_previews(s: AppStateView)
    requires
        !s.editing_query,
        s.screen == Screen::Results,
    ensures
        step(s, press(KeyCode::Char('p'))) == (
            AppStateView { preview_scroll: 0, ..s },
            Seq::<EffectView>::empty(),
        ),
{
}

/// When every note of an import renders, the import is asked for with
/// exactly those papers and texts; when one fails, the template error is
/// reported and nothing is asked for.
pub proof fn law_rendered_notes_are_imported(
    s: AppStateView,
    topic: Seq<char>,
    notes: Seq<RenderedNoteView>,
)
    ensures
        ({
            let r = step(s, AppEventView::NotesRendered { topic, notes });
            &&& all_rendered(notes) ==> r == (
                s,
                seq![EffectView::Import { papers: note_papers(notes), topic, rendered: note_texts_of(notes) }],
            )
            &&& !all_rendered(notes) ==> r == (render_failed(s), Seq::<EffectView>::empty())
        }),
{
}

} // verus!
