//! What the screens say: titles, labels, the footer and the spinner, and the
//! geometry of the loading pop-up. Drawing them is the terminal front end's
//! business.
use vstd::prelude::*;
use vstd::string::*;

use crate::app::{error_message, AppError, AppState, Screen};
use crate::fetch::{opt_view, strings_view};
use crate::text::{char_count, concat, decimal, decimal_string, first_chars, join, take_chars};

verus! {

/// The header's title for each screen.
pub open spec fn header_title_of(screen: Screen) -> Seq<char> {
    match screen {
        Screen::Start => " Librarian "@,
        Screen::Results => " Librarian Results "@,
        Screen::Imported => " Import Complete "@,
    }
}

/// The header's title for `screen`.
pub fn header_title(screen: Screen) -> (r: &'static str)
    ensures
        r@ == header_title_of(screen),
{
    match screen {
        Screen::Start => " Librarian ",
        Screen::Results => " Librarian Results ",
        Screen::Imported => " Import Complete ",
    }
}

/// The key help shown in the footer of each screen.
pub open spec fn controls_of(screen: Screen) -> Seq<char> {
    match screen {
        Screen::Start => "Enter fetch  / edit  j/k move  q quit"@,
        Screen::Results => "j/k move  J/K scroll  p preview  space select  Enter import  n/← page  b back  q quit"@,
        Screen::Imported => "Enter continue  t topics  q quit"@,
    }
}

/// The key help for `screen`.
pub fn controls(screen: Screen) -> (r: &'static str)
    ensures
        r@ == controls_of(screen),
{
    match screen {
        Screen::Start => "Enter fetch  / edit  j/k move  q quit",
        Screen::Results => "j/k move  J/K scroll  p preview  space select  Enter import  n/← page  b back  q quit",
        Screen::Imported => "Enter continue  t topics  q quit",
    }
}

/// The spinner's glyph for each frame; frames past nine all show the last.
pub open spec fn spinner_glyph(frame: usize) -> Seq<char> {
    if frame == 0 {
        "⠋"@
    } else if frame == 1 {
        "⠙"@
    } else if frame == 2 {
        "⠹"@
    } else if frame == 3 {
        "⠸"@
    } else if frame == 4 {
        "⠼"@
    } else if frame == 5 {
        "⠴"@
    } else if frame == 6 {
        "⠦"@
    } else if frame == 7 {
        "⠧"@
    } else if frame == 8 {
        "⠇"@
    } else {
        "⠏"@
    }
}

/// The spinner glyph for `frame`.
pub fn spinner(frame: usize) -> (r: &'static str)
    ensures
        r@ == spinner_glyph(frame),
{
    if frame == 0 {
        "⠋"
    } else if frame == 1 {
        "⠙"
    } else if frame == 2 {
        "⠹"
    } else if frame == 3 {
        "⠸"
    } else if frame == 4 {
        "⠼"
    } else if frame == 5 {
        "⠴"
    } else if frame == 6 {
        "⠦"
    } else if frame == 7 {
        "⠧"
    } else if frame == 8 {
        "⠇"
    } else {
        "⠏"
    }
}

/// The query as shown on the start screen, with a hint when it is empty.
pub open spec fn shown_query(query: Seq<char>) -> Seq<char> {
    if query.len() == 0 {
        "type a search query"@
    } else {
        query
    }
}

/// The query as the start screen shows it.
pub fn display_query(state: &AppState) -> (r: String)
    ensures
        r@ == shown_query(state.query@),
{
    if state.query.as_str().is_empty() {
        String::from_str("type a search query")
    } else {
        state.query.clone()
    }
}

/// The name of the topic under the topic cursor, or "Custom".
pub open spec fn current_topic_name(s: crate::app::AppStateView) -> Seq<char> {
    if s.topic_cursor < s.config.topics.len() {
        s.config.topics[s.topic_cursor as int].name
    } else {
        "Custom"@
    }
}

/// The name of the topic under the topic cursor.
pub fn topic_name(state: &AppState) -> (r: String)
    ensures
        r@ == current_topic_name(state@),
{
    if state.topic_cursor < state.config.topics.len() {
        state.config.topics[state.topic_cursor].name.clone()
    } else {
        String::from_str("Custom")
    }
}

/// The footer's message: the spinner while loading, else the last error,
/// else the status line.
pub open spec fn footer_message(s: crate::app::AppStateView) -> Seq<char> {
    if s.loading {
        spinner_glyph(s.loading_frame) + " Working..."@
    } else {
        match s.error {
            Some(e) => "Error: "@ + error_message(e),
            None => s.status,
        }
    }
}

/// The footer's message for `state`.
pub fn footer_text(state: &AppState) -> (r: String)
    ensures
        r@ == footer_message(state@),
{
    if state.loading {
        concat(spinner(state.loading_frame), " Working...")
    } else {
        match &state.error {
            Some(e) => {
                let m = e.message();
                concat("Error: ", m.as_str())
            },
            None => state.status.clone(),
        }
    }
}

/// A title as the results list shows it: titles longer than 55 characters
/// are cut to 52 and end in "...".
pub open spec fn list_title_of(title: Seq<char>) -> Seq<char> {
    if title.len() > 55 {
        first_chars(title, 52) + "..."@
    } else {
        title
    }
}

/// `title` as the results list shows it.
pub fn list_title(title: &str) -> (r: String)
    ensures
        r@ == list_title_of(title@),
        r@.len() <= 55,
{
    if char_count(title) > 55 {
        let mut r = take_chars(title, 52);
        r.append("...");
        proof {
            reveal_strlit("...");
        }
        r
    } else {
        String::from_str(title)
    }
}

/// The selection mark in front of a paper in the results list.
pub open spec fn marker_of(selected: bool) -> Seq<char> {
    if selected {
        "[x] "@
    } else {
        "[ ] "@
    }
}

/// Whether the paper with `id` is selected, and its mark.
pub fn selection_marker(state: &AppState, id: &String) -> (r: (bool, &'static str))
    ensures
        r.0 == strings_view(state.selected@).contains(id@),
        r.1@ == marker_of(r.0),
{
    let mut i: usize = 0;
    while i < state.selected.len()
        invariant
            i <= state.selected.len(),
            forall|k: int| 0 <= k < i ==> state.selected@[k]@ != id@,
        decreases state.selected.len() - i,
    {
        if state.selected[i] == *id {
            assert(strings_view(state.selected@)[i as int] == id@);
            return (true, "[x] ");
        }
        i = i + 1;
    }
    proof {
        if strings_view(state.selected@).contains(id@) {
            let k = choose|k: int|
                0 <= k < strings_view(state.selected@).len() && strings_view(state.selected@)[k]
                    == id@;
            assert(state.selected@[k]@ == id@);
        }
    }
    (false, "[ ] ")
}

/// The results list's title: " Papers (Page N) ", N counting pages of
/// twenty from 1.
pub open spec fn page_title_of(offset: usize) -> Seq<char> {
    " Papers (Page "@ + decimal((offset / 20 + 1) as nat) + ") "@
}

/// The results list's title for `offset`.
pub fn page_title(offset: usize) -> (r: String)
    ensures
        r@ == page_title_of(offset),
{
    let mut r = String::from_str(" Papers (Page ");
    let n = decimal_string((offset / 20 + 1) as u64);
    r.append(n.as_str());
    r.append(") ");
    r
}

/// The authors line of the preview: "Unknown" or the names joined by ", ".
pub open spec fn authors_line_of(authors: Seq<Seq<char>>) -> Seq<char> {
    if authors.len() == 0 {
        "Unknown"@
    } else {
        join(authors, ", "@)
    }
}

/// The authors line of the preview for `authors`.
pub fn authors_line(authors: &Vec<String>) -> (r: String)
    ensures
        r@ == authors_line_of(strings_view(authors@)),
{
    if authors.len() == 0 {
        return String::from_str("Unknown");
    }
    let ghost all = strings_view(authors@);
    let mut r = authors[0].clone();
    let mut i: usize = 1;
    assert(all.take(1) =~= seq![all[0]]);
    while i < authors.len()
        invariant
            1 <= i <= authors.len(),
            all == strings_view(authors@),
            r@ == join(all.take(i as int), ", "@),
        decreases authors.len() - i,
    {
        assert(all.take(i + 1).drop_last() == all.take(i as int));
        r.append(", ");
        r.append(authors[i].as_str());
        i = i + 1;
    }
    assert(all.take(authors.len() as int) == all);
    r
}

/// The lines listing an import's files: at most ten, then how many more.
pub open spec fn file_lines_of(files: Seq<Seq<char>>) -> Seq<Seq<char>> {
    let shown = if files.len() > 10 { files.take(10) } else { files };
    let listed = shown.map_values(|f: Seq<char>| "- "@ + f);
    if files.len() > 10 {
        listed.push("- ... and "@ + decimal((files.len() - 10) as nat) + " more"@)
    } else {
        listed
    }
}

/// The file list shows the first ten files, each after "- ", in order, and
/// then one line counting the files left out when there are more than ten.
pub proof fn law_file_lines_show_ten(files: Seq<Seq<char>>)
    ensures
        ({
            let lines = file_lines_of(files);
            &&& lines.len() == (if files.len() > 10 { 11 } else { files.len() })
            &&& forall|i: int| 0 <= i < files.len() && i < 10 ==> #[trigger] lines[i] == "- "@ + files[i]
            &&& files.len() > 10 ==> lines[10] == "- ... and "@ + decimal((files.len() - 10) as nat)
                + " more"@
        }),
{
}

/// The lines listing the files of an import.
pub fn file_lines(files: &Vec<String>) -> (r: Vec<String>)
    ensures
        strings_view(r@) == file_lines_of(strings_view(files@)),
{
    let ghost all = strings_view(files@);
    let shown = if files.len() > 10 {
        10
    } else {
        files.len()
    };
    let ghost kept = if files.len() > 10 { all.take(10) } else { all };
    assert(kept == all.take(shown as int));
    let mut r: Vec<String> = Vec::new();
    let mut i: usize = 0;
    while i < shown
        invariant
            i <= shown <= files.len(),
            all == strings_view(files@),
            strings_view(r@) == all.take(i as int).map_values(|f: Seq<char>| "- "@ + f),
        decreases shown - i,
    {
        let line = concat("- ", files[i].as_str());
        let ghost prev = strings_view(r@);
        r.push(line);
        assert(strings_view(r@) =~= prev.push(line@));
        assert(all.take(i + 1).map_values(|f: Seq<char>| "- "@ + f) =~= all.take(i as int).map_values(
            |f: Seq<char>| "- "@ + f,
        ).push("- "@ + all[i as int]));
        i = i + 1;
    }
    if files.len() > 10 {
        let mut more = String::from_str("- ... and ");
        let n = decimal_string((files.len() - 10) as u64);
        more.append(n.as_str());
        more.append(" more");
        let ghost prev = strings_view(r@);
        r.push(more);
        assert(strings_view(r@) =~= prev.push(more@));
    }
    r
}

/// The loading pop-up's rectangle: `width` by `height` (each at most the
/// area's), centred in the area `(x, y, w, h)`.
pub open spec fn centered(width: u16, height: u16, area: (u16, u16, u16, u16)) -> (
    u16,
    u16,
    u16,
    u16,
) {
    let w = if width <= area.2 { width } else { area.2 };
    let h = if height <= area.3 { height } else { area.3 };
    let x = area.0 + (area.2 - w) / 2;
    let y = area.1 + (area.3 - h) / 2;
    (x as u16, y as u16, w, h)
}

/// A `width` by `height` rectangle centred in `area` (given as
/// `(x, y, width, height)`), shrunk to fit.
pub fn centered_rect(width: u16, height: u16, area: (u16, u16, u16, u16)) -> (r: (
    u16,
    u16,
    u16,
    u16,
))
    requires
        area.0 + area.2 <= u16::MAX,
        area.1 + area.3 <= u16::MAX,
    ensures
        r == centered(width, height, area),
        area.0 <= r.0,
        r.0 + r.2 <= area.0 + area.2,
        area.1 <= r.1,
        r.1 + r.3 <= area.1 + area.3,
{
    let w = if width <= area.2 {
        width
    } else {
        area.2
    };
    let h = if height <= area.3 {
        height
    } else {
        area.3
    };
    let x = area.0 + area.2.saturating_sub(w) / 2;
    let y = area.1 + area.3.saturating_sub(h) / 2;
    (x, y, w, h)
}

/// Whether the screen needs drawing again after an event: always after a
/// real event, and after a tick only while the spinner shows.
pub fn needs_redraw(is_tick: bool, loading: bool) -> (r: bool)
    ensures
        r == (!is_tick || loading),
{
    !is_tick || loading
}

} // verus!
