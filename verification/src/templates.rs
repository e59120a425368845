//! Notes for papers, with the Tera template engine: the engine that holds
//! the note template, the context a note is rendered in, and what a render
//! comes to. Running a template is left to the caller: a user's template can
//! recurse without end or make the engine's functions panic.
use vstd::prelude::*;
use vstd::string::*;

use crate::fetch::{strings_view, Paper, PaperView};
use crate::text::{first_chars, lowercase, replace_char, replaced, take_chars, to_lowercase};

verus! {

#[verifier::external_type_specification]
#[verifier::external_body]
pub struct ExTera(tera::Tera);

#[verifier::external_type_specification]
#[verifier::external_body]
pub struct ExContext(tera::Context);

#[verifier::external_type_specification]
#[verifier::external_body]
pub struct ExTeraError(tera::Error);

/// The string values that a Tera context holds, by key.
pub uninterp spec fn context_texts(c: tera::Context) -> Map<Seq<char>, Seq<char>>;

/// The list-of-strings values that a Tera context holds, by key.
pub uninterp spec fn context_lists(c: tera::Context) -> Map<Seq<char>, Seq<Seq<char>>>;

/// `tera::Context::new`: a context that holds nothing.
#[verifier::external_body]
fn context_new() -> (c: tera::Context)
    ensures
        context_texts(c).dom().is_empty(),
        context_lists(c).dom().is_empty(),
{
    tera::Context::new()
}

/// `tera::Context::insert` with a string value: the key now holds that
/// string, whatever it held before (the context is a map from keys to JSON
/// values; a string always serializes).
#[verifier::external_body]
fn context_insert_text(c: &mut tera::Context, key: &str, value: &str)
    ensures
        context_texts(*final(c)) == context_texts(*old(c)).insert(key@, value@),
        context_lists(*final(c)) == context_lists(*old(c)).remove(key@),
{
    c.insert(key, value);
}

/// `tera::Context::insert` with a list of strings: the key now holds that
/// list, whatever it held before.
#[verifier::external_body]
fn context_insert_list(c: &mut tera::Context, key: &str, values: &Vec<String>)
    ensures
        context_lists(*final(c)) == context_lists(*old(c)).insert(key@, strings_view(values@)),
        context_texts(*final(c)) == context_texts(*old(c)).remove(key@),
{
    c.insert(key, values);
}

/// The names of the templates a Tera engine holds.
pub uninterp spec fn engine_templates(t: tera::Tera) -> Set<Seq<char>>;

/// Whether an engine that holds no template accepts `content` as a template
/// named `name`: it parses, extends no template (there is no parent to
/// find, and extending itself is circular), and imports macros from no
/// template but itself.
pub uninterp spec fn template_accepted(name: Seq<char>, content: Seq<char>) -> bool;

/// `<tera::Tera as Default>::default`: an engine with the built-in filters,
/// testers and functions and no templates.
#[verifier::external_body]
fn tera_default() -> (t: tera::Tera)
    ensures
        engine_templates(t).is_empty(),
{
    tera::Tera::default()
}

/// `tera::Tera::add_raw_template`: parses `content`, registers it under
/// `name`, then checks the inheritance chains and macro imports of all the
/// engine's templates. On success the engine holds `name` besides what it
/// held; on failure it holds what it held, with `name` too when only the
/// later checks failed. On an engine without templates, success is a
/// question of `name` and `content` alone ([`template_accepted`]). What the
/// engine does with the template otherwise is not stated: it is opaque here.
#[verifier::external_body]
fn tera_add_raw_template(t: &mut tera::Tera, name: &str, content: &str) -> (r: Result<(), tera::Error>)
    ensures
        r is Ok ==> engine_templates(*final(t)) == engine_templates(*old(t)).insert(name@),
        r is Err ==> engine_templates(*final(t)) == engine_templates(*old(t))
            || engine_templates(*final(t)) == engine_templates(*old(t)).insert(name@),
        engine_templates(*old(t)).is_empty() ==> (r is Ok <==> template_accepted(name@, content@)),
{
    t.add_raw_template(name, content)
}

/// The text of the note template used when the user has none of their own.
pub const DEFAULT_NOTE_TEMPLATE: &'static str = r#"---
title: {{ title | json_encode() | safe }}
authors: {{ authors | json_encode() | safe }}
author_short: {{ author_short | json_encode() | safe }}
year: "{{ year }}"
published: "{{ published }}"
source: "{{ source }}"
topic: "{{ topic }}"
arxiv_id: "{{ arxiv_id }}"
semantic_scholar_id: "{{ semantic_scholar_id }}"
url: "{{ url }}"
pdf: "{{ pdf_url }}"
abstract: {{ abstract_text | json_encode() | safe }}
status: unread
tags:
  - paper
  - "{{ topic_tag }}"
saved: "{{ saved_date }}"
---

# {{ title }}

> [!info] Meta
> **Authors:** {{ author_short }}
> **Published:** {{ published }}
> **Source:** [Abstract]({{ url }}){% if pdf_url %} · [PDF]({{ pdf_url }}){% endif %}

## Abstract

{{ abstract_text }}

## Reading Notes

> [!note] Your notes here

"#;

/// The note template used when the user has none of their own.
pub fn default_note_template() -> (r: &'static str)
    ensures
        r@ == DEFAULT_NOTE_TEMPLATE@,
{
    DEFAULT_NOTE_TEMPLATE
}

/// The templates of the engine [`note_engine`] builds: `note` when a
/// template is given and accepted, none otherwise.
pub open spec fn note_engine_templates(template: Option<Seq<char>>) -> Set<Seq<char>> {
    match template {
        Some(c) => if template_accepted("note"@, c) {
            set!["note"@]
        } else {
            Set::empty()
        },
        None => Set::empty(),
    }
}

/// The template engine the app renders notes with: the given template
/// registered as `note`, or an engine without templates (every render then
/// fails) when there is no template or it is not accepted.
pub fn note_engine(template: Option<&str>) -> (t: tera::Tera)
    ensures
        engine_templates(t) == note_engine_templates(
            match template {
                Some(c) => Some(c@),
                None => None,
            },
        ),
{
    match template {
        Some(content) => {
            let mut engine = tera_default();
            match tera_add_raw_template(&mut engine, "note", content) {
                Ok(()) => engine,
                Err(_) => tera_default(),
            }
        },
        None => tera_default(),
    }
}

/// How the authors are credited in short: "Unknown authors" for none, the
/// one name, both names, or the first two and "et al.".
pub open spec fn authors_short(a: Seq<Seq<char>>) -> Seq<char> {
    if a.len() == 0 {
        "Unknown authors"@
    } else if a.len() == 1 {
        a[0]
    } else if a.len() == 2 {
        a[0] + ", "@ + a[1]
    } else {
        a[0] + ", "@ + a[1] + " et al."@
    }
}

/// The short credit names the first author alone, or the first two
/// authors separated by ", "; with more than two it is those two and
/// " et al.", however many more there are (so it is the credit of the
/// first three alone).
pub proof fn law_author_short_credits_the_first_two(a: Seq<Seq<char>>)
    ensures
        a.len() == 0 ==> authors_short(a) == "Unknown authors"@,
        a.len() == 1 ==> authors_short(a) == a[0],
        a.len() == 2 ==> authors_short(a) == a[0] + ", "@ + a[1],
        a.len() >= 2 ==> (a[0] + ", "@ + a[1]).len() <= authors_short(a).len()
            && authors_short(a).take((a[0] + ", "@ + a[1]).len() as int) == a[0] + ", "@ + a[1],
        a.len() > 2 ==> authors_short(a) == a[0] + ", "@ + a[1] + " et al."@,
        a.len() > 2 ==> authors_short(a) == authors_short(a.take(3)),
{
    let head = a[0] + ", "@ + a[1];
    if a.len() >= 2 {
        if a.len() > 2 {
            assert((head + " et al."@).take(head.len() as int) =~= head);
            assert(a.take(3)[0] == a[0] && a.take(3)[1] == a[1]);
        } else {
            assert(head.take(head.len() as int) =~= head);
        }
    }
}

/// The short author credit for `authors`.
pub fn author_short(authors: &Vec<String>) -> (r: String)
    ensures
        r@ == authors_short(strings_view(authors@)),
{
    if authors.len() == 0 {
        String::from_str("Unknown authors")
    } else if authors.len() == 1 {
        authors[0].clone()
    } else {
        let mut r = authors[0].clone();
        r.append(", ");
        r.append(authors[1].as_str());
        if authors.len() > 2 {
            r.append(" et al.");
        }
        r
    }
}

/// An Obsidian tag for a topic: lowercased, spaces turned into dashes.
pub open spec fn topic_tag(topic: Seq<char>) -> Seq<char> {
    replaced(lowercase(topic), ' ', "-"@)
}

/// The value of an optional field, or the empty string.
pub open spec fn or_empty(o: Option<Seq<char>>) -> Seq<char> {
    match o {
        Some(s) => s,
        None => seq![],
    }
}

/// The string values a note's context holds.
pub open spec fn note_texts(p: PaperView, topic: Seq<char>, saved_date: Seq<char>) -> Map<
    Seq<char>,
    Seq<char>,
> {
    map![
        "title"@ => p.title,
        "author_short"@ => authors_short(p.authors),
        "published"@ => p.published,
        "year"@ => first_chars(p.published, 4),
        "source"@ => p.source,
        "topic"@ => topic,
        "topic_tag"@ => topic_tag(topic),
        "arxiv_id"@ => or_empty(p.arxiv_id),
        "semantic_scholar_id"@ => or_empty(p.semantic_scholar_id),
        "url"@ => p.abs_url,
        "pdf_url"@ => or_empty(p.pdf_url),
        "abstract_text"@ => p.abstract_text,
        "saved_date"@ => saved_date,
    ]
}

/// The list values a note's context holds: the authors.
pub open spec fn note_lists(p: PaperView) -> Map<Seq<char>, Seq<Seq<char>>> {
    map!["authors"@ => p.authors]
}

fn opt_str(o: &Option<String>) -> (r: &str)
    ensures
        r@ == or_empty(crate::fetch::opt_view(*o)),
{
    match o {
        Some(s) => {
            assert(crate::fetch::opt_view(*o) == Some(s@));
            s.as_str()
        },
        None => {
            proof {
                reveal_strlit("");
            }
            ""
        },
    }
}

/// The context a paper's note is rendered with.
#[verifier::rlimit(60)]
pub fn note_context(paper: &Paper, topic: &str, saved_date: &str) -> (c: tera::Context)
    ensures
        context_texts(c) == note_texts(paper@, topic@, saved_date@),
        context_lists(c) == note_lists(paper@),
{
    proof {
        reveal_strlit("");
        reveal_strlit("title");
        reveal_strlit("authors");
        reveal_strlit("author_short");
        reveal_strlit("published");
        reveal_strlit("year");
        reveal_strlit("source");
        reveal_strlit("topic");
        reveal_strlit("topic_tag");
        reveal_strlit("arxiv_id");
        reveal_strlit("semantic_scholar_id");
        reveal_strlit("url");
        reveal_strlit("pdf_url");
        reveal_strlit("abstract_text");
        reveal_strlit("saved_date");
        assert("title"@[1] != "topic"@[1]);
        assert("authors"@[0] != "pdf_url"@[0]);
        assert("published"@[0] != "topic_tag"@[0]);
        assert("authors"@[6] != "author_short"@[6]);
        assert("authors"@[1] != "arxiv_id"@[1]);
        assert("authors"@[1] != "abstract_text"@[1]);
    }
    let mut c = context_new();
    assert(context_texts(c) =~= Map::<Seq<char>, Seq<char>>::empty());
    assert(context_lists(c) =~= Map::<Seq<char>, Seq<Seq<char>>>::empty());
    context_insert_text(&mut c, "title", paper.title.as_str());
    assert(context_lists(c) =~= Map::<Seq<char>, Seq<Seq<char>>>::empty());
    context_insert_list(&mut c, "authors", &paper.authors);
    assert(context_lists(c) =~= note_lists(paper@));
    let short = author_short(&paper.authors);
    context_insert_text(&mut c, "author_short", short.as_str());
    assert(context_lists(c) =~= note_lists(paper@));
    context_insert_text(&mut c, "published", paper.published.as_str());
    assert(context_lists(c) =~= note_lists(paper@));
    let year = take_chars(paper.published.as_str(), 4);
    context_insert_text(&mut c, "year", year.as_str());
    assert(context_lists(c) =~= note_lists(paper@));
    context_insert_text(&mut c, "source", paper.source.as_str());
    assert(context_lists(c) =~= note_lists(paper@));
    context_insert_text(&mut c, "topic", topic);
    assert(context_lists(c) =~= note_lists(paper@));
    let lower = to_lowercase(topic);
    let tag = replace_char(lower.as_str(), ' ', "-");
    context_insert_text(&mut c, "topic_tag", tag.as_str());
    assert(context_lists(c) =~= note_lists(paper@));
    context_insert_text(&mut c, "arxiv_id", opt_str(&paper.arxiv_id));
    assert(context_lists(c) =~= note_lists(paper@));
    context_insert_text(&mut c, "semantic_scholar_id", opt_str(&paper.semantic_scholar_id));
    assert(context_lists(c) =~= note_lists(paper@));
    context_insert_text(&mut c, "url", paper.abs_url.as_str());
    assert(context_lists(c) =~= note_lists(paper@));
    context_insert_text(&mut c, "pdf_url", opt_str(&paper.pdf_url));
    assert(context_lists(c) =~= note_lists(paper@));
    context_insert_text(&mut c, "abstract_text", paper.abstract_text.as_str());
    assert(context_lists(c) =~= note_lists(paper@));
    context_insert_text(&mut c, "saved_date", saved_date);
    assert(context_lists(c) =~= note_lists(paper@));
    assert(context_texts(c) =~= note_texts(paper@, topic@, saved_date@));
    assert(context_lists(c) =~= note_lists(paper@));
    c
}

/// Why a note could not be rendered.
#[derive(Debug)]
pub enum NoteError {
    /// The template engine failed (a broken template, or no `note` template).
    Render,
}

impl NoteError {
    /// The message shown for this error.
    pub fn message(&self) -> (r: String)
        ensures
            r@ == render_failure_message(),
    {
        String::from_str("Failed to render note. Check your ~/.config/folio/templates/note.md syntax.")
    }
}

/// The message shown when a note cannot be rendered.
pub open spec fn render_failure_message() -> Seq<char> {
    "Failed to render note. Check your ~/.config/folio/templates/note.md syntax."@
}

/// What a render of the `note` template comes to: its text, or
/// [`NoteError::Render`] when the engine failed.
pub fn note_outcome(rendered: Result<String, tera::Error>) -> (r: Result<String, NoteError>)
    ensures
        match rendered {
            Ok(t) => r matches Ok(u) && u@ == t@,
            Err(_) => r matches Err(NoteError::Render),
        },
{
    match rendered {
        Ok(text) => Ok(text),
        Err(_) => Err(NoteError::Render),
    }
}

} // verus!
