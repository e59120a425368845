use folio::fetch::Paper;
use folio::templates::{
    author_short, default_note_template, note_context, note_engine, note_outcome, NoteError,
};
use tera::Value;

fn sample() -> Paper {
    Paper {
        id: String::from("http://arxiv.org/abs/1706.03762v5"),
        title: String::from("Attention Is All You Need"),
        authors: vec!["Ashish Vaswani".into(), "Noam Shazeer".into(), "Niki Parmar".into()],
        published: String::from("2017"),
        abstract_text: String::from("The dominant sequence transduction models."),
        source: String::from("ArXiv"),
        citations: 0,
        venue: None,
        doi: None,
        arxiv_id: Some(String::from("1706.03762")),
        semantic_scholar_id: None,
        abs_url: String::from("http://arxiv.org/abs/1706.03762"),
        pdf_url: Some(String::from("http://arxiv.org/pdf/1706.03762")),
        tldr: None,
    }
}

/// Renders the note as the front end does, with a fixed date.
fn render_note(engine: &tera::Tera, paper: &Paper, topic: &str) -> Result<String, NoteError> {
    note_outcome(engine.render("note", &note_context(paper, topic, "2024-01-01")))
}

fn text(v: Option<&Value>) -> &str {
    v.and_then(|v| v.as_str()).expect("a string value")
}

#[test]
fn author_short_credits_up_to_two() {
    assert_eq!(author_short(&vec![]), "Unknown authors");
    assert_eq!(author_short(&vec!["A".into()]), "A");
    assert_eq!(author_short(&vec!["A".into(), "B".into()]), "A, B");
    assert_eq!(author_short(&vec!["A".into(), "B".into(), "C".into()]), "A, B et al.");
}

#[test]
fn note_context_holds_the_paper() {
    let c = note_context(&sample(), "Machine Learning Systems", "2024-05-06");
    assert_eq!(text(c.get("title")), "Attention Is All You Need");
    assert_eq!(text(c.get("author_short")), "Ashish Vaswani, Noam Shazeer et al.");
    assert_eq!(text(c.get("published")), "2017");
    assert_eq!(text(c.get("year")), "2017");
    assert_eq!(text(c.get("source")), "ArXiv");
    assert_eq!(text(c.get("topic")), "Machine Learning Systems");
    assert_eq!(text(c.get("topic_tag")), "machine-learning-systems");
    assert_eq!(text(c.get("arxiv_id")), "1706.03762");
    assert_eq!(text(c.get("semantic_scholar_id")), "");
    assert_eq!(text(c.get("url")), "http://arxiv.org/abs/1706.03762");
    assert_eq!(text(c.get("pdf_url")), "http://arxiv.org/pdf/1706.03762");
    assert_eq!(text(c.get("abstract_text")), "The dominant sequence transduction models.");
    assert_eq!(text(c.get("saved_date")), "2024-05-06");
    let authors = c.get("authors").and_then(|v| v.as_array()).expect("a list");
    assert_eq!(authors.len(), 3);
    assert_eq!(authors[1].as_str(), Some("Noam Shazeer"));
}

#[test]
fn missing_ids_are_empty_in_the_context() {
    let mut p = sample();
    p.arxiv_id = None;
    p.pdf_url = None;
    let c = note_context(&p, "T", "d");
    assert_eq!(text(c.get("arxiv_id")), "");
    assert_eq!(text(c.get("pdf_url")), "");
}

#[test]
fn default_template_renders_a_note() {
    let engine = note_engine(Some(default_note_template()));
    let note = render_note(&engine, &sample(), "Machine Learning").expect("renders");
    assert!(note.starts_with("---\ntitle: \"Attention Is All You Need\"\n"));
    assert!(note.contains("authors: [\"Ashish Vaswani\",\"Noam Shazeer\",\"Niki Parmar\"]"));
    assert!(note.contains("  - \"machine-learning\"\n"));
    assert!(note.contains("topic: \"Machine Learning\"\n"));
    assert!(note.contains("# Attention Is All You Need\n"));
    assert!(note.contains("[PDF](http://arxiv.org/pdf/1706.03762)"));
    assert!(note.contains("abstract: \"The dominant sequence transduction models.\"\n"));
    assert!(note.contains("semantic_scholar_id: \"\"\n"));
    assert!(note.contains("saved: \"2024-01-01\"\n"));
    assert!(note.contains("The dominant sequence transduction models."));
}

#[test]
fn no_template_means_render_errors() {
    let engine = note_engine(None);
    let err = render_note(&engine, &sample(), "T").unwrap_err();
    assert!(matches!(err, NoteError::Render));
    assert_eq!(
        err.message(),
        "Failed to render note. Check your ~/.config/folio/templates/note.md syntax."
    );
}

#[test]
fn a_broken_template_is_dropped() {
    let engine = note_engine(Some("{{ unclosed"));
    assert!(render_note(&engine, &sample(), "T").is_err());
}

#[test]
fn a_custom_template_is_used() {
    let engine = note_engine(Some("{{ year }}|{{ topic_tag }}|{{ author_short }}"));
    let note = render_note(&engine, &sample(), "Deep Nets").unwrap();
    assert_eq!(note, "2017|deep-nets|Ashish Vaswani, Noam Shazeer et al.");
}

#[test]
fn render_outcomes() {
    assert_eq!(note_outcome(Ok(String::from("# Note\n"))).unwrap(), "# Note\n");
    let err = note_outcome(Err(tera::Error::msg("broken"))).unwrap_err();
    assert!(matches!(err, NoteError::Render));
}

#[test]
fn a_template_that_extends_another_is_not_accepted() {
    let engine = note_engine(Some("{% extends \"base.md\" %}{% block b %}x{% endblock b %}"));
    assert!(matches!(render_note(&engine, &sample(), "T"), Err(NoteError::Render)));
}
