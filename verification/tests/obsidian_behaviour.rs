use folio::fetch::Paper;
use folio::obsidian::{
    fallback_filename, file_belongs_to_paper, inbox_update, next_slot, note_filename, note_stem,
    slot_filename, slot_usable, slugify, LAST_SLOT, MAX_STEM_CHARS,
};

fn paper(title: &str, published: &str, arxiv: Option<&str>, s2: Option<&str>, doi: Option<&str>) -> Paper {
    Paper {
        id: String::from("http://arxiv.org/abs/x"),
        title: title.to_string(),
        authors: vec![],
        published: published.to_string(),
        abstract_text: String::new(),
        source: String::from("ArXiv"),
        citations: 0,
        venue: None,
        doi: doi.map(|s| s.to_string()),
        arxiv_id: arxiv.map(|s| s.to_string()),
        semantic_scholar_id: s2.map(|s| s.to_string()),
        abs_url: String::new(),
        pdf_url: None,
        tldr: None,
    }
}

#[test]
fn slugify_keeps_letters_and_digits() {
    assert_eq!(slugify("Hello, World!"), "hello-world");
    assert_eq!(slugify("--A  b--"), "a-b");
    assert_eq!(slugify("Ünïcode Ärger"), "ünïcode-ärger");
    assert_eq!(slugify("2301.00001"), "2301-00001");
    assert_eq!(slugify(""), "");
    assert_eq!(slugify("!!!"), "");
}

#[test]
fn slugs_have_no_stray_dashes() {
    for s in ["  Deep -- Learning ", "a/b\\c", "_x_", "LSM-tree: B-tree & WAL", "中文 标题"] {
        let slug = slugify(s);
        assert!(!slug.starts_with('-') && !slug.ends_with('-'), "{slug}");
        assert!(!slug.contains("--"), "{slug}");
        assert!(slug.chars().all(|c| c == '-' || c.is_alphanumeric()), "{slug}");
    }
}

#[test]
fn note_filename_embeds_the_arxiv_id() {
    let p = paper("Attention Is All You Need", "2017", Some("1706.03762"), Some("s2"), None);
    assert_eq!(note_filename(&p), "2017-attention-is-all-you-need-1706-03762.md");
}

#[test]
fn note_filename_falls_back_to_other_ids() {
    let p = paper("A Title", "2020", None, Some("ABC123"), Some("10.1/x"));
    assert_eq!(note_filename(&p), "2020-a-title-abc123.md");
    let p = paper("A Title", "2020", None, None, Some("10.1000/XYZ"));
    assert_eq!(note_filename(&p), "2020-a-title-10-1000-xyz.md");
    let p = paper("A Title", "Unknown", None, None, None);
    assert_eq!(note_filename(&p), "Unkn-a-title.md");
}

#[test]
fn note_filename_is_cut_to_the_stem_limit() {
    let long = "word ".repeat(40);
    let p = paper(&long, "2021", Some("2101.00001"), None, None);
    let name = note_filename(&p);
    assert!(name.ends_with(".md"));
    assert_eq!(name.chars().count(), MAX_STEM_CHARS + 3);
    assert!(name.starts_with("2021-word-word-"));
    assert!(name.ends_with("-2101-00001.md"));
}

#[test]
fn a_long_title_keeps_the_id() {
    let p = paper(&"a".repeat(100), "2017", Some("1706.03762"), None, None);
    let name = note_filename(&p);
    assert!(name.ends_with("-1706-03762.md"), "{name}");
    assert_eq!(name.chars().count(), MAX_STEM_CHARS + 3);
    assert!(name.starts_with("2017-aaaa"));
}

#[test]
fn ownership_goes_by_the_first_stable_id() {
    let with_s2 = paper("T", "2020", Some("1111.2222"), Some("S2ID"), None);
    assert!(file_belongs_to_paper("id: S2ID", &with_s2));
    assert!(!file_belongs_to_paper("arxiv_id: 1111.2222", &with_s2));
    let with_arxiv = paper("T", "2020", Some("1111.2222"), None, Some("10.1/d"));
    assert!(file_belongs_to_paper("arxiv_id: \"1111.2222\"", &with_arxiv));
    assert!(!file_belongs_to_paper("10.1/d", &with_arxiv));
    let with_doi = paper("T", "2020", None, None, Some("10.1/d"));
    assert!(file_belongs_to_paper("doi 10.1/d", &with_doi));
    let without = paper("T", "2020", None, None, None);
    assert!(!file_belongs_to_paper("anything at all", &without));
}

#[test]
fn slots_are_numbered_after_the_stem() {
    assert_eq!(note_stem("2020-a.md"), "2020-a");
    assert_eq!(note_stem("plain"), "plain");
    assert_eq!(slot_filename("2020-a.md", 1), "2020-a.md");
    assert_eq!(slot_filename("2020-a.md", 2), "2020-a-2.md");
    assert_eq!(slot_filename("2020-a.md", 999), "2020-a-999.md");
    assert_eq!(next_slot(2), Some(3));
    assert_eq!(next_slot(LAST_SLOT - 1), Some(LAST_SLOT));
    assert_eq!(next_slot(LAST_SLOT), None);
}

#[test]
fn a_slot_is_usable_when_free_or_already_ours() {
    let p = paper("T", "2020", Some("1111.2222"), None, None);
    assert!(slot_usable(None, &p));
    assert!(slot_usable(Some("arxiv_id: \"1111.2222\""), &p));
    assert!(!slot_usable(Some("arxiv_id: \"9999.0000\""), &p));
}

#[test]
fn fallback_names_carry_the_timestamp() {
    assert_eq!(fallback_filename("2020-a.md", 1700000000), "2020-a-1700000000.md");
    assert_eq!(fallback_filename("2020-a.md", -5), "2020-a--5.md");
    assert_eq!(fallback_filename("x.md", i64::MIN), "x--9223372036854775808.md");
}

#[test]
fn inbox_gets_a_heading_and_a_line() {
    let r = inbox_update("", "2020-a", "  A Title ", " 2020 ", " Topic ", "2024-01-02");
    assert_eq!(
        r.as_deref(),
        Some("\n## 2024-01-02\n- [ ] [[2020-a|A Title]] — 2020 `Topic`\n")
    );
}

#[test]
fn inbox_lists_a_paper_once() {
    let first = inbox_update("# Hub\n", "2020-a", "A", "2020", "T", "2024-01-02").unwrap();
    assert_eq!(inbox_update(&first, "2020-a", "A again", "2021", "U", "2024-01-03"), None);
}

#[test]
fn inbox_adds_one_heading_per_day() {
    let first = inbox_update("# Hub\n", "2020-a", "A", "2020", "T", "2024-01-02").unwrap();
    let second = inbox_update(&first, "2021-b", "B", "2021", "T", "2024-01-02").unwrap();
    assert_eq!(second, format!("{first}- [ ] [[2021-b|B]] — 2021 `T`\n"));
    assert_eq!(second.matches("## 2024-01-02").count(), 1);
    let third = inbox_update(&second, "2022-c", "C", "2022", "T", "2024-01-03").unwrap();
    assert!(third.starts_with(&second));
    assert!(third.contains("\n## 2024-01-03\n- [ ] [[2022-c|C]]"));
}
