use folio::fetch::{arxiv_id_from, copy_papers, papers_from_nodes, parse_atom, search_url, Paper, XmlNode};

const FEED: &str = r#"<?xml version="1.0" encoding="UTF-8"?>
<feed xmlns="http://www.w3.org/2005/Atom">
  <title>ArXiv Query</title>
  <entry>
    <id>http://arxiv.org/abs/2301.00001v2</id>
    <published>2023-01-01T00:00:00Z</published>
    <title>Log-Structured
      Merge   Trees</title>
    <summary>  We study
   compaction.  </summary>
    <author><name>Ada  Lovelace</name></author>
    <author><name>Alan Turing</name></author>
  </entry>
  <entry>
    <id>http://arxiv.org/abs/hep-th/9901001v1</id>
    <published>99</published>
  </entry>
  <other xmlns="urn:x"><entry><id>ignored</id></entry></other>
</feed>"#;

#[test]
fn search_url_encodes_the_query() {
    assert_eq!(
        search_url("a b", 0),
        "http://export.arxiv.org/api/query?search_query=all:a%20b&start=0&max_results=20"
    );
    assert_eq!(
        search_url("LSM tree", 40),
        "http://export.arxiv.org/api/query?search_query=all:LSM%20tree&start=40&max_results=20"
    );
    assert_eq!(
        search_url("é&x", 20),
        "http://export.arxiv.org/api/query?search_query=all:%C3%A9%26x&start=20&max_results=20"
    );
    assert_eq!(
        search_url("safe-._~", 0),
        "http://export.arxiv.org/api/query?search_query=all:safe-._~&start=0&max_results=20"
    );
}

#[test]
fn arxiv_ids_lose_their_version() {
    assert_eq!(arxiv_id_from("http://arxiv.org/abs/2301.00001v1").as_deref(), Some("2301.00001"));
    assert_eq!(arxiv_id_from("http://arxiv.org/abs/2301.00001v12").as_deref(), Some("2301.00001"));
    assert_eq!(arxiv_id_from("http://arxiv.org/abs/2301.00001").as_deref(), Some("2301.00001"));
    assert_eq!(arxiv_id_from("http://arxiv.org/abs/hep-th/9901001v2").as_deref(), Some("hep-th/9901001"));
    assert_eq!(arxiv_id_from("http://arxiv.org/abs/solv-int/9901001").as_deref(), Some("solv-int/9901001"));
    assert_eq!(arxiv_id_from("urn:x/9901001v3").as_deref(), Some("9901001"));
    assert_eq!(arxiv_id_from("http://arxiv.org/abs/solv-int").as_deref(), Some("solv-int"));
    assert_eq!(arxiv_id_from("http://arxiv.org/abs/abcv").as_deref(), Some("abc"));
    assert_eq!(arxiv_id_from("http://arxiv.org/abs/"), None);
    assert_eq!(arxiv_id_from(""), None);
    assert_eq!(arxiv_id_from("v1"), None);
}

#[test]
fn parse_atom_reads_the_entries() {
    let papers = parse_atom(FEED).expect("well-formed feed");
    assert_eq!(papers.len(), 2);

    let p = &papers[0];
    assert_eq!(p.id, "http://arxiv.org/abs/2301.00001v2");
    assert_eq!(p.title, "Log-Structured Merge Trees");
    assert_eq!(p.abstract_text, "We study compaction.");
    assert_eq!(p.published, "2023");
    assert_eq!(p.authors, vec!["Ada Lovelace".to_string(), "Alan Turing".to_string()]);
    assert_eq!(p.source, "ArXiv");
    assert_eq!(p.citations, 0);
    assert_eq!(p.arxiv_id.as_deref(), Some("2301.00001"));
    assert_eq!(p.abs_url, "http://arxiv.org/abs/2301.00001");
    assert_eq!(p.pdf_url.as_deref(), Some("http://arxiv.org/pdf/2301.00001"));
    assert!(p.venue.is_none() && p.doi.is_none() && p.semantic_scholar_id.is_none() && p.tldr.is_none());

    let q = &papers[1];
    assert_eq!(q.title, "Untitled");
    assert_eq!(q.abstract_text, "");
    assert_eq!(q.published, "Unknown");
    assert!(q.authors.is_empty());
    assert_eq!(q.arxiv_id.as_deref(), Some("hep-th/9901001"));
    assert_eq!(q.abs_url, "http://arxiv.org/abs/hep-th/9901001");
    assert_eq!(q.pdf_url.as_deref(), Some("http://arxiv.org/pdf/hep-th/9901001"));
}

#[test]
fn parse_atom_without_entries_is_empty() {
    let papers = parse_atom(r#"<feed xmlns="http://www.w3.org/2005/Atom"><title>t</title></feed>"#).unwrap();
    assert!(papers.is_empty());
    let foreign = parse_atom("<feed><entry><id>x</id></entry></feed>").unwrap();
    assert!(foreign.is_empty());
}

#[test]
fn parse_atom_rejects_broken_xml() {
    let err = parse_atom("<feed><entry>").unwrap_err();
    assert_eq!(err.message(), "Failed to parse ArXiv Atom XML");
    assert!(parse_atom("").is_err());
}

#[test]
fn an_entry_without_id_keeps_an_empty_id() {
    let feed = r#"<feed xmlns="http://www.w3.org/2005/Atom"><entry><title>T</title><published>2024-02</published></entry></feed>"#;
    let papers = parse_atom(feed).unwrap();
    assert_eq!(papers.len(), 1);
    assert_eq!(papers[0].id, "");
    assert_eq!(papers[0].abs_url, "");
    assert_eq!(papers[0].arxiv_id, None);
    assert_eq!(papers[0].pdf_url, None);
    assert_eq!(papers[0].published, "2024");
}

#[test]
fn a_short_year_with_wide_chars_is_unknown() {
    let feed = r#"<feed xmlns="http://www.w3.org/2005/Atom"><entry><published>é202</published></entry></feed>"#;
    let papers = parse_atom(feed).unwrap();
    assert_eq!(papers[0].published, "Unknown");
}

fn node(id: usize, parent: Option<usize>, name: &str, text: Option<&str>) -> XmlNode {
    XmlNode {
        id,
        parent,
        is_element: parent.is_some(),
        name: name.to_string(),
        namespace: parent.map(|_| "http://www.w3.org/2005/Atom".to_string()),
        text: text.map(|t| t.to_string()),
    }
}

#[test]
fn papers_from_hand_built_nodes() {
    let nodes = vec![
        XmlNode { id: 0, parent: None, is_element: false, name: String::new(), namespace: None, text: None },
        node(1, Some(0), "feed", None),
        node(2, Some(1), "entry", None),
        node(3, Some(2), "id", Some("http://arxiv.org/abs/1234.5678v3")),
        node(4, Some(2), "title", Some(" A  B ")),
    ];
    let papers = papers_from_nodes(&nodes);
    assert_eq!(papers.len(), 1);
    assert_eq!(papers[0].title, "A B");
    assert_eq!(papers[0].arxiv_id.as_deref(), Some("1234.5678"));
    let copies: Vec<Paper> = copy_papers(&papers);
    assert_eq!(copies[0].title, papers[0].title);
    assert_eq!(copies[0].abs_url, "http://arxiv.org/abs/1234.5678");
}

#[test]
fn child_texts_are_trimmed() {
    let feed = "<feed xmlns=\"http://www.w3.org/2005/Atom\"><entry><id>\n  http://arxiv.org/abs/2401.00002v1  \n</id><published>  2024-01-01</published></entry></feed>";
    let papers = parse_atom(feed).unwrap();
    assert_eq!(papers[0].id, "http://arxiv.org/abs/2401.00002v1");
    assert_eq!(papers[0].arxiv_id.as_deref(), Some("2401.00002"));
    assert_eq!(papers[0].published, "2024");
}
