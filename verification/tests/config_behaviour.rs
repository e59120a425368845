use folio::config::{
    browse_prompt, clean_papers_dir, default_topic_list, directory_options, interpret_choice,
    sort_names, BrowseChoice, Config, Topic,
};

#[test]
fn default_config_has_the_built_in_topics() {
    let c = Config::default();
    assert_eq!(c.obsidian_vault, "");
    assert_eq!(c.papers_dir, "Papers");
    assert!(c.semantic_scholar_api_key.is_none());
    assert_eq!(c.topics.len(), 50);
    assert_eq!(c.topics[0].name, "Database Storage Engines");
    assert_eq!(c.topics[0].query, "LSM tree B-tree WAL compaction storage engine");
    assert_eq!(c.topics[49].name, "AI Model Serving");
    assert_eq!(c.topics[49].query, "model serving inference infrastructure");
    assert_eq!(default_topic_list().len(), 50);
}

#[test]
fn topics_are_built_and_copied() {
    let t = Topic::new("Custom", "my query");
    let u = t.duplicate();
    assert_eq!(u.name, "Custom");
    assert_eq!(u.query, "my query");
}

#[test]
fn sort_names_orders_like_std() {
    let names: Vec<String> = ["beta", "Alpha", "alpha", "Ärger", "zeta", "", "b"]
        .iter()
        .map(|s| s.to_string())
        .collect();
    let mut expected = names.clone();
    expected.sort();
    assert_eq!(sort_names(names), expected);
    assert!(sort_names(vec![]).is_empty());
}

#[test]
fn browser_offers_select_create_up_and_visible_folders() {
    let names = vec!["Papers".to_string(), ".obsidian".to_string(), "Notes".to_string()];
    let opts = directory_options("/home/me/vault", true, true, &names);
    assert_eq!(
        opts,
        vec![
            "✅  Select: /home/me/vault/".to_string(),
            "➕  Create a new folder here".to_string(),
            "📁  ../  (go up)".to_string(),
            "📂  Papers/".to_string(),
            "📂  Notes/".to_string(),
        ]
    );
    let root = directory_options("/", false, false, &vec![]);
    assert_eq!(root, vec!["✅  Select: //".to_string()]);
}

#[test]
fn choices_are_read_back() {
    assert!(matches!(interpret_choice("✅  Select: /home/"), BrowseChoice::Select));
    assert!(matches!(interpret_choice("➕  Create a new folder here"), BrowseChoice::CreateFolder));
    assert!(matches!(interpret_choice("📁  ../  (go up)"), BrowseChoice::GoUp));
    match interpret_choice("📂  Papers/") {
        BrowseChoice::Open(n) => assert_eq!(n, "Papers"),
        other => panic!("unexpected {other:?}"),
    }
    match interpret_choice("📂  📂  x//") {
        BrowseChoice::Open(n) => assert_eq!(n, "x"),
        other => panic!("unexpected {other:?}"),
    }
}

#[test]
fn every_offered_folder_opens_itself() {
    let names = vec!["Papers".to_string(), "my notes".to_string()];
    let opts = directory_options("/v", false, true, &names);
    let opened: Vec<String> = opts
        .iter()
        .filter_map(|o| match interpret_choice(o) {
            BrowseChoice::Open(n) => Some(n),
            _ => None,
        })
        .collect();
    assert_eq!(opened, names);
}

#[test]
fn prompt_and_papers_dir() {
    assert_eq!(browse_prompt("Vault location", "/home/me"), "Vault location  [/home/me]");
    assert_eq!(clean_papers_dir("/Papers/"), "Papers");
    assert_eq!(clean_papers_dir("Research/Papers"), "Research/Papers");
    assert_eq!(clean_papers_dir("///"), "");
}
