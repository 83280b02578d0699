use wayback_archiver::config::{select_source, Config, Source};

fn strings(items: &[&str]) -> Vec<String> {
    items.iter().map(|s| s.to_string()).collect()
}

#[test]
fn literal_urls_win_over_a_file() {
    let got = select_source(strings(&["https://a.example", "https://b.example"]), Some("urls.txt".to_string()));
    assert_eq!(got, Source::Literal { urls: strings(&["https://a.example", "https://b.example"]) });
}

#[test]
fn literal_urls_without_a_file() {
    let got = select_source(strings(&["https://a.example"]), None);
    assert_eq!(got, Source::Literal { urls: strings(&["https://a.example"]) });
}

#[test]
fn file_is_read_without_literal_urls() {
    assert_eq!(select_source(Vec::new(), Some("urls.txt".to_string())), Source::File { path: "urls.txt".to_string() });
}

#[test]
fn standard_input_is_the_last_resort() {
    assert_eq!(select_source(Vec::new(), None), Source::Interactive);
}

#[test]
fn config_selects_its_source() {
    let config = Config { out: None, merge: false, urls_file: Some("f".to_string()), urls: strings(&["u"]) };
    assert_eq!(config.into_source(), Source::Literal { urls: strings(&["u"]) });
    let config = Config { out: None, merge: false, urls_file: Some("f".to_string()), urls: Vec::new() };
    assert_eq!(config.into_source(), Source::File { path: "f".to_string() });
}

#[test]
fn merge_needs_an_output_path() {
    let config = Config { out: None, merge: true, urls_file: None, urls: Vec::new() };
    assert!(!config.is_valid());
    let config = Config { out: Some("out.json".to_string()), merge: true, urls_file: None, urls: Vec::new() };
    assert!(config.is_valid());
    let config = Config { out: None, merge: false, urls_file: None, urls: Vec::new() };
    assert!(config.is_valid());
}

#[test]
fn merge_target_is_the_output_path_when_merging() {
    let config = Config { out: Some("out.json".to_string()), merge: true, urls_file: None, urls: Vec::new() };
    assert_eq!(config.merge_target(), Some(&"out.json".to_string()));
    assert!(config.checkpointing());
}

#[test]
fn no_merge_target_without_merge() {
    let config = Config { out: Some("out.json".to_string()), merge: false, urls_file: None, urls: Vec::new() };
    assert_eq!(config.merge_target(), None);
    assert!(config.checkpointing());
    let config = Config { out: None, merge: false, urls_file: None, urls: Vec::new() };
    assert_eq!(config.merge_target(), None);
    assert!(!config.checkpointing());
}
