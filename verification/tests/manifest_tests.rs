use crate_patcher::error::ErrorKind;
use crate_patcher::manifest::{merge_manifests, Manifest};

fn parse(text: &str) -> Manifest {
    match Manifest::from_text(text) {
        Ok(m) => m,
        Err(e) => panic!("{:?} does not parse: {:?}", text, e),
    }
}

fn merged(consumer: &str, package: &str) -> String {
    let mut manifest = parse(consumer);
    assert_eq!(manifest.merge_from(&parse(package)), Ok(()));
    manifest.render()
}

#[test]
fn a_manifest_is_written_back_as_it_was_read() {
    let text = "# a comment\n[package]\nname = \"consumer\"   # trailing\n\n[dependencies]\nfoo = \"1\"\n";
    assert_eq!(parse(text).render(), text);
    assert_eq!(parse("").render(), "");
}

#[test]
fn a_malformed_manifest_is_a_parse_error() {
    assert_eq!(Manifest::from_text("[package\nname = ").err(), Some(ErrorKind::ManifestParse));
    assert_eq!(Manifest::from_text("a = 1\na = 2\n").err(), Some(ErrorKind::ManifestParse));
    assert_eq!(Manifest::from_text("= 3").err(), Some(ErrorKind::ManifestParse));
}

#[test]
fn merge_adds_the_entries_that_are_missing() {
    let consumer = "[package]\nname = \"consumer\"\n\n[dependencies]\nfoo = \"1\"\n";
    let package = "[package]\nname = \"vendored\"\n\n[dependencies]\nbar = \"2\"\nbaz = { version = \"3\", features = [\"x\"] }\n";
    let out = parse(&merged(consumer, package));
    let deps = out.document["dependencies"].as_table().unwrap();
    assert_eq!(deps.len(), 3);
    assert_eq!(deps["foo"].as_str(), Some("1"));
    assert_eq!(deps["bar"].as_str(), Some("2"));
    assert_eq!(deps["baz"]["version"].as_str(), Some("3"));
    assert_eq!(out.document["package"]["name"].as_str(), Some("consumer"));
}

#[test]
fn merge_never_overwrites_an_entry() {
    let consumer = "[dependencies]\nfoo = \"1\"  # pinned by the consumer\n";
    let package = "[dependencies]\nfoo = \"2\"\n";
    let text = merged(consumer, package);
    assert!(text.contains("foo = \"1\"  # pinned by the consumer\n"));
    assert!(!text.contains("foo = \"2\""));
    let out = parse(&text);
    assert_eq!(out.document["dependencies"]["foo"].as_str(), Some("1"));
    assert_eq!(out.document["dependencies"].as_table().unwrap().len(), 1);
}

#[test]
fn merge_keeps_every_entry_of_the_consumer() {
    let consumer = "[package]\nname = \"c\"\n\n[dependencies]\na = \"1\"\nb = \"2\"\n\n[features]\ndefault = [\"own\"]\nown = []\n\n[profile.release]\nlto = true\n";
    let package = "[dependencies]\nb = \"9\"\nc = \"3\"\n\n[features]\ndefault = []\nextra = []\n\n[dev-dependencies]\nt = \"0.1\"\n";
    let out = parse(&merged(consumer, package));
    let doc = &out.document;
    assert_eq!(doc["package"]["name"].as_str(), Some("c"));
    assert_eq!(doc["dependencies"]["a"].as_str(), Some("1"));
    assert_eq!(doc["dependencies"]["b"].as_str(), Some("2"));
    assert_eq!(doc["dependencies"]["c"].as_str(), Some("3"));
    assert_eq!(doc["features"]["default"].as_array().unwrap().len(), 1);
    assert_eq!(doc["features"]["own"].as_array().unwrap().len(), 0);
    assert_eq!(doc["features"]["extra"].as_array().unwrap().len(), 0);
    assert_eq!(doc["dev-dependencies"]["t"].as_str(), Some("0.1"));
    assert_eq!(doc["profile"]["release"]["lto"].as_bool(), Some(true));
}

#[test]
fn merge_creates_the_sections_that_are_missing() {
    let out = parse(&merged("", "[dependencies]\nbar = \"2\"\n"));
    let doc = &out.document;
    assert!(doc.contains_table("dependencies"));
    assert!(doc.contains_table("dev-dependencies"));
    assert!(doc.contains_table("features"));
    assert_eq!(doc["dependencies"]["bar"].as_str(), Some("2"));
    assert_eq!(doc["dev-dependencies"].as_table().unwrap().len(), 0);
    assert_eq!(doc["features"].as_table().unwrap().len(), 0);
}

#[test]
fn merge_copies_from_the_allow_list_only() {
    let consumer = "[package]\nname = \"c\"\n";
    let package = "[package]\nname = \"v\"\nversion = \"1.0.0\"\n\n[build-dependencies]\ncc = \"1\"\n\n[lib]\npath = \"lib.rs\"\n\n[dependencies]\nbar = \"2\"\n";
    let out = parse(&merged(consumer, package));
    let doc = &out.document;
    assert_eq!(doc["package"]["name"].as_str(), Some("c"));
    assert!(doc["package"].get("version").is_none());
    assert!(!doc.contains_key("build-dependencies"));
    assert!(!doc.contains_key("lib"));
    assert_eq!(doc["dependencies"]["bar"].as_str(), Some("2"));
}

#[test]
fn merge_copies_tables_within_a_section() {
    let package = "[dependencies.serde]\nversion = \"1\"\nfeatures = [\"derive\"]\n";
    let out = parse(&merged("[dependencies]\n", package));
    let serde = &out.document["dependencies"]["serde"];
    assert_eq!(serde["version"].as_str(), Some("1"));
    assert_eq!(serde["features"].as_array().unwrap().len(), 1);
}

#[test]
fn merge_reads_sections_that_are_tables_only() {
    let package = "dependencies = { bar = \"2\" }\n";
    let out = parse(&merged("[dependencies]\nfoo = \"1\"\n", package));
    let deps = out.document["dependencies"].as_table().unwrap();
    assert_eq!(deps.len(), 1);
    assert_eq!(deps["foo"].as_str(), Some("1"));
}

#[test]
fn merge_with_nothing_to_add_leaves_the_text_as_it_is() {
    let consumer = "# mine\n[dependencies]\nfoo = \"1\" # keep\nbar = \"2\"\n\n[dev-dependencies]\n\n[features]\nf = []\n";
    let package = "[dependencies]\nfoo = \"7\"\n\n[features]\nf = [\"x\"]\n";
    assert_eq!(merged(consumer, package), consumer);
}

#[test]
fn merging_again_changes_nothing() {
    let consumer = "[package]\nname = \"c\"\n\n[dependencies]\nfoo = \"1\"\n";
    let package = "[dependencies]\nbar = \"2\"\n\n[features]\nx = []\n";
    let once = merged(consumer, package);
    assert_eq!(merged(&once, package), once);
}

#[test]
fn a_section_name_taken_by_a_value_is_malformed() {
    for consumer in [
        "dependencies = 1\n",
        "features = { a = [] }\n",
        "[[dev-dependencies]]\nname = \"x\"\n",
    ] {
        let mut manifest = parse(consumer);
        let package = parse("[dependencies]\nbar = \"2\"\n[features]\nb = []\n");
        assert_eq!(manifest.merge_from(&package), Err(ErrorKind::ManifestParse));
        assert_eq!(manifest.render(), consumer);
    }
}

#[test]
fn manifests_are_merged_from_text_to_text() {
    let own = "[package]\nname = \"c\"\n\n[dependencies]\nfoo = \"1\"\n";
    let package = "[lib]\npath = \"code/lib.rs\"\n\n[dependencies]\nfoo = \"2\"\nbar = \"3\"\n";
    let merge = merge_manifests(own, package).unwrap();
    assert_eq!(merge.source_root, "code");
    assert_eq!(merge.text, merge.manifest.render());
    assert_eq!(merge.text, merged(own, package));
    let doc = &merge.manifest.document;
    assert_eq!(doc["dependencies"]["foo"].as_str(), Some("1"));
    assert_eq!(doc["dependencies"]["bar"].as_str(), Some("3"));
    assert!(!doc.contains_key("lib"));
}

#[test]
fn an_absent_consumer_manifest_counts_as_empty() {
    let merge = merge_manifests("", "[features]\nx = []\n").unwrap();
    assert_eq!(merge.source_root, "src");
    let doc = &merge.manifest.document;
    assert_eq!(doc["features"]["x"].as_array().unwrap().len(), 0);
    assert!(doc.contains_table("dependencies"));
    assert!(doc.contains_table("dev-dependencies"));
}

#[test]
fn merging_texts_fails_on_a_malformed_manifest() {
    assert_eq!(merge_manifests("[a", "").err(), Some(ErrorKind::ManifestParse));
    assert_eq!(merge_manifests("", "[a").err(), Some(ErrorKind::ManifestParse));
    assert_eq!(
        merge_manifests("dependencies = 1\n", "").err(),
        Some(ErrorKind::ManifestParse)
    );
}

#[test]
fn source_root_is_the_directory_of_the_library_path() {
    assert_eq!(parse("[lib]\npath = \"source/lib.rs\"\n").source_root(), "source");
    assert_eq!(parse("[lib]\npath = \"a/b/main.rs\"\n").source_root(), "a/b");
    assert_eq!(parse("lib = { path = \"x/y.rs\" }\n").source_root(), "x");
}

#[test]
fn source_root_of_a_library_at_the_top_is_empty() {
    assert_eq!(parse("[lib]\npath = \"lib.rs\"\n").source_root(), "");
}

#[test]
fn source_root_defaults_to_src() {
    assert_eq!(parse("[package]\nname = \"p\"\n").source_root(), "src");
    assert_eq!(parse("").source_root(), "src");
    assert_eq!(parse("[lib]\nproc-macro = true\n").source_root(), "src");
    assert_eq!(parse("[lib]\npath = 3\n").source_root(), "src");
    assert_eq!(parse("lib = \"x/y.rs\"\n").source_root(), "src");
}
