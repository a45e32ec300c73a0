use zag::error::Error;
use zag::json::Json;
use zag::pairs::find_last;
use zag::parse::{ZagDep, ZagFile};

fn record(repo: &str, version: &str, entry: Option<&str>) -> ZagDep {
    ZagDep {
        repo: repo.to_string(),
        version: version.to_string(),
        entry: entry.map(|e| e.to_string()),
    }
}

fn text(s: &str) -> Json {
    Json::Text(s.to_string())
}

fn object(members: Vec<(&str, Json)>) -> Json {
    Json::Object(members.into_iter().map(|(k, v)| (k.to_string(), v)).collect())
}

fn sample() -> ZagFile {
    let mut manifest = ZagFile::new(Some("vendor".to_string()));
    assert_eq!(
        manifest.insert("widget".to_string(), record("https://example.com/acme/widget", "1.2.3", None)),
        Ok(())
    );
    assert_eq!(
        manifest.insert(
            "gadget".to_string(),
            record("https://example.com/acme/gadget", "0.1.0", Some("src/main.zig"))
        ),
        Ok(())
    );
    manifest
}

#[test]
fn load_reads_an_empty_manifest() {
    let manifest = ZagFile::load("{\"dir\": null, \"deps\": {}}").unwrap();
    assert_eq!(manifest, ZagFile::new(None));
    assert_eq!(manifest.len(), 0);
}

#[test]
fn load_reads_directory_and_dependencies() {
    let source = r#"{
        "dir": "vendor",
        "deps": {
            "widget": { "repo": "https://example.com/acme/widget", "version": "1.2.3", "entry": null },
            "gadget": { "repo": "https://example.com/acme/gadget", "version": "0.1.0", "entry": "src/main.zig" }
        }
    }"#;
    assert_eq!(ZagFile::load(source), Ok(sample()));
}

#[test]
fn load_takes_a_missing_dir_or_entry_as_none() {
    let manifest = ZagFile::load(r#"{"deps": {"a": {"repo": "r", "version": "1"}}}"#).unwrap();
    assert_eq!(manifest.dir(), &None);
    assert_eq!(manifest.get(&"a".to_string()), Some(&record("r", "1", None)));
}

#[test]
fn load_passes_over_members_it_does_not_know() {
    let source = r#"{"dir": null, "extra": [1, 2, true], "deps": {"a": {"repo": "r", "version": "1", "entry": "e", "note": 7}}}"#;
    let manifest = ZagFile::load(source).unwrap();
    assert_eq!(manifest.len(), 1);
    assert_eq!(manifest.get(&"a".to_string()), Some(&record("r", "1", Some("e"))));
}

#[test]
fn load_lets_the_later_of_two_members_count() {
    let source = r#"{"dir": null, "deps": {"a": {"repo": "r", "version": "1"}, "a": {"repo": "r", "version": "2"}}}"#;
    let manifest = ZagFile::load(source).unwrap();
    assert_eq!(manifest.len(), 1);
    assert_eq!(manifest.get(&"a".to_string()).unwrap().version, "2");
}

#[test]
fn load_refuses_what_is_not_json() {
    assert_eq!(ZagFile::load(""), Err(Error::MalformedManifest));
    assert_eq!(ZagFile::load("{\"dir\": null, \"deps\": {}"), Err(Error::MalformedManifest));
    assert_eq!(ZagFile::load("dir = null"), Err(Error::MalformedManifest));
    assert_eq!(ZagFile::load("{} {}"), Err(Error::MalformedManifest));
}

#[test]
fn load_refuses_json_of_another_shape() {
    let wrong = [
        "null",
        "[]",
        "\"deps\"",
        "{}",
        r#"{"dir": null}"#,
        r#"{"dir": null, "deps": []}"#,
        r#"{"dir": null, "deps": null}"#,
        r#"{"dir": 5, "deps": {}}"#,
        r#"{"dir": {}, "deps": {}}"#,
        r#"{"dir": null, "deps": {"a": "r"}}"#,
        r#"{"dir": null, "deps": {"a": {}}}"#,
        r#"{"dir": null, "deps": {"a": {"repo": "r"}}}"#,
        r#"{"dir": null, "deps": {"a": {"version": "1"}}}"#,
        r#"{"dir": null, "deps": {"a": {"repo": null, "version": "1"}}}"#,
        r#"{"dir": null, "deps": {"a": {"repo": "r", "version": 1}}}"#,
        r#"{"dir": null, "deps": {"a": {"repo": "r", "version": "1", "entry": false}}}"#,
        r#"{"dir": null, "deps": {"a": {"repo": "r", "version": "1"}, "b": {"repo": "r"}}}"#,
    ];
    for source in wrong {
        assert_eq!(ZagFile::load(source), Err(Error::MalformedManifest), "{}", source);
    }
}

#[test]
fn render_writes_the_whole_manifest_indented() {
    let mut manifest = ZagFile::new(None);
    assert_eq!(
        manifest.insert("widget".to_string(), record("https://example.com/acme/widget", "1.2.3", None)),
        Ok(())
    );
    let expected = "{\n  \"deps\": {\n    \"widget\": {\n      \"entry\": null,\n      \"repo\": \"https://example.com/acme/widget\",\n      \"version\": \"1.2.3\"\n    }\n  },\n  \"dir\": null\n}";
    assert_eq!(manifest.render(), Some(expected.to_string()));
}

#[test]
fn render_writes_an_empty_manifest() {
    let manifest = ZagFile::new(Some("vendor".to_string()));
    assert_eq!(manifest.render(), Some("{\n  \"deps\": {},\n  \"dir\": \"vendor\"\n}".to_string()));
}

#[test]
fn what_is_rendered_loads_as_the_same_manifest() {
    let manifest = sample();
    let written = manifest.render().unwrap();
    assert_eq!(ZagFile::load(&written), Ok(manifest));
}

#[test]
fn texts_with_quotes_and_other_scripts_come_back_unchanged() {
    let mut manifest = ZagFile::new(Some("d\"ir\\ \n\t\u{1F600}".to_string()));
    assert_eq!(
        manifest.insert(
            "na\"me \u{00e9}\u{4e2d}".to_string(),
            record("https://example.com/a?b=c#d", "^1.0 || \"x\"", Some("src\\main.zig"))
        ),
        Ok(())
    );
    let written = manifest.render().unwrap();
    assert_eq!(ZagFile::load(&written), Ok(manifest));
}

#[test]
fn a_reloaded_manifest_is_the_one_that_was_loaded() {
    let source = r#"{"deps": {"b": {"version": "2", "repo": "rb"}, "a": {"repo": "ra", "version": "1", "entry": "a.zig"}}, "dir": "x"}"#;
    let first = ZagFile::load(source).unwrap();
    let written = first.render().unwrap();
    let second = ZagFile::load(&written).unwrap();
    assert_eq!(second, first);
    assert_eq!(second.render(), Some(written));
}

#[test]
fn the_tree_of_a_manifest_reads_back_as_the_manifest() {
    let manifest = sample();
    assert_eq!(ZagFile::from_json(&manifest.to_json()), Ok(manifest));
    let empty = ZagFile::new(None);
    assert_eq!(ZagFile::from_json(&empty.to_json()), Ok(empty));
}

#[test]
fn the_tree_of_a_dependency_reads_back_as_the_dependency() {
    let with_entry = record("r", "1", Some("e"));
    assert_eq!(ZagDep::from_json(&with_entry.to_json()), Some(with_entry));
    let without = record("r", "1", None);
    assert_eq!(ZagDep::from_json(&without.to_json()), Some(without));
}

#[test]
fn a_dependency_is_read_from_its_members() {
    let tree = object(vec![("version", text("1")), ("repo", text("r")), ("entry", Json::Null)]);
    assert_eq!(ZagDep::from_json(&tree), Some(record("r", "1", None)));
    assert_eq!(ZagDep::from_json(&Json::Null), None);
    assert_eq!(ZagDep::from_json(&Json::Array(vec![text("r"), text("1")])), None);
    assert_eq!(ZagDep::from_json(&object(vec![("repo", text("r"))])), None);
    assert_eq!(
        ZagDep::from_json(&object(vec![("repo", text("r")), ("version", text("1")), ("entry", Json::Bool(true))])),
        None
    );
}

#[test]
fn a_member_that_a_later_one_replaces_is_not_read() {
    let deps = object(vec![
        ("a", text("not a dependency")),
        ("a", object(vec![("repo", text("r")), ("version", text("2"))])),
    ]);
    let tree = object(vec![("dir", Json::Bool(false)), ("deps", deps), ("dir", text("d"))]);
    let manifest = ZagFile::from_json(&tree).unwrap();
    assert_eq!(manifest.dir(), &Some("d".to_string()));
    assert_eq!(manifest.len(), 1);
    assert_eq!(manifest.get(&"a".to_string()), Some(&record("r", "2", None)));
}

#[test]
fn a_tree_of_another_shape_is_refused() {
    assert_eq!(ZagFile::from_json(&Json::Null), Err(Error::MalformedManifest));
    assert_eq!(ZagFile::from_json(&object(vec![("dir", Json::Null)])), Err(Error::MalformedManifest));
    let bad_dep = object(vec![("deps", object(vec![("a", Json::Null)]))]);
    assert_eq!(ZagFile::from_json(&bad_dep), Err(Error::MalformedManifest));
}

#[test]
fn json_get_finds_the_last_member_of_a_name() {
    let tree = object(vec![("a", text("1")), ("b", Json::Null), ("a", text("2"))]);
    assert!(matches!(tree.get(&"a".to_string()), Some(Json::Text(s)) if s == "2"));
    assert!(matches!(tree.get(&"b".to_string()), Some(Json::Null)));
    assert!(tree.get(&"c".to_string()).is_none());
    assert!(text("a").get(&"a".to_string()).is_none());
    assert!(Json::Array(vec![text("a")]).get(&"a".to_string()).is_none());
}

#[test]
fn find_last_gives_the_place_of_the_last_match() {
    let pairs = vec![("a".to_string(), 1), ("b".to_string(), 2), ("a".to_string(), 3)];
    assert_eq!(find_last(&pairs, &"a".to_string()), Some(2));
    assert_eq!(find_last(&pairs, &"b".to_string()), Some(1));
    assert_eq!(find_last(&pairs, &"c".to_string()), None);
    let none: Vec<(String, i32)> = Vec::new();
    assert_eq!(find_last(&none, &"a".to_string()), None);
}

#[test]
fn json_parse_reads_every_kind_of_value() {
    assert!(matches!(Json::parse("null"), Some(Json::Null)));
    assert!(matches!(Json::parse("true"), Some(Json::Bool(true))));
    assert!(matches!(Json::parse("\"a\\nb\""), Some(Json::Text(s)) if s == "a\nb"));
    assert!(matches!(Json::parse("12"), Some(Json::Number(n)) if n.as_u64() == Some(12)));
    match Json::parse("[null, \"x\"]") {
        Some(Json::Array(items)) => {
            assert_eq!(items.len(), 2);
            assert!(matches!(&items[0], Json::Null));
            assert!(matches!(&items[1], Json::Text(s) if s == "x"));
        }
        other => panic!("not an array: {:?}", other),
    }
    match Json::parse("{\"b\": 1, \"a\": {\"c\": null}}") {
        Some(tree) => {
            assert!(matches!(tree.get(&"b".to_string()), Some(Json::Number(_))));
            let inner = tree.get(&"a".to_string()).unwrap();
            assert!(matches!(inner.get(&"c".to_string()), Some(Json::Null)));
        }
        None => panic!("not read"),
    }
    assert!(Json::parse("{\"a\": }").is_none());
    assert!(Json::parse("").is_none());
}

#[test]
fn json_is_written_with_every_kind_of_value() {
    let tree = object(vec![
        ("z", Json::Array(vec![Json::Null, Json::Bool(false), text("t")])),
        ("n", Json::parse("-3").unwrap()),
        ("z", Json::Array(vec![Json::Bool(true)])),
    ]);
    let written = tree.to_string_pretty().unwrap();
    assert_eq!(written, "{\n  \"n\": -3,\n  \"z\": [\n    true\n  ]\n}");
    assert_eq!(Json::Null.to_string_pretty(), Some("null".to_string()));
    assert_eq!(text("a\"b").to_string_pretty(), Some("\"a\\\"b\"".to_string()));
}
