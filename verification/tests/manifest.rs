use zag::error::Error;
use zag::parse::{clone_text, same_text, ZagDep, ZagFile};

fn dep(repo: &str, version: &str, entry: Option<&str>) -> ZagDep {
    ZagDep {
        repo: repo.to_string(),
        version: version.to_string(),
        entry: entry.map(|e| e.to_string()),
    }
}

#[test]
fn new_manifest_is_empty() {
    let manifest = ZagFile::new(Some("vendor".to_string()));
    assert_eq!(manifest.dir(), &Some("vendor".to_string()));
    assert_eq!(manifest.len(), 0);
    assert!(manifest.keys().is_empty());
    assert!(!manifest.contains_key(&"widget".to_string()));
    assert!(manifest.get(&"widget".to_string()).is_none());
}

#[test]
fn insert_adds_one_record() {
    let mut manifest = ZagFile::new(None);
    let done = manifest.insert("widget".to_string(), dep("https://example.com/acme/widget", "1.2.3", None));
    assert_eq!(done, Ok(()));
    assert_eq!(manifest.len(), 1);
    assert!(manifest.contains_key(&"widget".to_string()));
    assert_eq!(
        manifest.get(&"widget".to_string()),
        Some(&dep("https://example.com/acme/widget", "1.2.3", None))
    );
    assert_eq!(manifest.dir(), &None);
}

#[test]
fn insert_refuses_a_name_twice_and_keeps_the_first_record() {
    let mut manifest = ZagFile::new(None);
    assert_eq!(manifest.insert("widget".to_string(), dep("r", "1.0.0", None)), Ok(()));
    let before = manifest.clone();
    let second = manifest.insert("widget".to_string(), dep("r", "2.0.0", Some("main.zig")));
    assert_eq!(second, Err(Error::DuplicateDependency { name: "widget".to_string() }));
    assert_eq!(manifest, before);
    assert_eq!(manifest.len(), 1);
    assert_eq!(manifest.get(&"widget".to_string()).unwrap().version, "1.0.0");
}

#[test]
fn inserts_under_distinct_names_keep_every_record() {
    let mut manifest = ZagFile::new(None);
    let names = ["a", "b", "c", "d"];
    for (i, name) in names.iter().enumerate() {
        let record = dep("https://example.com/x", &format!("0.{}.0", i), None);
        assert_eq!(manifest.insert(name.to_string(), record), Ok(()));
    }
    assert_eq!(manifest.len(), 4);
    let mut keys = manifest.keys();
    keys.sort();
    assert_eq!(keys, vec!["a".to_string(), "b".to_string(), "c".to_string(), "d".to_string()]);
    for (i, name) in names.iter().enumerate() {
        let found = manifest.get(&name.to_string()).unwrap();
        assert_eq!(found.version, format!("0.{}.0", i));
    }
    assert!(!manifest.contains_key(&"e".to_string()));
}

#[test]
fn names_are_told_apart_exactly() {
    let mut manifest = ZagFile::new(None);
    assert_eq!(manifest.insert("widget".to_string(), dep("r", "1", None)), Ok(()));
    assert_eq!(manifest.insert("Widget".to_string(), dep("r", "2", None)), Ok(()));
    assert_eq!(manifest.insert("".to_string(), dep("r", "3", None)), Ok(()));
    assert_eq!(manifest.len(), 3);
    assert_eq!(manifest.get(&"".to_string()).unwrap().version, "3");
}

#[test]
fn manifests_are_equal_whatever_the_order_of_insertion() {
    let mut one = ZagFile::new(Some("deps".to_string()));
    let mut two = ZagFile::new(Some("deps".to_string()));
    assert_eq!(one.insert("a".to_string(), dep("ra", "1", None)), Ok(()));
    assert_eq!(one.insert("b".to_string(), dep("rb", "2", Some("b.zig"))), Ok(()));
    assert_eq!(two.insert("b".to_string(), dep("rb", "2", Some("b.zig"))), Ok(()));
    assert_eq!(two.insert("a".to_string(), dep("ra", "1", None)), Ok(()));
    assert!(one == two);
    assert!(two == one);
}

#[test]
fn manifests_that_differ_are_not_equal() {
    let mut one = ZagFile::new(None);
    assert_eq!(one.insert("a".to_string(), dep("ra", "1", None)), Ok(()));

    let mut other_version = ZagFile::new(None);
    assert_eq!(other_version.insert("a".to_string(), dep("ra", "2", None)), Ok(()));
    assert!(one != other_version);

    let mut other_name = ZagFile::new(None);
    assert_eq!(other_name.insert("b".to_string(), dep("ra", "1", None)), Ok(()));
    assert!(one != other_name);

    let mut other_dir = ZagFile::new(Some("x".to_string()));
    assert_eq!(other_dir.insert("a".to_string(), dep("ra", "1", None)), Ok(()));
    assert!(one != other_dir);

    let mut more = one.clone();
    assert_eq!(more.insert("b".to_string(), dep("rb", "1", None)), Ok(()));
    assert!(one != more);
    assert!(more != one);
}

#[test]
fn dependencies_compare_by_their_three_fields() {
    assert!(dep("r", "1", None) == dep("r", "1", None));
    assert!(dep("r", "1", Some("e")) == dep("r", "1", Some("e")));
    assert!(dep("r", "1", None) != dep("s", "1", None));
    assert!(dep("r", "1", None) != dep("r", "2", None));
    assert!(dep("r", "1", None) != dep("r", "1", Some("")));
    assert!(dep("r", "1", Some("e")) != dep("r", "1", Some("f")));
}

#[test]
fn a_clone_is_equal_and_independent() {
    let mut manifest = ZagFile::new(Some("d".to_string()));
    assert_eq!(manifest.insert("a".to_string(), dep("ra", "1", Some("a.zig"))), Ok(()));
    let copy = manifest.clone();
    assert_eq!(copy, manifest);
    assert_eq!(manifest.insert("b".to_string(), dep("rb", "1", None)), Ok(()));
    assert_eq!(copy.len(), 1);
    assert_eq!(manifest.len(), 2);
    let record = dep("r", "1", Some("e"));
    assert_eq!(record.clone(), record);
}

#[test]
fn optional_texts_are_copied_and_compared() {
    assert_eq!(clone_text(&None), None);
    assert_eq!(clone_text(&Some("x".to_string())), Some("x".to_string()));
    assert!(same_text(&None, &None));
    assert!(same_text(&Some("x".to_string()), &Some("x".to_string())));
    assert!(!same_text(&Some("x".to_string()), &None));
    assert!(!same_text(&None, &Some("x".to_string())));
    assert!(!same_text(&Some("x".to_string()), &Some("y".to_string())));
}

#[test]
fn open_failure_tells_a_missing_file_from_other_failures() {
    assert_eq!(
        Error::open_failure("p/zag.json".to_string(), true),
        Error::ManifestNotFound { path: "p/zag.json".to_string() }
    );
    assert_eq!(
        Error::open_failure("p/zag.json".to_string(), false),
        Error::IoError { path: "p/zag.json".to_string() }
    );
}
