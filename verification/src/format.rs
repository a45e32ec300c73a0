//! The manifest as JSON: an object with the members `dir` and `deps`, where
//! `deps` is an object that holds one object per dependency, under its name,
//! with the members `repo`, `version` and `entry`.
use crate::error::{Error, ErrorView};
use crate::json::{json_parsed, json_pretty, members_view, Json, JsonView};
use crate::pairs::{lemma_pairs_map_dom, lemma_pairs_map_value, pairs_map};
use crate::parse::{text_view, ZagDep, ZagDepView, ZagFile, ZagFileView};
use vstd::prelude::*;

verus! {

/// The text of the member `key`, where it is there and is a text.
pub open spec fn text_member(tree: JsonView, key: Seq<char>) -> Option<Seq<char>> {
    match tree.member(key) {
        Some(JsonView::Text(s)) => Some(s),
        _ => None,
    }
}

/// The optional text of the member `key`: none where the member is missing
/// or `null`. The outer `None` says that the member is neither a text nor
/// `null`.
pub open spec fn optional_text_member(tree: JsonView, key: Seq<char>) -> Option<Option<Seq<char>>> {
    match tree.member(key) {
        None => Some(None),
        Some(JsonView::Null) => Some(None),
        Some(JsonView::Text(s)) => Some(Some(s)),
        _ => None,
    }
}

/// The dependency that a JSON value stands for: an object with the texts
/// `repo` and `version`, and with `entry` a text, `null` or missing. Other
/// members are passed over.
pub open spec fn decode_dep(tree: JsonView) -> Option<ZagDepView> {
    match (
        text_member(tree, "repo"@),
        text_member(tree, "version"@),
        optional_text_member(tree, "entry"@),
    ) {
        (Some(repo), Some(version), Some(entry)) => Some(ZagDepView { repo, version, entry }),
        _ => None,
    }
}

/// The manifest that a JSON value stands for: an object in which `dir` is a
/// text, `null` or missing, and `deps` is an object whose members all stand
/// for dependencies. Other members are passed over.
pub open spec fn decode_manifest(tree: JsonView) -> Option<ZagFileView> {
    match (optional_text_member(tree, "dir"@), tree.member("deps"@)) {
        (Some(dir), Some(JsonView::Object(deps))) => if forall|name: Seq<char>|
            deps.dom().contains(name) ==> decode_dep(#[trigger] deps[name]) is Some {
            Some(
                ZagFileView {
                    dir,
                    deps: Map::new(
                        |name: Seq<char>| deps.dom().contains(name),
                        |name: Seq<char>| decode_dep(deps[name])->0,
                    ),
                },
            )
        } else {
            None
        },
        _ => None,
    }
}

/// An optional text as JSON: the text, or `null`.
pub open spec fn encode_text(text: Option<Seq<char>>) -> JsonView {
    match text {
        Some(s) => JsonView::Text(s),
        None => JsonView::Null,
    }
}

/// The JSON value that stands for a dependency.
pub open spec fn encode_dep(dep: ZagDepView) -> JsonView {
    JsonView::Object(
        Map::empty().insert("repo"@, JsonView::Text(dep.repo)).insert(
            "version"@,
            JsonView::Text(dep.version),
        ).insert("entry"@, encode_text(dep.entry)),
    )
}

/// The JSON value that stands for a manifest.
pub open spec fn encode_manifest(manifest: ZagFileView) -> JsonView {
    JsonView::Object(
        Map::empty().insert("dir"@, encode_text(manifest.dir)).insert(
            "deps"@,
            JsonView::Object(
                Map::new(
                    |name: Seq<char>| manifest.deps.dom().contains(name),
                    |name: Seq<char>| encode_dep(manifest.deps[name]),
                ),
            ),
        ),
    )
}

/// The names of the members are five different texts.
pub proof fn lemma_member_names_differ()
    ensures
        "repo"@ != "version"@,
        "repo"@ != "entry"@,
        "version"@ != "entry"@,
        "dir"@ != "deps"@,
{
    reveal_strlit("repo");
    reveal_strlit("version");
    reveal_strlit("entry");
    reveal_strlit("dir");
    reveal_strlit("deps");
    assert("repo"@.len() == 4);
    assert("version"@.len() == 7);
    assert("entry"@.len() == 5);
    assert("dir"@.len() == 3);
    assert("deps"@.len() == 4);
}

/// Reading what was written for a dependency gives the dependency back.
pub proof fn lemma_decode_encode_dep(dep: ZagDepView)
    ensures
        decode_dep(encode_dep(dep)) == Some(dep),
{
    lemma_member_names_differ();
}

/// Reading what was written for a manifest gives the manifest back, for
/// every manifest.
pub proof fn lemma_decode_encode(manifest: ZagFileView)
    ensures
        decode_manifest(encode_manifest(manifest)) == Some(manifest),
{
    lemma_member_names_differ();
    let deps = Map::new(
        |name: Seq<char>| manifest.deps.dom().contains(name),
        |name: Seq<char>| encode_dep(manifest.deps[name]),
    );
    assert(encode_manifest(manifest).member("deps"@) == Some(JsonView::Object(deps)));
    assert forall|name: Seq<char>| deps.dom().contains(name) implies decode_dep(
        #[trigger] deps[name],
    ) == Some(manifest.deps[name]) by {
        lemma_decode_encode_dep(manifest.deps[name]);
    }
    let back = decode_manifest(encode_manifest(manifest))->0;
    assert(back.deps =~= manifest.deps);
}

/// A manifest that was read, written unchanged and read again is the
/// manifest that was read first.
pub proof fn lemma_reload(tree: JsonView)
    requires
        decode_manifest(tree) is Some,
    ensures
        decode_manifest(encode_manifest(decode_manifest(tree)->0)) == decode_manifest(tree),
{
    lemma_decode_encode(decode_manifest(tree)->0);
}

/// A dependency or nothing, as a view.
pub open spec fn dep_view(dep: Option<ZagDep>) -> Option<ZagDepView> {
    match dep {
        Some(d) => Some(d@),
        None => None,
    }
}

/// The text of the member `key` of `tree`, where it is there and is a text.
fn read_text(tree: &Json, key: &str) -> (text: Option<String>)
    ensures
        text_view(text) == text_member(tree@, key@),
{
    match tree.get(&key.to_owned()) {
        Some(Json::Text(s)) => Some(s.clone()),
        _ => None,
    }
}

/// The optional text of the member `key` of `tree`; the outer `None` says
/// that the member is neither a text nor `null`.
fn read_optional_text(tree: &Json, key: &str) -> (text: Option<Option<String>>)
    ensures
        match text {
            Some(t) => optional_text_member(tree@, key@) == Some(text_view(t)),
            None => optional_text_member(tree@, key@) is None,
        },
{
    match tree.get(&key.to_owned()) {
        None => Some(None),
        Some(Json::Null) => Some(None),
        Some(Json::Text(s)) => Some(Some(s.clone())),
        Some(_) => None,
    }
}

/// An optional text as JSON: the text, or `null`.
fn write_text(text: &Option<String>) -> (tree: Json)
    ensures
        tree@ == encode_text(text_view(*text)),
{
    match text {
        Some(s) => Json::Text(s.clone()),
        None => Json::Null,
    }
}

impl ZagDep {
    /// Reads a dependency from the JSON value that stands for it.
    pub fn from_json(tree: &Json) -> (dep: Option<ZagDep>)
        ensures
            dep_view(dep) == decode_dep(tree@),
    {
        let repo = match read_text(tree, "repo") {
            Some(s) => s,
            None => { return None; },
        };
        let version = match read_text(tree, "version") {
            Some(s) => s,
            None => { return None; },
        };
        let entry = match read_optional_text(tree, "entry") {
            Some(e) => e,
            None => { return None; },
        };
        Some(ZagDep { repo, version, entry })
    }

    /// The JSON value that stands for the dependency.
    pub fn to_json(&self) -> (tree: Json)
        ensures
            tree@ == encode_dep(self@),
    {
        let mut members: Vec<(String, Json)> = Vec::new();
        members.push(("repo".to_owned(), Json::Text(self.repo.clone())));
        members.push(("version".to_owned(), Json::Text(self.version.clone())));
        members.push(("entry".to_owned(), write_text(&self.entry)));
        proof {
            let pairs = members_view(members@);
            reveal_with_fuel(pairs_map, 4);
            assert(pairs.drop_last().drop_last().drop_last().len() == 0);
            assert(pairs_map(pairs) =~= Map::empty().insert(
                "repo"@,
                JsonView::Text(self.repo@),
            ).insert("version"@, JsonView::Text(self.version@)).insert(
                "entry"@,
                encode_text(text_view(self.entry)),
            ));
        }
        Json::Object(members)
    }
}

impl ZagFile {
    /// Reads a manifest from the JSON value that stands for it, and fails
    /// with `MalformedManifest` where the value stands for none.
    pub fn from_json(tree: &Json) -> (read: Result<ZagFile, Error>)
        ensures
            match decode_manifest(tree@) {
                Some(manifest) => read matches Ok(m) && m@ == manifest,
                None => read matches Err(e) && e@ == ErrorView::MalformedManifest,
            },
    {
        let dir = match read_optional_text(tree, "dir") {
            Some(d) => d,
            None => { return Err(Error::MalformedManifest); },
        };
        let members = match tree.get(&"deps".to_owned()) {
            Some(Json::Object(members)) => members,
            _ => { return Err(Error::MalformedManifest); },
        };
        let ghost pairs = members_view(members@);
        let ghost deps = pairs_map(pairs);
        assert(tree@.member("deps"@) == Some(JsonView::Object(deps)));
        let mut manifest = ZagFile::new(dir);
        let mut i: usize = members.len();
        while i > 0
            invariant
                i <= members.len(),
                pairs == members_view(members@),
                deps == pairs_map(pairs),
                tree@.member("deps"@) == Some(JsonView::Object(deps)),
                optional_text_member(tree@, "dir"@) == Some(text_view(dir)),
                manifest@.dir == text_view(dir),
                forall|name: Seq<char>| #[trigger]
                    manifest@.deps.dom().contains(name) <==> exists|j: int|
                        i <= j < pairs.len() && (#[trigger] pairs[j]).0 == name,
                forall|name: Seq<char>| #[trigger]
                    manifest@.deps.dom().contains(name) ==> deps.dom().contains(name)
                        && decode_dep(deps[name]) == Some(manifest@.deps[name]),
            decreases i,
        {
            i = i - 1;
            let ghost before = manifest@;
            let ghost name = pairs[i as int].0;
            if !manifest.contains_key(&members[i].0) {
                proof {
                    assert forall|j: int| i < j < pairs.len() implies (#[trigger] pairs[j]).0
                        != pairs[i as int].0 by {
                        if pairs[j].0 == name {
                            assert(before.deps.dom().contains(name));
                        }
                    }
                    lemma_pairs_map_value(pairs, i as int);
                }
                match ZagDep::from_json(&members[i].1) {
                    Some(dep) => {
                        let added = manifest.insert(members[i].0.clone(), dep);
                        assert(added is Ok);
                    },
                    None => {
                        assert(decode_dep(deps[name]) is None);
                        return Err(Error::MalformedManifest);
                    },
                }
            }
            proof {
                assert forall|other: Seq<char>| #[trigger]
                    manifest@.deps.dom().contains(other) <==> exists|j: int|
                        i <= j < pairs.len() && (#[trigger] pairs[j]).0 == other by {
                    if manifest@.deps.dom().contains(other) {
                        if other == name {
                            assert(pairs[i as int].0 == other);
                        } else {
                            assert(before.deps.dom().contains(other));
                            let j = choose|j: int|
                                i + 1 <= j < pairs.len() && (#[trigger] pairs[j]).0 == other;
                            assert(pairs[j].0 == other);
                        }
                    }
                    if exists|j: int| i <= j < pairs.len() && (#[trigger] pairs[j]).0 == other {
                        let j = choose|j: int|
                            i <= j < pairs.len() && (#[trigger] pairs[j]).0 == other;
                        if j > i {
                            assert(before.deps.dom().contains(other));
                        }
                    }
                }
            }
        }
        proof {
            lemma_pairs_map_dom(pairs);
            let expected = decode_manifest(tree@)->0;
            assert forall|name: Seq<char>| deps.dom().contains(name) implies decode_dep(
                #[trigger] deps[name],
            ) is Some by {
                let j = choose|j: int| 0 <= j < pairs.len() && (#[trigger] pairs[j]).0 == name;
                assert(manifest@.deps.dom().contains(name));
            }
            assert forall|name: Seq<char>| manifest@.deps.dom().contains(name) implies deps.dom().contains(
                name,
            ) by {}
            assert(manifest@.deps =~= expected.deps);
        }
        Ok(manifest)
    }

    /// The JSON value that stands for the manifest.
    pub fn to_json(&self) -> (tree: Json)
        ensures
            tree@ == encode_manifest(self@),
    {
        let names = self.keys();
        let mut deps: Vec<(String, Json)> = Vec::new();
        let mut i: usize = 0;
        while i < names.len()
            invariant
                i <= names.len(),
                deps.len() == i,
                forall|j: int|
                    0 <= j < names.len() ==> self@.deps.dom().contains((#[trigger] names[j])@),
                forall|j: int|
                    0 <= j < i ==> (#[trigger] deps[j]).0@ == names[j]@ && deps[j].1@ == encode_dep(
                        self@.deps[names[j]@],
                    ),
            decreases names.len() - i,
        {
            match self.get(&names[i]) {
                Some(dep) => {
                    deps.push((names[i].clone(), dep.to_json()));
                },
                None => {
                    assert(self@.deps.dom().contains(names[i as int]@));
                    assert(false);
                },
            }
            i = i + 1;
        }
        let ghost pairs = members_view(deps@);
        let ghost written = Map::new(
            |name: Seq<char>| self@.deps.dom().contains(name),
            |name: Seq<char>| encode_dep(self@.deps[name]),
        );
        proof {
            lemma_pairs_map_dom(pairs);
            let listed = pairs_map(pairs);
            assert forall|name: Seq<char>| self@.deps.dom().contains(name) implies (
            #[trigger] listed.dom().contains(name)) && listed[name] == encode_dep(
                self@.deps[name],
            ) by {
                let j = choose|j: int| 0 <= j < names.len() && (#[trigger] names[j])@ == name;
                assert(deps[j].0@ == names[j]@);
                assert(pairs[j].0 == name);
                assert(pairs[j].1 == encode_dep(self@.deps[name]));
                assert forall|k: int| j < k < pairs.len() implies (#[trigger] pairs[k]).0
                    != pairs[j].0 by {
                    assert(deps[k].0@ == names[k]@);
                    assert(names[j]@ != names[k]@);
                }
                lemma_pairs_map_value(pairs, j);
            }
            assert forall|name: Seq<char>| #[trigger]
                listed.dom().contains(name) implies self@.deps.dom().contains(name) by {
                let j = choose|j: int| 0 <= j < pairs.len() && (#[trigger] pairs[j]).0 == name;
                assert(deps[j].0@ == names[j]@);
                assert(names[j]@ == name);
            }
            assert(listed =~= written);
        }
        let mut members: Vec<(String, Json)> = Vec::new();
        members.push(("dir".to_owned(), write_text(self.dir())));
        members.push(("deps".to_owned(), Json::Object(deps)));
        proof {
            let top = members_view(members@);
            reveal_with_fuel(pairs_map, 3);
            assert(top.drop_last().drop_last().len() == 0);
            assert(pairs_map(top) =~= Map::empty().insert("dir"@, encode_text(self@.dir)).insert(
                "deps"@,
                JsonView::Object(written),
            ));
        }
        Json::Object(members)
    }

    /// Reads the manifest that a file holds as text. Fails with
    /// `MalformedManifest` where the text is not JSON, or is JSON that
    /// stands for no manifest.
    pub fn load(text: &str) -> (read: Result<ZagFile, Error>)
        ensures
            match load_outcome(json_parsed(text@)) {
                Some(manifest) => read matches Ok(m) && m@ == manifest,
                None => read matches Err(e) && e@ == ErrorView::MalformedManifest,
            },
    {
        match Json::parse(text) {
            Some(tree) => ZagFile::from_json(&tree),
            None => Err(Error::MalformedManifest),
        }
    }

    /// The text to write to the manifest file: the whole manifest, indented.
    /// `None` where the JSON writer reports an error.
    pub fn render(&self) -> (text: Option<String>)
        ensures
            text_view(text) == json_pretty(encode_manifest(self@)),
    {
        self.to_json().to_string_pretty()
    }
}

/// The manifest that is read from a text, given what the JSON reader made
/// of the text.
pub open spec fn load_outcome(parsed: Option<JsonView>) -> Option<ZagFileView> {
    match parsed {
        Some(tree) => decode_manifest(tree),
        None => None,
    }
}

} // verus!
