//! The manifest of a project: an optional directory and the dependencies,
//! each under a name of its own.
use crate::error::{Error, ErrorView};
use crate::pairs::{
    find_last, has_key, lemma_distinct_names_count, lemma_pairs_map_dom, lemma_pairs_map_push,
    lemma_pairs_map_value, names_differ, pairs_map,
};
use vstd::prelude::*;

verus! {

/// An optional text as an optional sequence of characters.
pub open spec fn text_view(text: Option<String>) -> Option<Seq<char>> {
    match text {
        Some(s) => Some(s@),
        None => None,
    }
}

/// A copy of an optional text.
pub fn clone_text(text: &Option<String>) -> (copy: Option<String>)
    ensures
        text_view(copy) == text_view(*text),
{
    match text {
        Some(s) => Some(s.clone()),
        None => None,
    }
}

/// One dependency: where it comes from, which version, and its entry file.
#[derive(Debug)]
pub struct ZagDep {
    /// The URL of the repository, as text.
    pub repo: String,
    /// The version wanted; this library does not read it.
    pub version: String,
    /// The path of the entry file, relative to the project.
    pub entry: Option<String>,
}

/// A [`ZagDep`] with its texts as sequences of characters.
pub struct ZagDepView {
    pub repo: Seq<char>,
    pub version: Seq<char>,
    pub entry: Option<Seq<char>>,
}

impl View for ZagDep {
    type V = ZagDepView;

    open spec fn view(&self) -> ZagDepView {
        ZagDepView { repo: self.repo@, version: self.version@, entry: text_view(self.entry) }
    }
}

impl Clone for ZagDep {
    fn clone(&self) -> (copy: Self)
        ensures
            copy@ == self@,
    {
        ZagDep {
            repo: self.repo.clone(),
            version: self.version.clone(),
            entry: clone_text(&self.entry),
        }
    }
}

/// Whether two optional texts are the same.
pub fn same_text(a: &Option<String>, b: &Option<String>) -> (same: bool)
    ensures
        same == (text_view(*a) == text_view(*b)),
{
    match (a, b) {
        (Some(x), Some(y)) => *x == *y,
        (None, None) => true,
        _ => false,
    }
}

impl PartialEq for ZagDep {
    /// Two dependencies are equal when their three fields are.
    fn eq(&self, other: &Self) -> (same: bool) {
        self.repo == other.repo && self.version == other.version && same_text(
            &self.entry,
            &other.entry,
        )
    }
}

impl vstd::std_specs::cmp::PartialEqSpecImpl for ZagDep {
    open spec fn obeys_eq_spec() -> bool {
        true
    }

    open spec fn eq_spec(&self, other: &Self) -> bool {
        self@ == other@
    }
}

/// The manifest. No two of its dependencies share a name.
#[derive(Debug)]
pub struct ZagFile {
    dir: Option<String>,
    deps: Vec<(String, ZagDep)>,
}

/// A [`ZagFile`] as a directory and a map from names to dependencies.
pub struct ZagFileView {
    pub dir: Option<Seq<char>>,
    pub deps: Map<Seq<char>, ZagDepView>,
}

/// The dependencies of a list, each with its name, as views.
pub open spec fn entries_view(deps: Seq<(String, ZagDep)>) -> Seq<(Seq<char>, ZagDepView)> {
    Seq::new(deps.len(), |i: int| (deps[i].0@, deps[i].1@))
}

/// What adding `record` under `name` makes of a manifest: the manifest with
/// one dependency more, or `DuplicateDependency` where it already holds one
/// of that name.
pub open spec fn insert_outcome(
    manifest: ZagFileView,
    name: Seq<char>,
    record: ZagDepView,
) -> Result<ZagFileView, ErrorView> {
    if manifest.deps.dom().contains(name) {
        Err(ErrorView::DuplicateDependency { name })
    } else {
        Ok(ZagFileView { dir: manifest.dir, deps: manifest.deps.insert(name, record) })
    }
}

impl View for ZagFile {
    type V = ZagFileView;

    closed spec fn view(&self) -> ZagFileView {
        ZagFileView { dir: text_view(self.dir), deps: pairs_map(entries_view(self.deps@)) }
    }
}

impl Clone for ZagFile {
    fn clone(&self) -> (copy: Self)
        ensures
            copy@ == self@,
    {
        proof {
            use_type_invariant(self);
        }
        let mut deps: Vec<(String, ZagDep)> = Vec::new();
        let mut i: usize = 0;
        while i < self.deps.len()
            invariant
                i <= self.deps.len(),
                deps.len() == i,
                forall|j: int|
                    0 <= j < i ==> (#[trigger] deps[j]).0@ == self.deps[j].0@ && deps[j].1@
                        == self.deps[j].1@,
            decreases self.deps.len() - i,
        {
            let name = self.deps[i].0.clone();
            let record = self.deps[i].1.clone();
            deps.push((name, record));
            i = i + 1;
        }
        assert(entries_view(deps@) =~= entries_view(self.deps@));
        ZagFile { dir: clone_text(&self.dir), deps }
    }
}

impl PartialEq for ZagFile {
    /// Two manifests are equal when they have the same directory and the same
    /// dependencies under the same names, in whatever order they were added.
    fn eq(&self, other: &Self) -> (same: bool) {
        proof {
            use_type_invariant(self);
            use_type_invariant(other);
            lemma_distinct_names_count(entries_view(self.deps@));
            lemma_distinct_names_count(entries_view(other.deps@));
            lemma_pairs_map_dom(entries_view(self.deps@));
        }
        if !same_text(&self.dir, &other.dir) || self.deps.len() != other.deps.len() {
            return false;
        }
        let ghost mine = entries_view(self.deps@);
        let mut i: usize = 0;
        while i < self.deps.len()
            invariant
                i <= self.deps.len(),
                mine == entries_view(self.deps@),
                names_differ(mine),
                forall|j: int|
                    0 <= j < i ==> other@.deps.dom().contains((#[trigger] mine[j]).0)
                        && other@.deps[mine[j].0] == mine[j].1,
            decreases self.deps.len() - i,
        {
            let ghost name = mine[i as int].0;
            proof {
                assert forall|j: int| i < j < mine.len() implies (#[trigger] mine[j]).0
                    != mine[i as int].0 by {
                    assert(mine[i as int].0 != mine[j].0);
                }
                lemma_pairs_map_value(mine, i as int);
            }
            match other.get(&self.deps[i].0) {
                Some(theirs) => {
                    if !(self.deps[i].1 == *theirs) {
                        assert(self@.deps[name] != other@.deps[name]);
                        return false;
                    }
                },
                None => {
                    assert(self@.deps.dom().contains(name));
                    return false;
                },
            }
            i = i + 1;
        }
        proof {
            assert(self@.deps.dom().subset_of(other@.deps.dom())) by {
                assert forall|name: Seq<char>| self@.deps.dom().contains(name) implies other@.deps.dom().contains(
                    name,
                ) by {
                    let j = choose|j: int| 0 <= j < mine.len() && (#[trigger] mine[j]).0 == name;
                    assert(other@.deps.dom().contains(mine[j].0));
                }
            }
            vstd::set_lib::lemma_subset_equality(self@.deps.dom(), other@.deps.dom());
            assert forall|name: Seq<char>| self@.deps.dom().contains(name) implies self@.deps[name]
                == other@.deps[name] by {
                let j = choose|j: int| 0 <= j < mine.len() && (#[trigger] mine[j]).0 == name;
                assert forall|k: int| j < k < mine.len() implies (#[trigger] mine[k]).0
                    != mine[j].0 by {
                    assert(mine[j].0 != mine[k].0);
                }
                lemma_pairs_map_value(mine, j);
                assert(other@.deps[mine[j].0] == mine[j].1);
            }
            assert(self@.deps =~= other@.deps);
        }
        true
    }
}

impl vstd::std_specs::cmp::PartialEqSpecImpl for ZagFile {
    open spec fn obeys_eq_spec() -> bool {
        true
    }

    open spec fn eq_spec(&self, other: &Self) -> bool {
        self@ == other@
    }
}

impl ZagFile {
    #[verifier::type_invariant]
    spec fn well_formed(self) -> bool {
        names_differ(entries_view(self.deps@))
    }

    /// A manifest without dependencies.
    pub fn new(dir: Option<String>) -> (manifest: Self)
        ensures
            manifest@ == (ZagFileView { dir: text_view(dir), deps: Map::empty() }),
    {
        let manifest = ZagFile { dir, deps: Vec::new() };
        assert(entries_view(manifest.deps@) =~= Seq::empty());
        manifest
    }

    /// The directory into which dependencies are installed, if one is set.
    pub fn dir(&self) -> (dir: &Option<String>)
        ensures
            text_view(*dir) == self@.dir,
    {
        &self.dir
    }

    /// How many dependencies the manifest holds.
    pub fn len(&self) -> (count: usize)
        ensures
            self@.deps.dom().finite(),
            count == self@.deps.dom().len(),
    {
        proof {
            use_type_invariant(self);
            lemma_distinct_names_count(entries_view(self.deps@));
        }
        self.deps.len()
    }

    /// Whether the manifest holds a dependency called `name`.
    pub fn contains_key(&self, name: &String) -> (found: bool)
        ensures
            found == self@.deps.dom().contains(name@),
    {
        let found = find_last(&self.deps, name);
        proof {
            let entries = entries_view(self.deps@);
            lemma_pairs_map_dom(entries);
            match found {
                Some(i) => {
                    assert(entries[i as int].0 == name@);
                },
                None => {
                    if has_key(entries, name@) {
                        let i = choose|i: int|
                            0 <= i < entries.len() && (#[trigger] entries[i]).0 == name@;
                        assert(self.deps@[i].0@ != name@);
                    }
                },
            }
        }
        found.is_some()
    }

    /// The dependency called `name`, if the manifest holds one.
    pub fn get(&self, name: &String) -> (found: Option<&ZagDep>)
        ensures
            match found {
                Some(dep) => self@.deps.dom().contains(name@) && dep@ == self@.deps[name@],
                None => !self@.deps.dom().contains(name@),
            },
    {
        let found = find_last(&self.deps, name);
        proof {
            let entries = entries_view(self.deps@);
            lemma_pairs_map_dom(entries);
            match found {
                Some(i) => {
                    assert(entries[i as int] == (name@, self.deps@[i as int].1@));
                    assert forall|j: int| i < j < entries.len() implies (#[trigger] entries[j]).0
                        != entries[i as int].0 by {
                        assert(self.deps@[j].0@ != name@);
                    }
                    lemma_pairs_map_value(entries, i as int);
                },
                None => {
                    if has_key(entries, name@) {
                        let i = choose|i: int|
                            0 <= i < entries.len() && (#[trigger] entries[i]).0 == name@;
                        assert(self.deps@[i].0@ != name@);
                    }
                },
            }
        }
        match found {
            Some(i) => Some(&self.deps[i].1),
            None => None,
        }
    }

    /// The names of the dependencies, each once.
    pub fn keys(&self) -> (names: Vec<String>)
        ensures
            names.len() == self@.deps.dom().len(),
            forall|i: int| 0 <= i < names.len() ==> self@.deps.dom().contains((#[trigger] names[i])@),
            forall|i: int, j: int|
                0 <= i < j < names.len() ==> (#[trigger] names[i])@ != (#[trigger] names[j])@,
            forall|name: Seq<char>|
                self@.deps.dom().contains(name) ==> exists|i: int|
                    0 <= i < names.len() && (#[trigger] names[i])@ == name,
    {
        let ghost entries = entries_view(self.deps@);
        proof {
            use_type_invariant(self);
            lemma_distinct_names_count(entries);
            lemma_pairs_map_dom(entries);
        }
        let mut names: Vec<String> = Vec::new();
        let mut i: usize = 0;
        while i < self.deps.len()
            invariant
                i <= self.deps.len(),
                names.len() == i,
                forall|j: int| 0 <= j < i ==> (#[trigger] names[j])@ == self.deps[j].0@,
            decreases self.deps.len() - i,
        {
            names.push(self.deps[i].0.clone());
            i = i + 1;
        }
        proof {
            assert forall|j: int| 0 <= j < names.len() implies self@.deps.dom().contains(
                (#[trigger] names[j])@,
            ) by {
                assert(entries[j].0 == names[j]@);
            }
            assert forall|j: int, k: int| 0 <= j < k < names.len() implies (#[trigger] names[j])@
                != (#[trigger] names[k])@ by {
                assert(entries[j].0 != entries[k].0);
            }
            assert forall|name: Seq<char>| self@.deps.dom().contains(name) implies exists|j: int|
                0 <= j < names.len() && (#[trigger] names[j])@ == name by {
                let j = choose|j: int| 0 <= j < entries.len() && (#[trigger] entries[j]).0 == name;
                assert(names[j]@ == name);
            }
        }
        names
    }

    /// Adds `record` under `name`. A name that the manifest already holds is
    /// refused, and the manifest stays as it was: a dependency is never
    /// replaced.
    pub fn insert(&mut self, name: String, record: ZagDep) -> (done: Result<(), Error>)
        ensures
            match insert_outcome(old(self)@, name@, record@) {
                Ok(after) => done is Ok && final(self)@ == after,
                Err(e) => done matches Err(x) && x@ == e && *final(self) == *old(self),
            },
    {
        if self.contains_key(&name) {
            return Err(Error::DuplicateDependency { name });
        }
        proof {
            use_type_invariant(&*self);
        }
        let ghost before = entries_view(self.deps@);
        let mut deps: Vec<(String, ZagDep)> = Vec::new();
        std::mem::swap(&mut deps, &mut self.deps);
        deps.push((name, record));
        proof {
            let after = entries_view(deps@);
            assert(after =~= before.push((name@, record@)));
            lemma_pairs_map_push(before, name@, record@);
            lemma_pairs_map_dom(before);
            assert forall|i: int, j: int| 0 <= i < j < after.len() implies (#[trigger] after[i]).0
                != (#[trigger] after[j]).0 by {
                if j < before.len() {
                    assert(before[i].0 != before[j].0);
                } else {
                    assert(before[i].0 == after[i].0);
                    assert(has_key(before, after[i].0));
                }
            }
        }
        self.deps = deps;
        Ok(())
    }
}

/// The manifest after a run of insertions, each made on what the one before
/// left. An insertion that is refused leaves the manifest as it was.
pub open spec fn insert_all(manifest: ZagFileView, adds: Seq<(Seq<char>, ZagDepView)>) -> ZagFileView
    decreases adds.len(),
{
    if adds.len() == 0 {
        manifest
    } else {
        let before = insert_all(manifest, adds.drop_last());
        match insert_outcome(before, adds.last().0, adds.last().1) {
            Ok(after) => after,
            Err(_) => before,
        }
    }
}

/// After insertions under names that all differ, the manifest holds one
/// record under each of the names and under each name that it held before,
/// and under no other. What it held before is unchanged, and each new name
/// has the record that was inserted under it.
pub proof fn lemma_insert_all_distinct(manifest: ZagFileView, adds: Seq<(Seq<char>, ZagDepView)>)
    requires
        names_differ(adds),
    ensures
        insert_all(manifest, adds).dir == manifest.dir,
        forall|name: Seq<char>| #[trigger]
            insert_all(manifest, adds).deps.dom().contains(name) <==> manifest.deps.dom().contains(
                name,
            ) || has_key(adds, name),
        forall|name: Seq<char>|
            manifest.deps.dom().contains(name) ==> #[trigger] insert_all(manifest, adds).deps[name]
                == manifest.deps[name],
        forall|i: int|
            0 <= i < adds.len() && !manifest.deps.dom().contains((#[trigger] adds[i]).0)
                ==> insert_all(manifest, adds).deps[adds[i].0] == adds[i].1,
    decreases adds.len(),
{
    if adds.len() > 0 {
        let front = adds.drop_last();
        let last = adds.last();
        assert(names_differ(front)) by {
            assert forall|i: int, j: int| 0 <= i < j < front.len() implies (#[trigger] front[i]).0
                != (#[trigger] front[j]).0 by {
                assert(adds[i].0 != adds[j].0);
            }
        }
        lemma_insert_all_distinct(manifest, front);
        let before = insert_all(manifest, front);
        let after = insert_all(manifest, adds);
        assert(!has_key(front, last.0)) by {
            if has_key(front, last.0) {
                let i = choose|i: int| 0 <= i < front.len() && (#[trigger] front[i]).0 == last.0;
                assert(adds[i].0 != adds[adds.len() - 1].0);
            }
        }
        assert forall|name: Seq<char>| #[trigger]
            after.deps.dom().contains(name) <==> manifest.deps.dom().contains(name) || has_key(
                adds,
                name,
            ) by {
            if has_key(adds, name) {
                let i = choose|i: int| 0 <= i < adds.len() && (#[trigger] adds[i]).0 == name;
                if i < front.len() {
                    assert(front[i].0 == name);
                }
            }
            if has_key(front, name) {
                let i = choose|i: int| 0 <= i < front.len() && (#[trigger] front[i]).0 == name;
                assert(adds[i].0 == name);
            }
            if name == last.0 {
                assert(adds[adds.len() - 1].0 == name);
            }
        }
        assert forall|i: int|
            0 <= i < adds.len() && !manifest.deps.dom().contains(
                (#[trigger] adds[i]).0,
            ) implies after.deps[adds[i].0] == adds[i].1 by {
            if i < front.len() {
                assert(front[i].0 == adds[i].0);
                assert(adds[i].0 != adds[adds.len() - 1].0);
            }
        }
    }
}

} // verus!
