//! JSON values as trees. `serde_json` reads them from text and writes them
//! as text; what is taken on trust of it is marked as such below.
use crate::pairs::{
    find_last, has_key, lemma_pairs_map_dom, lemma_pairs_map_value, names_differ, pairs_map,
};
use crate::parse::text_view;
use vstd::prelude::*;

verus! {

/// `serde_json::Value`, of which nothing is known but what the functions
/// below say.
#[verifier::external_type_specification]
#[verifier::external_body]
pub struct ExValue(serde_json::Value);

/// `serde_json::Number`. A number is carried along and never looked into.
#[verifier::external_type_specification]
#[verifier::external_body]
pub struct ExNumber(serde_json::Number);

/// A JSON value. The members of an object are kept as a list; where a name
/// stands twice the later member counts.
#[derive(Debug)]
pub enum Json {
    Null,
    Bool(bool),
    Number(serde_json::Number),
    Text(String),
    Array(Vec<Json>),
    Object(Vec<(String, Json)>),
}

/// A JSON value as mathematics: texts are sequences of characters and an
/// object is a map from names to values.
pub enum JsonView {
    Null,
    Bool(bool),
    Number(serde_json::Number),
    Text(Seq<char>),
    Array(Seq<JsonView>),
    Object(Map<Seq<char>, JsonView>),
}

impl View for Json {
    type V = JsonView;

    open spec fn view(&self) -> JsonView
        decreases self,
    {
        match self {
            Json::Null => JsonView::Null,
            Json::Bool(b) => JsonView::Bool(*b),
            Json::Number(n) => JsonView::Number(*n),
            Json::Text(s) => JsonView::Text(s@),
            Json::Array(items) => JsonView::Array(items_view(items@)),
            Json::Object(members) => JsonView::Object(pairs_map(members_view(members@))),
        }
    }
}

impl JsonView {
    /// The member called `key`, where the value is an object that has one.
    pub open spec fn member(self, key: Seq<char>) -> Option<JsonView> {
        match self {
            JsonView::Object(fields) => if fields.dom().contains(key) {
                Some(fields[key])
            } else {
                None
            },
            _ => None,
        }
    }
}

/// The items of an array as views.
pub open spec fn items_view(items: Seq<Json>) -> Seq<JsonView>
    decreases items,
{
    Seq::new(
        items.len(),
        |i: int|
            if 0 <= i < items.len() {
                items[i]@
            } else {
                JsonView::Null
            },
    )
}

/// The members of an object, each with its name, as views.
pub open spec fn members_view(members: Seq<(String, Json)>) -> Seq<(Seq<char>, JsonView)>
    decreases members,
{
    Seq::new(
        members.len(),
        |i: int|
            if 0 <= i < members.len() {
                (members[i].0@, members[i].1@)
            } else {
                (Seq::empty(), JsonView::Null)
            },
    )
}

/// What a `serde_json::Value` holds.
pub uninterp spec fn json_tree(value: serde_json::Value) -> JsonView;

/// What `serde_json::from_str` makes of a text: the value it reads, or
/// nothing where the text is not one JSON value.
pub uninterp spec fn json_parsed(text: Seq<char>) -> Option<JsonView>;

/// What `serde_json::to_string_pretty` writes for a value, or nothing where
/// it reports an error.
pub uninterp spec fn json_pretty(tree: JsonView) -> Option<Seq<char>>;

/// Calls `serde_json::from_str` for a `Value`. Claims only that the outcome
/// is the one that `json_parsed` names: the same text always reads as the
/// same value, or always fails.
#[verifier::external_body]
fn value_from_str(text: &str) -> (parsed: Option<serde_json::Value>)
    ensures
        match parsed {
            Some(value) => json_parsed(text@) == Some(json_tree(value)),
            None => json_parsed(text@) is None,
        },
{
    serde_json::from_str(text).ok()
}

/// One layer of a `serde_json::Value`: what kind of value it is, with the
/// values below it left as they are.
enum Layer {
    Null,
    Bool(bool),
    Number(serde_json::Number),
    Text(String),
    Array(Vec<serde_json::Value>),
    Object(Vec<(String, serde_json::Value)>),
}

/// What the values of a list hold.
spec fn values_view(values: Seq<serde_json::Value>) -> Seq<JsonView> {
    Seq::new(values.len(), |i: int| json_tree(values[i]))
}

/// What the named values of a list hold.
spec fn value_members_view(members: Seq<(String, serde_json::Value)>) -> Seq<(Seq<char>, JsonView)> {
    Seq::new(members.len(), |i: int| (members[i].0@, json_tree(members[i].1)))
}

/// What a layer holds, given what the values below it hold.
spec fn layer_tree(layer: Layer) -> JsonView {
    match layer {
        Layer::Null => JsonView::Null,
        Layer::Bool(b) => JsonView::Bool(b),
        Layer::Number(n) => JsonView::Number(n),
        Layer::Text(s) => JsonView::Text(s@),
        Layer::Array(items) => JsonView::Array(values_view(items@)),
        Layer::Object(members) => JsonView::Object(pairs_map(value_members_view(members@))),
    }
}

/// Takes the top of a `serde_json::Value` apart, one arm for each variant.
/// The members of an object come out of its map as a list. Claims that the
/// value holds what its layer shows, and that no name stands twice among
/// the members, as they come from a map.
#[verifier::external_body]
fn layer_from_value(value: serde_json::Value) -> (layer: Layer)
    ensures
        layer_tree(layer) == json_tree(value),
        layer matches Layer::Object(members) ==> names_differ(value_members_view(members@)),
{
    match value {
        serde_json::Value::Null => Layer::Null,
        serde_json::Value::Bool(b) => Layer::Bool(b),
        serde_json::Value::Number(n) => Layer::Number(n),
        serde_json::Value::String(s) => Layer::Text(s),
        serde_json::Value::Array(a) => Layer::Array(a),
        serde_json::Value::Object(m) => Layer::Object(m.into_iter().collect()),
    }
}

/// Puts a `serde_json::Value` together, one arm for each variant. The
/// members of an object go into a new `serde_json::Map` by `Map::insert`, in
/// their order, and `insert` replaces the value of a name that is already
/// there. Claims that the value holds what the layer shows.
#[verifier::external_body]
fn value_from_layer(layer: Layer) -> (value: serde_json::Value)
    ensures
        json_tree(value) == layer_tree(layer),
{
    match layer {
        Layer::Null => serde_json::Value::Null,
        Layer::Bool(b) => serde_json::Value::Bool(b),
        Layer::Number(n) => serde_json::Value::Number(n),
        Layer::Text(s) => serde_json::Value::String(s),
        Layer::Array(a) => serde_json::Value::Array(a),
        Layer::Object(m) => serde_json::Value::Object(
            m.into_iter().fold(serde_json::Map::new(), |mut map, (k, v)| { map.insert(k, v); map }),
        ),
    }
}

/// Calls `clone` on a `serde_json::Number`. Claims that the copy is the same
/// number.
#[verifier::external_body]
fn number_clone(number: &serde_json::Number) -> (copy: serde_json::Number)
    ensures
        copy == *number,
{
    number.clone()
}

/// The tree of what a `serde_json::Value` holds.
fn tree_from_value(value: serde_json::Value) -> (tree: Json)
    ensures
        tree@ == json_tree(value),
    decreases json_tree(value),
{
    let ghost whole = json_tree(value);
    match layer_from_value(value) {
        Layer::Null => Json::Null,
        Layer::Bool(b) => Json::Bool(b),
        Layer::Number(n) => Json::Number(n),
        Layer::Text(s) => Json::Text(s),
        Layer::Array(values) => {
            let ghost below = values_view(values@);
            let mut items: Vec<Json> = Vec::new();
            for item in it: values
                invariant
                    whole == json_tree(value),
                    whole == JsonView::Array(below),
                    below == values_view(it.seq()),
                    items.len() == it.index(),
                    forall|j: int| 0 <= j < items.len() ==> (#[trigger] items[j])@ == below[j],
            {
                assert(json_tree(item) == below[it.index() as int]);
                assert(whole->Array_0 == below);
                items.push(tree_from_value(item));
            }
            assert(items_view(items@) =~= below);
            Json::Array(items)
        },
        Layer::Object(values) => {
            let ghost below = value_members_view(values@);
            let mut members: Vec<(String, Json)> = Vec::new();
            for member in it: values
                invariant
                    whole == json_tree(value),
                    whole == JsonView::Object(pairs_map(below)),
                    below == value_members_view(it.seq()),
                    names_differ(below),
                    members.len() == it.index(),
                    forall|j: int|
                        0 <= j < members.len() ==> (#[trigger] members[j]).0@ == below[j].0
                            && members[j].1@ == below[j].1,
            {
                let ghost at = it.index() as int;
                assert(below[at] == (member.0@, json_tree(member.1)));
                proof {
                    assert forall|j: int| at < j < below.len() implies (#[trigger] below[j]).0
                        != below[at].0 by {
                        assert(below[at].0 != below[j].0);
                    }
                    lemma_pairs_map_value(below, at);
                    assert(whole->Object_0 == pairs_map(below));
                }
                let (name, below_it) = member;
                members.push((name, tree_from_value(below_it)));
            }
            assert(members_view(members@) =~= below);
            Json::Object(members)
        },
    }
}

/// The `serde_json::Value` that holds a tree.
fn value_from_tree(tree: &Json) -> (value: serde_json::Value)
    ensures
        json_tree(value) == tree@,
    decreases tree,
{
    let layer = match tree {
        Json::Null => Layer::Null,
        Json::Bool(b) => Layer::Bool(*b),
        Json::Number(n) => Layer::Number(number_clone(n)),
        Json::Text(s) => Layer::Text(s.clone()),
        Json::Array(items) => {
            let mut values: Vec<serde_json::Value> = Vec::new();
            let mut i: usize = 0;
            while i < items.len()
                invariant
                    *tree == Json::Array(*items),
                    i <= items.len(),
                    values.len() == i,
                    forall|j: int| 0 <= j < i ==> json_tree(#[trigger] values[j]) == items[j]@,
                decreases items.len() - i,
            {
                assert(tree->Array_0 == *items);
                values.push(value_from_tree(&items[i]));
                i = i + 1;
            }
            assert(values_view(values@) =~= items_view(items@));
            Layer::Array(values)
        },
        Json::Object(members) => {
            let mut values: Vec<(String, serde_json::Value)> = Vec::new();
            let mut i: usize = 0;
            while i < members.len()
                invariant
                    *tree == Json::Object(*members),
                    i <= members.len(),
                    values.len() == i,
                    forall|j: int|
                        0 <= j < i ==> (#[trigger] values[j]).0@ == members[j].0@ && json_tree(
                            values[j].1,
                        ) == members[j].1@,
                decreases members.len() - i,
            {
                assert(tree->Object_0 == *members);
                values.push((members[i].0.clone(), value_from_tree(&members[i].1)));
                i = i + 1;
            }
            assert(value_members_view(values@) =~= members_view(members@));
            Layer::Object(values)
        },
    };
    value_from_layer(layer)
}

/// Calls `serde_json::to_string_pretty` on a `Value`. Claims only that the
/// outcome is the one that `json_pretty` names for what the value holds: a
/// `Value` keeps the members of an object in the order of their names, so
/// the text depends on nothing else.
#[verifier::external_body]
fn value_to_string_pretty(value: &serde_json::Value) -> (text: Option<String>)
    ensures
        text_view(text) == json_pretty(json_tree(*value)),
{
    serde_json::to_string_pretty(value).ok()
}

/// A [`Json`] or nothing, as a view.
pub open spec fn tree_view(tree: Option<Json>) -> Option<JsonView> {
    match tree {
        Some(t) => Some(t@),
        None => None,
    }
}

impl Json {
    /// Reads a text as one JSON value.
    pub fn parse(text: &str) -> (tree: Option<Json>)
        ensures
            tree_view(tree) == json_parsed(text@),
    {
        match value_from_str(text) {
            Some(value) => Some(tree_from_value(value)),
            None => None,
        }
    }

    /// Writes the value as indented text.
    pub fn to_string_pretty(&self) -> (text: Option<String>)
        ensures
            text_view(text) == json_pretty(self@),
    {
        let value = value_from_tree(self);
        value_to_string_pretty(&value)
    }

    /// The member called `key`, where the value is an object that has one.
    pub fn get(&self, key: &String) -> (found: Option<&Json>)
        ensures
            match found {
                Some(member) => self@.member(key@) == Some(member@),
                None => self@.member(key@) is None,
            },
    {
        match self {
            Json::Object(members) => {
                let found = find_last(members, key);
                proof {
                    let pairs = members_view(members@);
                    lemma_pairs_map_dom(pairs);
                    match found {
                        Some(i) => {
                            assert(pairs[i as int] == (key@, members@[i as int].1@));
                            assert forall|j: int| i < j < pairs.len() implies (#[trigger] pairs[j]).0
                                != pairs[i as int].0 by {
                                assert(members@[j].0@ != key@);
                            }
                            lemma_pairs_map_value(pairs, i as int);
                        },
                        None => {
                            if has_key(pairs, key@) {
                                let i = choose|i: int|
                                    0 <= i < pairs.len() && (#[trigger] pairs[i]).0 == key@;
                                assert(members@[i].0@ != key@);
                            }
                        },
                    }
                }
                match found {
                    Some(i) => Some(&members[i].1),
                    None => None,
                }
            },
            _ => None,
        }
    }
}

} // verus!
