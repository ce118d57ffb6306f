//! JSON values.
//!
//! [`Json`] is what the library reads and builds; [`JsonTree`] is the mathematical value it stands
//! for. An object is a map from names to values: the order in which a [`Json`] holds its members
//! means nothing, and where it holds one name twice the later member counts.

use crate::outside::{
    close_value, compact_text, json_number, json_parse, json_pretty, json_text, names_differ, number_from,
    open_value, parse_value, pretty_text, value_members, value_tree, value_trees, ValueNode,
};
use crate::text::same_text;
use vstd::prelude::*;

verus! {

/// The mathematical value of a JSON document.
pub enum JsonTree {
    Null,
    Bool(bool),
    Number(serde_json::Number),
    Text(Seq<char>),
    Array(Seq<JsonTree>),
    Object(Map<Seq<char>, JsonTree>),
}

/// A JSON value. A number is carried as it was read.
#[derive(Debug, PartialEq)]
pub enum Json {
    Null,
    Bool(bool),
    Number(serde_json::Number),
    Text(String),
    Array(Vec<Json>),
    Object(Vec<(String, Json)>),
}

/// The object that members in a row make up: a later member replaces an earlier one of its name.
pub open spec fn object_of(members: Seq<(Seq<char>, JsonTree)>) -> Map<Seq<char>, JsonTree>
    decreases members.len(),
{
    if members.len() == 0 {
        Map::empty()
    } else {
        object_of(members.drop_last()).insert(members.last().0, members.last().1)
    }
}

/// The values of the items of an array.
pub open spec fn trees(items: Seq<Json>) -> Seq<JsonTree>
    decreases items,
{
    Seq::new(
        items.len(),
        |i: int|
            if 0 <= i < items.len() {
                items[i].tree()
            } else {
                arbitrary()
            },
    )
}

/// The names and values of the members of an object.
pub open spec fn members_of(members: Seq<(String, Json)>) -> Seq<(Seq<char>, JsonTree)>
    decreases members,
{
    Seq::new(
        members.len(),
        |i: int|
            if 0 <= i < members.len() {
                (members[i].0@, members[i].1.tree())
            } else {
                arbitrary()
            },
    )
}

/// No later member has the name of member `i`, so member `i` is the one that counts.
pub open spec fn counts(members: Seq<(Seq<char>, JsonTree)>, i: int) -> bool {
    &&& 0 <= i < members.len()
    &&& forall|j: int| i < j < members.len() ==> (#[trigger] members[j]).0 != members[i].0
}

/// The member of an object that has the name `name`; nothing else has members.
pub open spec fn member(tree: JsonTree, name: Seq<char>) -> Option<JsonTree> {
    match tree {
        JsonTree::Object(map) => if map.dom().contains(name) {
            Some(map[name])
        } else {
            None
        },
        _ => None,
    }
}

/// The text that a JSON string holds.
pub open spec fn text_in(tree: JsonTree) -> Option<Seq<char>> {
    match tree {
        JsonTree::Text(s) => Some(s),
        _ => None,
    }
}

/// The text that the member `name` holds, where there is one and it is a string.
pub open spec fn text_member(tree: JsonTree, name: Seq<char>) -> Option<Seq<char>> {
    match member(tree, name) {
        Some(value) => text_in(value),
        None => None,
    }
}

/// What an optional text is.
pub open spec fn text_option(s: Option<&str>) -> Option<Seq<char>> {
    match s {
        Some(s) => Some(s@),
        None => None,
    }
}

/// The object that `members` make up holds each member that counts.
pub proof fn lemma_counting_member(members: Seq<(Seq<char>, JsonTree)>, i: int)
    requires
        counts(members, i),
    ensures
        object_of(members).dom().contains(members[i].0),
        object_of(members)[members[i].0] == members[i].1,
    decreases members.len(),
{
    let front = members.drop_last();
    let last = members.len() - 1;
    if i < last {
        assert(members[last].0 != members[i].0);
        assert forall|j: int| i < j < front.len() implies (#[trigger] front[j]).0 != front[i].0 by {
            assert(members[j].0 != members[i].0);
        }
        lemma_counting_member(front, i);
    }
}

/// The object that `members` make up holds nothing but members that count.
pub proof fn lemma_member_counts(members: Seq<(Seq<char>, JsonTree)>, name: Seq<char>) -> (i: int)
    requires
        object_of(members).dom().contains(name),
    ensures
        counts(members, i),
        members[i].0 == name,
    decreases members.len(),
{
    let front = members.drop_last();
    let last = members.len() - 1;
    if name == members[last].0 {
        last
    } else {
        let i = lemma_member_counts(front, name);
        assert forall|j: int| i < j < members.len() implies (#[trigger] members[j]).0
            != members[i].0 by {
            if j < last {
                assert(front[j].0 != front[i].0);
            }
        }
        i
    }
}

/// What members make up is finite.
proof fn lemma_object_finite(members: Seq<(Seq<char>, JsonTree)>)
    ensures
        object_of(members).dom().finite(),
    decreases members.len(),
{
    if members.len() > 0 {
        lemma_object_finite(members.drop_last());
    }
}

/// The value of a member that counts is smaller than the object.
proof fn lemma_member_smaller(members: Seq<(Seq<char>, JsonTree)>, i: int)
    requires
        counts(members, i),
    ensures
        decreases_to!(JsonTree::Object(object_of(members)) => members[i].1),
{
    let tree = JsonTree::Object(object_of(members));
    let map = object_of(members);
    lemma_counting_member(members, i);
    lemma_object_finite(members);
    assert(decreases_to!(tree => tree->Object_0));
    assert(decreases_to!(map => map[members[i].0]));
}

/// An item of an array is smaller than the array.
pub proof fn lemma_item_smaller(json: Json, items: Vec<Json>, i: int)
    requires
        json == Json::Array(items),
        0 <= i < items@.len(),
    ensures
        decreases_to!(json => items@[i]),
{
    assert(decreases_to!(json => json->Array_0));
    assert(decreases_to!(items => items@));
    assert(decreases_to!(items@ => items@[i]));
}

/// The value of a member of an object is smaller than the object.
pub proof fn lemma_entry_smaller(json: Json, members: Vec<(String, Json)>, i: int)
    requires
        json == Json::Object(members),
        0 <= i < members@.len(),
    ensures
        decreases_to!(json => members@[i].1),
{
    assert(decreases_to!(json => json->Object_0));
    assert(decreases_to!(members => members@));
    assert(decreases_to!(members@ => members@[i]));
    assert(decreases_to!(members@[i] => members@[i].1));
}

/// What the values of items and members are, one by one.
pub proof fn lemma_part_trees(items: Seq<Json>, members: Seq<(String, Json)>)
    ensures
        trees(items).len() == items.len(),
        members_of(members).len() == members.len(),
        forall|i: int| 0 <= i < items.len() ==> (#[trigger] trees(items)[i]) == items[i].tree(),
        forall|i: int|
            0 <= i < members.len() ==> (#[trigger] members_of(members)[i]) == (
                members[i].0@,
                members[i].1.tree(),
            ),
{
}

/// An item more in an array is a value more.
pub proof fn lemma_trees_push(items: Seq<Json>, item: Json)
    ensures
        trees(items.push(item)) == trees(items).push(item.tree()),
{
    assert(trees(items.push(item)) =~= trees(items).push(item.tree()));
}

/// A member more in an object is a name and a value more.
pub proof fn lemma_members_push(members: Seq<(String, Json)>, entry: (String, Json))
    ensures
        members_of(members.push(entry)) == members_of(members).push((entry.0@, entry.1.tree())),
{
    assert(members_of(members.push(entry)) =~= members_of(members).push(
        (entry.0@, entry.1.tree()),
    ));
}

/// The object that members in a row stand for.
pub open spec fn object(members: Seq<(String, Json)>) -> Map<Seq<char>, JsonTree> {
    object_of(members_of(members))
}

/// No members make up the object without members.
pub proof fn lemma_object_empty(members: Seq<(String, Json)>)
    requires
        members.len() == 0,
    ensures
        object(members) == Map::<Seq<char>, JsonTree>::empty(),
{
    lemma_part_trees(Seq::empty(), members);
}

/// An object without members, to which [`put`] adds.
pub fn no_members() -> (r: Vec<(String, Json)>)
    ensures
        object(r@) == Map::<Seq<char>, JsonTree>::empty(),
{
    let members: Vec<(String, Json)> = Vec::new();
    proof {
        lemma_object_empty(members@);
    }
    members
}

/// Gives an object the member `name`.
pub fn put(members: &mut Vec<(String, Json)>, name: &str, value: Json)
    ensures
        object(final(members)@) == object(old(members)@).insert(name@, value.tree()),
{
    let entry = (name.to_string(), value);
    proof {
        lemma_members_push(members@, entry);
        assert(members_of(members@.push(entry)).drop_last() =~= members_of(members@));
    }
    members.push(entry);
}

/// Whether a later member of the object has the name of member `i`.
pub(crate) fn is_replaced(members: &Vec<(String, Json)>, i: usize) -> (r: bool)
    requires
        i < members@.len(),
    ensures
        r == !counts(members_of(members@), i as int),
{
    let ghost shown = members_of(members@);
    proof {
        lemma_part_trees(Seq::empty(), members@);
    }
    let total = members.len();
    let mut j: usize = i + 1;
    while j < total
        invariant
            i < j <= total,
            total == members@.len(),
            shown == members_of(members@),
            shown.len() == members@.len(),
            forall|k: int| 0 <= k < shown.len() ==> (#[trigger] shown[k]).0 == members@[k].0@,
            forall|k: int| i < k < j ==> (#[trigger] shown[k]).0 != shown[i as int].0,
        decreases members@.len() - j,
    {
        if same_text(members[j].0.as_str(), members[i].0.as_str()) {
            assert(shown[j as int].0 == shown[i as int].0);
            return true;
        }
        j += 1;
    }
    false
}

/// `entries` are the members that count, each once: `places` tells where they stand.
spec fn picks(
    entries: Seq<(String, serde_json::Value)>,
    members: Seq<(Seq<char>, JsonTree)>,
    places: Seq<int>,
    below: int,
) -> bool {
    &&& entries.len() == places.len()
    &&& forall|e: int|
        0 <= e < places.len() ==> 0 <= (#[trigger] places[e]) < below && counts(members, places[e])
            && value_members(entries)[e] == members[places[e]]
    &&& forall|e: int, f: int| 0 <= e < f < places.len() ==> (#[trigger] places[e]) < (#[trigger] places[f])
    &&& forall|k: int| 0 <= k < below && #[trigger] counts(members, k) ==> places.contains(k)
}

/// The members that count have names that differ, and make up the object.
proof fn lemma_picked(
    entries: Seq<(String, serde_json::Value)>,
    members: Seq<(Seq<char>, JsonTree)>,
    places: Seq<int>,
)
    requires
        picks(entries, members, places, members.len() as int),
    ensures
        names_differ(entries),
        object_of(value_members(entries)) == object_of(members),
{
    let picked = value_members(entries);
    assert forall|e: int, f: int| 0 <= e < f < entries.len() implies (#[trigger] entries[e]).0@ != (
    #[trigger] entries[f]).0@ by {
        assert(places[e] < places[f]);
        assert(counts(members, places[e]));
        assert(members[places[f]].0 != members[places[e]].0);
        assert(picked[e] == members[places[e]] && picked[f] == members[places[f]]);
    }
    assert forall|e: int| 0 <= e < picked.len() implies #[trigger] counts(picked, e) by {
        assert forall|f: int| e < f < picked.len() implies (#[trigger] picked[f]).0
            != picked[e].0 by {
            assert(entries[e].0@ != entries[f].0@);
        }
    }
    let ours = object_of(picked);
    let theirs = object_of(members);
    assert forall|name: Seq<char>| theirs.dom().contains(name) implies #[trigger] ours.dom().contains(
        name,
    ) && ours[name] == theirs[name] by {
        let k = lemma_member_counts(members, name);
        assert(places.contains(k));
        let e = choose|e: int| 0 <= e < places.len() && places[e] == k;
        assert(picked[e] == members[k]);
        assert(counts(picked, e));
        lemma_counting_member(picked, e);
        lemma_counting_member(members, k);
    }
    assert forall|name: Seq<char>| ours.dom().contains(name) implies #[trigger] theirs.dom().contains(
        name,
    ) by {
        let e = lemma_member_counts(picked, name);
        assert(picked[e] == members[places[e]]);
        lemma_counting_member(members, places[e]);
    }
    assert(ours =~= theirs);
}

impl Json {
    /// The value that this stands for.
    pub open spec fn tree(self) -> JsonTree
        decreases self,
    {
        match self {
            Json::Null => JsonTree::Null,
            Json::Bool(b) => JsonTree::Bool(b),
            Json::Number(n) => JsonTree::Number(n),
            Json::Text(s) => JsonTree::Text(s@),
            Json::Array(items) => JsonTree::Array(trees(items@)),
            Json::Object(members) => JsonTree::Object(object_of(members_of(members@))),
        }
    }

    /// The string `s`.
    pub fn text(s: &str) -> (r: Json)
        ensures
            r.tree() == JsonTree::Text(s@),
    {
        Json::Text(s.to_string())
    }

    /// The whole number `n`.
    pub fn number(n: u64) -> (r: Json)
        ensures
            r.tree() == JsonTree::Number(json_number(n)),
    {
        Json::Number(number_from(n))
    }

    /// The member `name` of an object.
    pub fn get(&self, name: &str) -> (r: Option<&Json>)
        ensures
            match r {
                Some(value) => member(self.tree(), name@) == Some(value.tree()),
                None => member(self.tree(), name@) is None,
            },
    {
        match self {
            Json::Object(members) => {
                let ghost shown = members_of(members@);
                let mut i: usize = members.len();
                while i > 0
                    invariant
                        i <= members@.len(),
                        shown == members_of(members@),
                        self.tree() == JsonTree::Object(object_of(shown)),
                        forall|j: int| i <= j < members@.len() ==> (#[trigger] shown[j]).0 != name@,
                    decreases i,
                {
                    i -= 1;
                    if same_text(members[i].0.as_str(), name) {
                        proof {
                            assert(shown[i as int].0 == name@);
                            lemma_counting_member(shown, i as int);
                        }
                        return Some(&members[i].1);
                    }
                }
                proof {
                    if object_of(shown).dom().contains(name@) {
                        let found = lemma_member_counts(shown, name@);
                        assert(shown[found].0 == name@);
                    }
                }
                None
            },
            _ => None,
        }
    }

    /// The text of a string.
    pub fn as_str(&self) -> (r: Option<&str>)
        ensures
            text_option(r) == text_in(self.tree()),
    {
        match self {
            Json::Text(s) => Some(s.as_str()),
            _ => None,
        }
    }

    /// The text of the member `name`, where it is a string.
    pub fn get_str(&self, name: &str) -> (r: Option<&str>)
        ensures
            text_option(r) == text_member(self.tree(), name@),
    {
        match self.get(name) {
            Some(value) => value.as_str(),
            None => None,
        }
    }

    /// The library's form of a `serde_json::Value`.
    pub fn from_value(value: serde_json::Value) -> (r: Json)
        ensures
            r.tree() == value_tree(value),
        decreases value_tree(value),
    {
        match open_value(value) {
            ValueNode::Null => Json::Null,
            ValueNode::Bool(b) => Json::Bool(b),
            ValueNode::Number(n) => Json::Number(n),
            ValueNode::Text(s) => Json::Text(s),
            ValueNode::Array(values) => {
                let ghost whole = value_trees(values@);
                let mut items: Vec<Json> = Vec::new();
                for v in it: values
                    invariant
                        it.seq() == values@,
                        whole == value_trees(values@),
                        value_tree(value) == JsonTree::Array(whole),
                        trees(items@) == whole.take(it.index()),
                {
                    let ghost before = items@;
                    assert(v == values@[it.index()]);
                    assert(whole[it.index()] == value_tree(v));
                    assert(decreases_to!(value_tree(value) => value_tree(value)->Array_0));
                    assert(decreases_to!(whole => whole[it.index()]));
                    let item = Json::from_value(v);
                    items.push(item);
                    proof { lemma_trees_push(before, item); }
                    assert(trees(items@) =~= whole.take(it.index() + 1));
                }
                let out = Json::Array(items);
                assert(trees(items@) =~= whole);
                out
            },
            ValueNode::Object(entries) => {
                let ghost whole = value_members(entries@);
                let mut members: Vec<(String, Json)> = Vec::new();
                assert forall|i: int| 0 <= i < whole.len() implies #[trigger] counts(whole, i) by {
                    assert(forall|j: int| i < j < whole.len() ==> (#[trigger] whole[j]).0 == entries@[j].0@);
                }
                for entry in it: entries
                    invariant
                        it.seq() == entries@,
                        whole == value_members(entries@),
                        forall|i: int| 0 <= i < whole.len() ==> #[trigger] counts(whole, i),
                        value_tree(value) == JsonTree::Object(object_of(whole)),
                        members_of(members@) == whole.take(it.index()),
                {
                    let ghost before = members@;
                    proof {
                        assert(entry == entries@[it.index()]);
                        lemma_member_smaller(whole, it.index());
                    }
                    let name = entry.0;
                    let item = Json::from_value(entry.1);
                    members.push((name, item));
                    proof {
                        lemma_members_push(before, (name, item));
                        assert(members_of(members@) =~= whole.take(it.index() + 1));
                    }
                }
                assert(members_of(members@) =~= whole);
                Json::Object(members)
            },
        }
    }

    /// The `serde_json::Value` of a JSON value.
    pub fn to_value(&self) -> (r: serde_json::Value)
        ensures
            value_tree(r) == self.tree(),
        decreases self,
    {
        match self {
            Json::Null => close_value(ValueNode::Null),
            Json::Bool(b) => close_value(ValueNode::Bool(*b)),
            Json::Number(n) => close_value(ValueNode::Number(n.clone())),
            Json::Text(s) => close_value(ValueNode::Text(s.clone())),
            Json::Array(items) => {
                let mut values: Vec<serde_json::Value> = Vec::new();
                let mut i: usize = 0;
                while i < items.len()
                    invariant
                        i <= items@.len(),
                        self == Json::Array(*items),
                        value_trees(values@) == trees(items@).take(i as int),
                    decreases items@.len() - i,
                {
                    let ghost before = values@;
                    let item = &items[i];
                    proof {
                        lemma_item_smaller(*self, *items, i as int);
                        lemma_part_trees(items@, Seq::empty());
                    }
                    let value = item.to_value();
                    values.push(value);
                    i += 1;
                    assert(value_trees(values@) =~= value_trees(before).push(value_tree(value)));
                    assert(value_trees(values@) =~= trees(items@).take(i as int));
                }
                assert(value_trees(values@) =~= trees(items@));
                close_value(ValueNode::Array(values))
            },
            Json::Object(members) => {
                let ghost shown = members_of(members@);
                let ghost mut places: Seq<int> = Seq::empty();
                let mut entries: Vec<(String, serde_json::Value)> = Vec::new();
                let mut i: usize = 0;
                while i < members.len()
                    invariant
                        i <= members@.len(),
                        self == Json::Object(*members),
                        shown == members_of(members@),
                        picks(entries@, shown, places, i as int),
                    decreases members@.len() - i,
                {
                    let ghost before = entries@;
                    let ghost placed = places;
                    proof {
                        lemma_entry_smaller(*self, *members, i as int);
                        lemma_part_trees(Seq::empty(), members@);
                    }
                    if !is_replaced(members, i) {
                        let entry = &members[i];
                        let value = entry.1.to_value();
                        entries.push((entry.0.clone(), value));
                        proof {
                            places = places.push(i as int);
                            assert(value_members(entries@) =~= value_members(before).push(
                                shown[i as int],
                            ));
                            assert forall|k: int| 0 <= k <= i && #[trigger] counts(
                                shown,
                                k,
                            ) implies places.contains(k) by {
                                if k < i {
                                    assert(placed.contains(k));
                                    let e = choose|e: int| 0 <= e < placed.len() && placed[e] == k;
                                    assert(places[e] == k);
                                } else {
                                    assert(places[placed.len() as int] == k);
                                }
                            }
                        }
                    }
                    i += 1;
                }
                proof {
                    lemma_part_trees(Seq::empty(), members@);
                    lemma_picked(entries@, shown, places);
                }
                close_value(ValueNode::Object(entries))
            },
        }
    }

    /// Reads a text as JSON; nothing where it is not.
    pub fn parse(text: &str) -> (r: Option<Json>)
        ensures
            match r {
                Some(json) => json_parse(text@) == Some(json.tree()),
                None => json_parse(text@) is None,
            },
    {
        match parse_value(text) {
            Ok(value) => Some(Json::from_value(value)),
            Err(_) => None,
        }
    }

    /// The compact text of a JSON value.
    pub fn compact(&self) -> (r: String)
        ensures
            r@ == json_text(self.tree()),
    {
        let value = self.to_value();
        match compact_text(&value) {
            Ok(text) => text,
            Err(_) => String::new(),
        }
    }

    /// The indented text of a JSON value.
    pub fn pretty(&self) -> (r: String)
        ensures
            r@ == json_pretty(self.tree()),
    {
        let value = self.to_value();
        match pretty_text(&value) {
            Ok(text) => text,
            Err(_) => String::new(),
        }
    }
}

impl Clone for Json {
    fn clone(&self) -> (r: Json)
        ensures
            r.tree() == self.tree(),
        decreases self,
    {
        match self {
            Json::Null => Json::Null,
            Json::Bool(b) => Json::Bool(*b),
            Json::Number(n) => Json::Number(n.clone()),
            Json::Text(s) => Json::Text(s.clone()),
            Json::Array(items) => {
                let mut copies: Vec<Json> = Vec::new();
                let mut i: usize = 0;
                while i < items.len()
                    invariant
                        i <= items@.len(),
                        self == Json::Array(*items),
                        trees(copies@) == trees(items@).take(i as int),
                    decreases items@.len() - i,
                {
                    let ghost before = copies@;
                    let item = &items[i];
                    proof {
                        lemma_item_smaller(*self, *items, i as int);
                    }
                    let copy = item.clone();
                    copies.push(copy);
                    i += 1;
                    proof {
                        lemma_trees_push(before, copy);
                        assert(trees(copies@) =~= trees(items@).take(i as int));
                    }
                }
                assert(trees(copies@) =~= trees(items@));
                Json::Array(copies)
            },
            Json::Object(members) => {
                let mut copies: Vec<(String, Json)> = Vec::new();
                let mut i: usize = 0;
                while i < members.len()
                    invariant
                        i <= members@.len(),
                        self == Json::Object(*members),
                        members_of(copies@) == members_of(members@).take(i as int),
                    decreases members@.len() - i,
                {
                    let ghost before = copies@;
                    let entry = &members[i];
                    proof {
                        lemma_entry_smaller(*self, *members, i as int);
                    }
                    let name = entry.0.clone();
                    let copy = entry.1.clone();
                    copies.push((name, copy));
                    i += 1;
                    proof {
                        lemma_members_push(before, (name, copy));
                        assert(members_of(copies@) =~= members_of(members@).take(i as int));
                    }
                }
                assert(members_of(copies@) =~= members_of(members@));
                Json::Object(copies)
            },
        }
    }
}

// ---------------------------------------------------------------------------------------------
// Laws
// ---------------------------------------------------------------------------------------------

/// A member is found in an object under its own name, and nowhere else; of members only strings
/// have a text.
pub proof fn law_members_are_found_by_name(
    map: Map<Seq<char>, JsonTree>,
    name: Seq<char>,
    value: JsonTree,
    other: Seq<char>,
    tree: JsonTree,
)
    ensures
        member(JsonTree::Object(map.insert(name, value)), name) == Some(value),
        other != name ==> member(JsonTree::Object(map.insert(name, value)), other) == member(
            JsonTree::Object(map),
            other,
        ),
        member(JsonTree::Object(Map::empty()), name) is None,
        !(tree is Object) ==> member(tree, name) is None,
        text_member(JsonTree::Object(map.insert(name, value)), name) == match value {
            JsonTree::Text(s) => Some(s),
            JsonTree::Null => None,
            JsonTree::Bool(_) => None,
            JsonTree::Number(_) => None,
            JsonTree::Array(_) => None,
            JsonTree::Object(_) => None,
        },
        !(tree is Object) ==> text_member(tree, name) is None,
{
}

/// The last member of a name is the one that an object has.
pub proof fn law_later_member_counts(
    members: Seq<(Seq<char>, JsonTree)>,
    name: Seq<char>,
    value: JsonTree,
)
    ensures
        object_of(Seq::empty()) == Map::<Seq<char>, JsonTree>::empty(),
        object_of(members.push((name, value))) == object_of(members).insert(name, value),
{
    assert(members.push((name, value)).drop_last() =~= members);
}

/// A value stands for what it holds: an array for its items in their order, an object for its
/// members.
pub proof fn law_values_stand_for_what_they_hold(
    b: bool,
    n: serde_json::Number,
    s: String,
    items: Vec<Json>,
    members: Vec<(String, Json)>,
)
    ensures
        Json::Null.tree() == JsonTree::Null,
        Json::Bool(b).tree() == JsonTree::Bool(b),
        Json::Number(n).tree() == JsonTree::Number(n),
        Json::Text(s).tree() == JsonTree::Text(s@),
        Json::Array(items).tree() is Array,
        Json::Array(items).tree()->Array_0.len() == items@.len(),
        forall|i: int|
            0 <= i < items@.len() ==> #[trigger] Json::Array(items).tree()->Array_0[i]
                == items@[i].tree(),
        Json::Object(members).tree() == JsonTree::Object(object(members@)),
{
    lemma_part_trees(items@, members@);
}

} // verus!
