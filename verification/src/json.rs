//! Dynamic structured values: the tagged tree that records and wire
//! envelopes are made of, and the calls that read it from text.

use crate::text::str_eq;
use vstd::prelude::*;

verus! {

/// A number as text holds it. An integer is kept as such; any other number
/// is kept as its shortest decimal text, which stands for it exactly.
#[derive(Debug)]
pub enum JsonNumber {
    PosInt(u64),
    NegInt(i64),
    Float(String),
}

pub enum JsonNumberView {
    PosInt(u64),
    NegInt(i64),
    Float(Seq<char>),
}

impl View for JsonNumber {
    type V = JsonNumberView;

    open spec fn view(&self) -> JsonNumberView {
        match self {
            JsonNumber::PosInt(n) => JsonNumberView::PosInt(*n),
            JsonNumber::NegInt(n) => JsonNumberView::NegInt(*n),
            JsonNumber::Float(t) => JsonNumberView::Float(t@),
        }
    }
}

/// A named member of an object.
#[derive(Debug)]
pub struct Member {
    pub name: String,
    pub value: JsonValue,
}

/// A structured value.
#[derive(Debug)]
pub enum JsonValue {
    Null,
    Bool(bool),
    Number(JsonNumber),
    Text(String),
    Array(Vec<JsonValue>),
    Object(Vec<Member>),
}

pub enum JsonView {
    Null,
    Bool(bool),
    Number(JsonNumberView),
    Text(Seq<char>),
    Array(Seq<JsonView>),
    Object(Seq<(Seq<char>, JsonView)>),
}

/// The tree that `v` stands for, with strings as character sequences.
pub open spec fn value_view(v: JsonValue) -> JsonView
    decreases v,
{
    match v {
        JsonValue::Null => JsonView::Null,
        JsonValue::Bool(b) => JsonView::Bool(b),
        JsonValue::Number(n) => JsonView::Number(n@),
        JsonValue::Text(s) => JsonView::Text(s@),
        JsonValue::Array(items) => JsonView::Array(
            Seq::new(
                items@.len(),
                |i: int|
                    if 0 <= i < items@.len() {
                        value_view(items@[i])
                    } else {
                        JsonView::Null
                    },
            ),
        ),
        JsonValue::Object(members) => JsonView::Object(
            Seq::new(
                members@.len(),
                |i: int|
                    if 0 <= i < members@.len() {
                        (members@[i].name@, value_view(members@[i].value))
                    } else {
                        (Seq::empty(), JsonView::Null)
                    },
            ),
        ),
    }
}

impl View for JsonValue {
    type V = JsonView;

    open spec fn view(&self) -> JsonView {
        value_view(*self)
    }
}

/// The names and values of a list of members.
pub open spec fn members_view(ms: Seq<Member>) -> Seq<(Seq<char>, JsonView)> {
    Seq::new(ms.len(), |i: int| (ms[i].name@, ms[i].value@))
}

/// The values of a list of items.
pub open spec fn items_view(items: Seq<JsonValue>) -> Seq<JsonView> {
    Seq::new(items.len(), |i: int| items[i]@)
}

/// An array's view is the list of its items' views; an object's, of its
/// members'.
pub proof fn lemma_value_view(v: JsonValue)
    ensures
        v matches JsonValue::Array(items) ==> v@ == JsonView::Array(items_view(items@)),
        v matches JsonValue::Object(ms) ==> v@ == JsonView::Object(members_view(ms@)),
{
    reveal_with_fuel(value_view, 2);
    match v {
        JsonValue::Array(items) => {
            assert(v@ is Array);
            assert(v@->Array_0.len() == items@.len());
            assert forall|i: int| 0 <= i < items@.len() implies v@->Array_0[i] == items@[i]@ by {}
            assert(v@->Array_0 =~= items_view(items@));
        },
        JsonValue::Object(ms) => {
            assert(v@ is Object);
            assert(v@->Object_0.len() == ms@.len());
            assert forall|i: int| 0 <= i < ms@.len() implies v@->Object_0[i] == (
                ms@[i].name@,
                ms@[i].value@,
            ) by {}
            assert(v@->Object_0 =~= members_view(ms@));
        },
        _ => {},
    }
}

/// The value of the first member called `name`, if there is one.
pub open spec fn lookup(ms: Seq<(Seq<char>, JsonView)>, name: Seq<char>) -> Option<JsonView>
    decreases ms.len(),
{
    if ms.len() == 0 {
        None
    } else if ms[0].0 == name {
        Some(ms[0].1)
    } else {
        lookup(ms.drop_first(), name)
    }
}

/// Finds the first member called `name`.
pub fn find_member<'a>(members: &'a Vec<Member>, name: &str) -> (r: Option<&'a JsonValue>)
    ensures
        r is Some <==> lookup(members_view(members@), name@) is Some,
        r matches Some(v) ==> lookup(members_view(members@), name@) == Some(v@),
{
    let ghost all = members_view(members@);
    assert(all.skip(0) =~= all);
    let mut i: usize = 0;
    while i < members.len()
        invariant
            0 <= i <= members.len(),
            all == members_view(members@),
            lookup(all, name@) == lookup(all.skip(i as int), name@),
        decreases members.len() - i,
    {
        proof {
            assert(all.skip(i as int).drop_first() =~= all.skip(i as int + 1));
            assert(all.skip(i as int)[0] == all[i as int]);
        }
        if str_eq(members[i].name.as_str(), name) {
            return Some(&members[i].value);
        }
        i += 1;
    }
    assert(all.skip(i as int).len() == 0);
    None
}

fn clone_number(n: &JsonNumber) -> (r: JsonNumber)
    ensures
        r@ == n@,
{
    match n {
        JsonNumber::PosInt(v) => JsonNumber::PosInt(*v),
        JsonNumber::NegInt(v) => JsonNumber::NegInt(*v),
        JsonNumber::Float(t) => JsonNumber::Float(t.clone()),
    }
}

/// A copy of `v`.
pub fn clone_value(v: &JsonValue) -> (r: JsonValue)
    ensures
        r@ == v@,
    decreases v,
{
    match v {
        JsonValue::Null => JsonValue::Null,
        JsonValue::Bool(b) => JsonValue::Bool(*b),
        JsonValue::Number(n) => JsonValue::Number(clone_number(n)),
        JsonValue::Text(s) => JsonValue::Text(s.clone()),
        JsonValue::Array(items) => {
            let mut out: Vec<JsonValue> = Vec::new();
            let mut i: usize = 0;
            while i < items.len()
                invariant
                    0 <= i <= items.len(),
                    out@.len() == i,
                    *v == JsonValue::Array(*items),
                    forall|k: int| 0 <= k < i ==> (#[trigger] out@[k])@ == items@[k]@,
                decreases items.len() - i,
            {
                proof {
                    broadcast use vstd::std_specs::vec::group_vec_axioms;
                    assert(decreases_to!(*items => items@));
                    assert(decreases_to!(items@ => items@[i as int]));
                    assert(*items == (*v)->Array_0);
                    assert(decreases_to!(*v => (*v)->Array_0));
                }
                out.push(clone_value(&items[i]));
                i += 1;
            }
            let r = JsonValue::Array(out);
            proof {
                lemma_value_view(*v);
                lemma_value_view(r);
                assert(items_view(out@) =~= items_view(items@));
            }
            r
        },
        JsonValue::Object(ms) => {
            let out = clone_members_of(v, ms);
            let r = JsonValue::Object(out);
            proof {
                lemma_value_view(*v);
                lemma_value_view(r);
            }
            r
        },
    }
}

fn clone_members_of(owner: &JsonValue, ms: &Vec<Member>) -> (out: Vec<Member>)
    requires
        *owner == JsonValue::Object(*ms),
    ensures
        members_view(out@) == members_view(ms@),
    decreases owner, 0nat,
{
    let mut out: Vec<Member> = Vec::new();
    let mut i: usize = 0;
    while i < ms.len()
        invariant
            0 <= i <= ms.len(),
            out@.len() == i,
            *owner == JsonValue::Object(*ms),
            forall|k: int| 0 <= k < i ==> (#[trigger] out@[k]).name@ == ms@[k].name@ && out@[k].value@ == ms@[k].value@,
        decreases ms.len() - i,
    {
        proof {
            broadcast use vstd::std_specs::vec::group_vec_axioms;
            assert(decreases_to!(*ms => ms@));
            assert(decreases_to!(ms@ => ms@[i as int]));
            assert(*ms == (*owner)->Object_0);
            assert(decreases_to!(*owner => (*owner)->Object_0));
            assert(decreases_to!(ms@[i as int] => ms@[i as int].value));
        }
        out.push(Member { name: ms[i].name.clone(), value: clone_value(&ms[i].value) });
        i += 1;
    }
    assert(members_view(out@) =~= members_view(ms@));
    out
}

/// A copy of a list of members.
pub fn clone_members(ms: &Vec<Member>) -> (out: Vec<Member>)
    ensures
        members_view(out@) == members_view(ms@),
{
    let mut out: Vec<Member> = Vec::new();
    let mut i: usize = 0;
    while i < ms.len()
        invariant
            0 <= i <= ms.len(),
            out@.len() == i,
            forall|k: int| 0 <= k < i ==> (#[trigger] out@[k]).name@ == ms@[k].name@ && out@[k].value@ == ms@[k].value@,
        decreases ms.len() - i,
    {
        out.push(Member { name: ms[i].name.clone(), value: clone_value(&ms[i].value) });
        i += 1;
    }
    assert(members_view(out@) =~= members_view(ms@));
    out
}

fn number_eq(a: &JsonNumber, b: &JsonNumber) -> (r: bool)
    ensures
        r == (a@ == b@),
{
    match (a, b) {
        (JsonNumber::PosInt(x), JsonNumber::PosInt(y)) => *x == *y,
        (JsonNumber::NegInt(x), JsonNumber::NegInt(y)) => *x == *y,
        (JsonNumber::Float(x), JsonNumber::Float(y)) => str_eq(x.as_str(), y.as_str()),
        _ => false,
    }
}

/// Whether two values are the same tree.
pub fn value_eq(a: &JsonValue, b: &JsonValue) -> (r: bool)
    ensures
        r == (a@ == b@),
    decreases a,
{
    proof {
        lemma_value_view(*a);
        lemma_value_view(*b);
    }
    match (a, b) {
        (JsonValue::Null, JsonValue::Null) => true,
        (JsonValue::Bool(x), JsonValue::Bool(y)) => *x == *y,
        (JsonValue::Number(x), JsonValue::Number(y)) => number_eq(x, y),
        (JsonValue::Text(x), JsonValue::Text(y)) => str_eq(x.as_str(), y.as_str()),
        (JsonValue::Array(x), JsonValue::Array(y)) => {
            if x.len() != y.len() {
                assert(items_view(x@).len() != items_view(y@).len());
                return false;
            }
            let mut i: usize = 0;
            while i < x.len()
                invariant
                    0 <= i <= x.len(),
                    x.len() == y.len(),
                    *a == JsonValue::Array(*x),
                    a@ == JsonView::Array(items_view(x@)),
                    b@ == JsonView::Array(items_view(y@)),
                    forall|k: int| 0 <= k < i ==> (#[trigger] x@[k])@ == y@[k]@,
                decreases x.len() - i,
            {
                proof {
                    broadcast use vstd::std_specs::vec::group_vec_axioms;
                    assert(decreases_to!(*x => x@));
                    assert(decreases_to!(x@ => x@[i as int]));
                    assert(*x == (*a)->Array_0);
                    assert(decreases_to!(*a => (*a)->Array_0));
                }
                if !value_eq(&x[i], &y[i]) {
                    assert(items_view(x@)[i as int] != items_view(y@)[i as int]);
                    return false;
                }
                i += 1;
            }
            assert(items_view(x@) =~= items_view(y@));
            true
        },
        (JsonValue::Object(x), JsonValue::Object(y)) => {
            if x.len() != y.len() {
                assert(members_view(x@).len() != members_view(y@).len());
                return false;
            }
            let mut i: usize = 0;
            while i < x.len()
                invariant
                    0 <= i <= x.len(),
                    x.len() == y.len(),
                    *a == JsonValue::Object(*x),
                    a@ == JsonView::Object(members_view(x@)),
                    b@ == JsonView::Object(members_view(y@)),
                    forall|k: int| 0 <= k < i ==> (#[trigger] x@[k]).name@ == y@[k].name@ && x@[k].value@ == y@[k].value@,
                decreases x.len() - i,
            {
                proof {
                    broadcast use vstd::std_specs::vec::group_vec_axioms;
                    assert(decreases_to!(*x => x@));
                    assert(decreases_to!(x@ => x@[i as int]));
                    assert(*x == (*a)->Object_0);
                    assert(decreases_to!(*a => (*a)->Object_0));
                    assert(decreases_to!(x@[i as int] => x@[i as int].value));
                }
                if !str_eq(x[i].name.as_str(), y[i].name.as_str()) || !value_eq(&x[i].value, &y[i].value) {
                    assert(members_view(x@)[i as int] != members_view(y@)[i as int]);
                    return false;
                }
                i += 1;
            }
            assert(members_view(x@) =~= members_view(y@));
            true
        },
        _ => false,
    }
}

impl Clone for JsonValue {
    fn clone(&self) -> (r: JsonValue)
        ensures
            r@ == self@,
    {
        clone_value(self)
    }
}

impl Clone for Member {
    fn clone(&self) -> (r: Member)
        ensures
            r.name@ == self.name@,
            r.value@ == self.value@,
    {
        Member { name: self.name.clone(), value: clone_value(&self.value) }
    }
}

impl Clone for JsonNumber {
    fn clone(&self) -> (r: JsonNumber)
        ensures
            r@ == self@,
    {
        clone_number(self)
    }
}

/// `serde_json::Value`, the tree that the outside parser builds. The
/// library reads none of it: `tree_of` copies it into a `JsonValue`.
#[verifier::external_type_specification]
#[verifier::external_body]
pub struct ExSerdeValue(serde_json::Value);

/// The tree that `serde_json::from_str` reads from a text, if the text is
/// well formed.
pub uninterp spec fn json_parsed(text: Seq<char>) -> Option<JsonView>;

/// The quoted and escaped form that `serde_json::to_string` gives a string.
pub uninterp spec fn json_quoted(text: Seq<char>) -> Seq<char>;

/// Copies a number of `serde_json`, with its `as_u64`, `as_i64` and
/// `to_string`: an integer as such, any other number as the text that
/// `serde_json` prints for it. Nothing is claimed of the result here.
#[verifier::external_body]
fn number_of(v: &serde_json::Value) -> JsonNumber {
    v.as_u64().map(JsonNumber::PosInt).or(v.as_i64().map(JsonNumber::NegInt)).unwrap_or_else(
        || JsonNumber::Float(v.to_string()),
    )
}

/// Copies a tree of `serde_json` into a `JsonValue`, variant by variant; an
/// object's members come in the order in which `serde_json` walks them.
/// Nothing is claimed of the result here: `parse_json` names it.
#[verifier::external_body]
fn tree_of(v: &serde_json::Value) -> JsonValue {
    match v {
        serde_json::Value::Null => JsonValue::Null,
        serde_json::Value::Bool(b) => JsonValue::Bool(*b),
        serde_json::Value::Number(_) => JsonValue::Number(number_of(v)),
        serde_json::Value::String(s) => JsonValue::Text(s.clone()),
        serde_json::Value::Array(items) => JsonValue::Array(items.iter().map(tree_of).collect()),
        serde_json::Value::Object(ms) => JsonValue::Object(
            ms.iter().map(|(k, v)| Member { name: k.clone(), value: tree_of(v) }).collect(),
        ),
    }
}

/// Calls `serde_json::from_str` and copies the tree it builds. The result
/// is a function of the text alone and is named, not spelled out.
#[verifier::external_body]
pub(crate) fn parse_json(text: &str) -> (r: Option<JsonValue>)
    ensures
        r is Some <==> json_parsed(text@) is Some,
        r matches Some(v) ==> json_parsed(text@) == Some(v@),
{
    serde_json::from_str::<serde_json::Value>(text).ok().map(|v| tree_of(&v))
}

/// Calls `serde_json::to_string` on a string, which quotes and escapes it
/// and cannot fail. The result is named.
#[verifier::external_body]
pub(crate) fn json_quote(text: &str) -> (r: String)
    ensures
        r@ == json_quoted(text@),
{
    serde_json::to_string(text).unwrap_or_default()
}

/// The compact text that `serde_json::to_string` writes for a tree.
pub uninterp spec fn json_written(v: JsonView) -> Seq<char>;

/// Copies a `JsonValue` into a tree of `serde_json`, variant by variant. A
/// number kept as text is read back by `serde_json` itself; where it does
/// not read it, null stands in. Nothing is claimed of the result here:
/// `write_json` names the text that is written for it.
#[verifier::external_body]
fn serde_of(v: &JsonValue) -> serde_json::Value {
    match v {
        JsonValue::Null => serde_json::Value::Null,
        JsonValue::Bool(b) => serde_json::Value::Bool(*b),
        JsonValue::Number(JsonNumber::PosInt(u)) => serde_json::Value::from(*u),
        JsonValue::Number(JsonNumber::NegInt(i)) => serde_json::Value::from(*i),
        JsonValue::Number(JsonNumber::Float(t)) => serde_json::from_str(t).unwrap_or_default(),
        JsonValue::Text(s) => serde_json::Value::String(s.clone()),
        JsonValue::Array(items) => serde_json::Value::Array(items.iter().map(serde_of).collect()),
        JsonValue::Object(ms) => serde_json::Value::Object(
            ms.iter().map(|m| (m.name.clone(), serde_of(&m.value))).collect(),
        ),
    }
}

/// Calls `serde_json::to_string` on a copy of the tree. The text is a
/// function of the tree alone and is named.
#[verifier::external_body]
pub(crate) fn write_json(v: &JsonValue) -> (r: String)
    ensures
        r@ == json_written(v@),
{
    serde_json::to_string(&serde_of(v)).unwrap_or_default()
}

} // verus!
