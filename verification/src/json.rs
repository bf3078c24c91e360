//! JSON values: what the library reads and builds, and the calls into
//! `serde_json` that turn text into values and back.

use crate::model::views;
use vstd::prelude::*;

verus! {

/// `serde_json::Value`, a parsed JSON document.
#[verifier::external_type_specification]
#[verifier::external_body]
pub struct ExValue(serde_json::Value);

/// `serde_json::Number`, carried through as it is.
#[verifier::external_type_specification]
#[verifier::external_body]
pub struct ExNumber(serde_json::Number);

/// A JSON value. Of several entries of an object under one key the last counts.
#[derive(Debug)]
pub enum Json {
    Null,
    Bool(bool),
    Number(serde_json::Number),
    Str(String),
    Array(Vec<Json>),
    Object(Vec<(String, Json)>),
}

/// A JSON value as a mathematical object: arrays are sequences, objects are maps.
pub enum JsonView {
    Null,
    Bool(bool),
    Number(serde_json::Number),
    Str(Seq<char>),
    Array(Seq<JsonView>),
    Object(Map<Seq<char>, JsonView>),
}

/// The map that a list of entries stands for: a later entry replaces an earlier one.
pub open spec fn entries_map(entries: Seq<(Seq<char>, JsonView)>) -> Map<Seq<char>, JsonView>
    decreases entries.len(),
{
    if entries.len() == 0 {
        Map::empty()
    } else {
        entries_map(entries.drop_last()).insert(entries.last().0, entries.last().1)
    }
}

/// The object with the given entries.
pub open spec fn obj(entries: Seq<(Seq<char>, JsonView)>) -> JsonView {
    JsonView::Object(entries_map(entries))
}

/// The models of a sequence of values.
pub open spec fn items_model(s: Seq<Json>) -> Seq<JsonView>
    decreases s,
{
    if s.len() == 0 {
        Seq::empty()
    } else {
        items_model(s.drop_last()).push(s.last().model())
    }
}

/// The models of a sequence of object entries.
pub open spec fn entries_model(s: Seq<(String, Json)>) -> Seq<(Seq<char>, JsonView)>
    decreases s,
{
    if s.len() == 0 {
        Seq::empty()
    } else {
        entries_model(s.drop_last()).push((s.last().0@, s.last().1.model()))
    }
}

/// A list of entries, each by its key and the model of its value.
pub open spec fn entry_views(s: Seq<(String, Json)>) -> Seq<(Seq<char>, JsonView)> {
    Seq::new(s.len(), |i: int| (s[i].0@, s[i].1@))
}

impl Json {
    /// The mathematical value.
    pub open spec fn model(&self) -> JsonView
        decreases self,
    {
        match self {
            Json::Null => JsonView::Null,
            Json::Bool(b) => JsonView::Bool(*b),
            Json::Number(n) => JsonView::Number(*n),
            Json::Str(s) => JsonView::Str(s@),
            Json::Array(v) => JsonView::Array(items_model(v@)),
            Json::Object(v) => JsonView::Object(entries_map(entries_model(v@))),
        }
    }
}

impl View for Json {
    type V = JsonView;

    open spec fn view(&self) -> JsonView {
        self.model()
    }
}

impl JsonView {
    /// The member under `key`; null where there is none.
    pub open spec fn at(self, key: Seq<char>) -> JsonView {
        match self {
            JsonView::Object(m) => if m.dom().contains(key) {
                m[key]
            } else {
                JsonView::Null
            },
            _ => JsonView::Null,
        }
    }

    /// The element at `i`; null where there is none.
    pub open spec fn item(self, i: int) -> JsonView {
        match self {
            JsonView::Array(s) => if 0 <= i < s.len() {
                s[i]
            } else {
                JsonView::Null
            },
            _ => JsonView::Null,
        }
    }

    /// The text, of a string.
    pub open spec fn text(self) -> Option<Seq<char>> {
        match self {
            JsonView::Str(s) => Some(s),
            _ => None,
        }
    }

    /// The text, of a string; empty otherwise.
    pub open spec fn text_or_empty(self) -> Seq<char> {
        match self {
            JsonView::Str(s) => s,
            _ => Seq::empty(),
        }
    }

    /// The value, of a number that is a non-negative integer.
    pub open spec fn natural(self) -> Option<u64> {
        match self {
            JsonView::Number(n) => number_natural(n),
            _ => None,
        }
    }

    /// The elements, of an array.
    pub open spec fn elements(self) -> Option<Seq<JsonView>> {
        match self {
            JsonView::Array(s) => Some(s),
            _ => None,
        }
    }
}

/// The JSON number for an unsigned integer.
pub uninterp spec fn natural_number(v: u64) -> serde_json::Number;

/// The value of a number that is a non-negative integer up to `u64::MAX`.
pub uninterp spec fn number_natural(n: serde_json::Number) -> Option<u64>;

/// What `serde_json` reads out of a text: a value, or the message of the error.
pub uninterp spec fn json_parsed(text: Seq<char>) -> Result<JsonView, Seq<char>>;

/// What a parsed document holds.
pub uninterp spec fn value_model(v: serde_json::Value) -> JsonView;

/// The compact text that `serde_json` prints for a value.
pub uninterp spec fn json_text(v: JsonView) -> Seq<char>;

/// `serde_json::Number::from(u64)`: the number is a function of the integer, and
/// its value is that integer.
#[verifier::external_body]
pub fn number_of(v: u64) -> (r: serde_json::Number)
    ensures
        r == natural_number(v),
        number_natural(r) == Some(v),
{
    serde_json::Number::from(v)
}

/// `serde_json::Number::as_u64`: the value, where the number is an integer in
/// the range of `u64`.
#[verifier::external_body]
fn number_as_u64(n: &serde_json::Number) -> (r: Option<u64>)
    ensures
        r == number_natural(*n),
{
    n.as_u64()
}

/// `Clone` of `serde_json::Number`: the same number.
pub assume_specification[ <serde_json::Number as Clone>::clone ](
    n: &serde_json::Number,
) -> (r: serde_json::Number)
    ensures
        r == *n,
;

/// `serde_json::from_str` into a `Value`: the document that the text spells, or
/// the message of the error, a function of the text alone.
#[verifier::external_body]
fn parse_value(text: &str) -> (r: Result<serde_json::Value, String>)
    ensures
        match r {
            Ok(v) => json_parsed(text@) == Ok::<JsonView, Seq<char>>(value_model(v)),
            Err(e) => json_parsed(text@) == Err::<JsonView, Seq<char>>(e@),
        },
{
    serde_json::from_str::<serde_json::Value>(text).map_err(|e| e.to_string())
}

/// `Display` of `serde_json::Value`: the compact text of the document.
#[verifier::external_body]
fn print_value(v: &serde_json::Value) -> (r: String)
    ensures
        r@ == json_text(value_model(*v)),
{
    v.to_string()
}

/// One level of a parsed document.
pub enum ValueParts<'a> {
    Null,
    Bool(bool),
    Number(&'a serde_json::Number),
    Str(&'a String),
    Array(&'a Vec<serde_json::Value>),
    Object(Vec<(&'a String, &'a serde_json::Value)>),
}

/// The entries of one level of an object, by key and what the member holds.
pub open spec fn member_models(
    s: Seq<(&String, &serde_json::Value)>,
) -> Seq<(Seq<char>, JsonView)> {
    Seq::new(s.len(), |i: int| (s[i].0@, value_model(*s[i].1)))
}

/// What the documents of a list hold.
pub open spec fn value_models(s: Seq<serde_json::Value>) -> Seq<JsonView> {
    Seq::new(s.len(), |i: int| value_model(s[i]))
}

/// The variants of `serde_json::Value`, one level deep. The keys of an object
/// are handed out once each.
#[verifier::external_body]
fn open_value<'a>(v: &'a serde_json::Value) -> (r: ValueParts<'a>)
    ensures
        match r {
            ValueParts::Null => value_model(*v) == JsonView::Null,
            ValueParts::Bool(b) => value_model(*v) == JsonView::Bool(b),
            ValueParts::Number(n) => value_model(*v) == JsonView::Number(*n),
            ValueParts::Str(s) => value_model(*v) == JsonView::Str(s@),
            ValueParts::Array(a) => value_model(*v) == JsonView::Array(value_models(a@)),
            ValueParts::Object(es) => value_model(*v) == obj(member_models(es@)) && (forall|i, j|
                0 <= i < j < es@.len() ==> es@[i].0@ != es@[j].0@),
        },
{
    match v {
        serde_json::Value::Null => ValueParts::Null,
        serde_json::Value::Bool(b) => ValueParts::Bool(*b),
        serde_json::Value::Number(n) => ValueParts::Number(n),
        serde_json::Value::String(s) => ValueParts::Str(s),
        serde_json::Value::Array(a) => ValueParts::Array(a),
        serde_json::Value::Object(m) => ValueParts::Object(m.iter().collect()),
    }
}

/// One level of a document to build.
pub enum NewValue {
    Null,
    Bool(bool),
    Number(serde_json::Number),
    Str(String),
    Array(Vec<serde_json::Value>),
    Object(Vec<(String, serde_json::Value)>),
}

/// The members of an object to build, by key and what the member holds.
pub open spec fn new_members(s: Seq<(String, serde_json::Value)>) -> Seq<(Seq<char>, JsonView)> {
    Seq::new(s.len(), |i: int| (s[i].0@, value_model(s[i].1)))
}

/// Whether no two entries are under one key.
pub open spec fn distinct_keys(entries: Seq<(Seq<char>, JsonView)>) -> bool {
    forall|i: int, j: int| 0 <= i < j < entries.len() ==> entries[i].0 != entries[j].0
}

/// The constructors of `serde_json::Value`, one level deep. An object is collected
/// from entries of which no two are under one key, and has each of them.
#[verifier::external_body]
fn close_value(p: NewValue) -> (r: serde_json::Value)
    requires
        p matches NewValue::Object(es) ==> distinct_keys(new_members(es@)),
    ensures
        value_model(r) == (match p {
            NewValue::Null => JsonView::Null,
            NewValue::Bool(b) => JsonView::Bool(b),
            NewValue::Number(n) => JsonView::Number(n),
            NewValue::Str(s) => JsonView::Str(s@),
            NewValue::Array(a) => JsonView::Array(value_models(a@)),
            NewValue::Object(es) => obj(new_members(es@)),
        }),
{
    match p {
        NewValue::Null => serde_json::Value::Null,
        NewValue::Bool(b) => serde_json::Value::Bool(b),
        NewValue::Number(n) => serde_json::Value::Number(n),
        NewValue::Str(s) => serde_json::Value::String(s),
        NewValue::Array(a) => serde_json::Value::Array(a),
        NewValue::Object(es) => serde_json::Value::Object(es.into_iter().collect()),
    }
}

/// The models of a list are those of its elements.
pub proof fn lemma_items_model(s: Seq<Json>)
    ensures
        items_model(s) == views(s),
    decreases s.len(),
{
    if s.len() > 0 {
        lemma_items_model(s.drop_last());
        assert(views(s) =~= views(s.drop_last()).push(s.last()@));
    } else {
        assert(views(s) =~= items_model(s));
    }
}

/// The models of an entry list are those of its entries.
pub proof fn lemma_entries_model(s: Seq<(String, Json)>)
    ensures
        entries_model(s) == entry_views(s),
    decreases s.len(),
{
    if s.len() > 0 {
        lemma_entries_model(s.drop_last());
        assert(entry_views(s) =~= entry_views(s.drop_last()).push((s.last().0@, s.last().1@)));
    } else {
        assert(entry_views(s) =~= entries_model(s));
    }
}

/// A key of a list of entries is in its map, with the value of the last entry
/// under it; other keys are not.
pub proof fn lemma_entries_map_get(entries: Seq<(Seq<char>, JsonView)>, i: int)
    requires
        0 <= i < entries.len(),
        forall|j: int| i < j < entries.len() ==> entries[j].0 != entries[i].0,
    ensures
        entries_map(entries).dom().contains(entries[i].0),
        entries_map(entries)[entries[i].0] == entries[i].1,
    decreases entries.len(),
{
    if i < entries.len() - 1 {
        let d = entries.drop_last();
        assert(d[i] == entries[i]);
        assert forall|j: int| i < j < d.len() implies d[j].0 != d[i].0 by {
            assert(d[j] == entries[j]);
        }
        lemma_entries_map_get(d, i);
        assert(entries.last().0 != entries[i].0);
    }
}

/// A key that no entry has is not in the map.
pub proof fn lemma_entries_map_absent(entries: Seq<(Seq<char>, JsonView)>, key: Seq<char>)
    requires
        forall|j: int| 0 <= j < entries.len() ==> entries[j].0 != key,
    ensures
        !entries_map(entries).dom().contains(key),
    decreases entries.len(),
{
    if entries.len() > 0 {
        let d = entries.drop_last();
        assert forall|j: int| 0 <= j < d.len() implies d[j].0 != key by {
            assert(d[j] == entries[j]);
        }
        lemma_entries_map_absent(d, key);
        assert(entries.last().0 != key);
    }
}

/// The member of an object under the key of an entry is the entry's value, unless a
/// later entry has the key.
pub proof fn lemma_obj_at(entries: Seq<(Seq<char>, JsonView)>, i: int)
    requires
        0 <= i < entries.len(),
        forall|j: int| i < j < entries.len() ==> entries[j].0 != entries[i].0,
    ensures
        obj(entries).at(entries[i].0) == entries[i].1,
{
    lemma_entries_map_get(entries, i);
}

/// The members of an object of two entries under different keys.
pub proof fn lemma_obj_of_two(a: (Seq<char>, JsonView), b: (Seq<char>, JsonView))
    requires
        a.0 != b.0,
    ensures
        obj(seq![a, b]).at(a.0) == a.1,
        obj(seq![a, b]).at(b.0) == b.1,
{
    lemma_obj_at(seq![a, b], 0);
    lemma_obj_at(seq![a, b], 1);
}

/// The members of an object of three entries under different keys.
pub proof fn lemma_obj_of_three(
    a: (Seq<char>, JsonView),
    b: (Seq<char>, JsonView),
    c: (Seq<char>, JsonView),
)
    requires
        a.0 != b.0,
        a.0 != c.0,
        b.0 != c.0,
    ensures
        obj(seq![a, b, c]).at(a.0) == a.1,
        obj(seq![a, b, c]).at(b.0) == b.1,
        obj(seq![a, b, c]).at(c.0) == c.1,
{
    lemma_obj_at(seq![a, b, c], 0);
    lemma_obj_at(seq![a, b, c], 1);
    lemma_obj_at(seq![a, b, c], 2);
}

/// The members of an object of four entries under different keys.
pub proof fn lemma_obj_of_four(
    a: (Seq<char>, JsonView),
    b: (Seq<char>, JsonView),
    c: (Seq<char>, JsonView),
    d: (Seq<char>, JsonView),
)
    requires
        a.0 != b.0,
        a.0 != c.0,
        a.0 != d.0,
        b.0 != c.0,
        b.0 != d.0,
        c.0 != d.0,
    ensures
        obj(seq![a, b, c, d]).at(a.0) == a.1,
        obj(seq![a, b, c, d]).at(b.0) == b.1,
        obj(seq![a, b, c, d]).at(c.0) == c.1,
        obj(seq![a, b, c, d]).at(d.0) == d.1,
{
    lemma_obj_at(seq![a, b, c, d], 0);
    lemma_obj_at(seq![a, b, c, d], 1);
    lemma_obj_at(seq![a, b, c, d], 2);
    lemma_obj_at(seq![a, b, c, d], 3);
}

/// The map of a list of entries is finite.
pub proof fn lemma_entries_map_finite(entries: Seq<(Seq<char>, JsonView)>)
    ensures
        entries_map(entries).dom().finite(),
    decreases entries.len(),
{
    if entries.len() > 0 {
        lemma_entries_map_finite(entries.drop_last());
    }
}

/// Where no two entries are under one key, a new value for one of them is the new
/// value of its key.
proof fn lemma_entries_map_update(
    entries: Seq<(Seq<char>, JsonView)>,
    i: int,
    value: JsonView,
)
    requires
        0 <= i < entries.len(),
        distinct_keys(entries),
    ensures
        entries_map(entries.update(i, (entries[i].0, value))) == entries_map(entries).insert(
            entries[i].0,
            value,
        ),
    decreases entries.len(),
{
    let key = entries[i].0;
    let changed = entries.update(i, (key, value));
    let front = entries.drop_last();
    if i == entries.len() - 1 {
        assert(changed.drop_last() =~= front);
        assert(entries_map(changed) =~= entries_map(entries).insert(key, value));
    } else {
        lemma_entries_map_update(front, i, value);
        assert(changed.drop_last() =~= front.update(i, (key, value)));
        assert(entries.last().0 != key);
        assert(entries_map(changed) =~= entries_map(entries).insert(key, value));
    }
}

/// Puts a member into an object to build: in place of the one under its key, or
/// at the end.
fn put_member(
    members: &mut Vec<(String, serde_json::Value)>,
    key: &String,
    value: serde_json::Value,
)
    requires
        distinct_keys(new_members(old(members)@)),
    ensures
        distinct_keys(new_members(final(members)@)),
        entries_map(new_members(final(members)@)) == entries_map(
            new_members(old(members)@),
        ).insert(key@, value_model(value)),
{
    let ghost before = new_members(members@);
    let ghost held = value_model(value);
    let mut i: usize = 0;
    while i < members.len() && members[i].0 != *key
        invariant
            i <= members.len(),
            before == new_members(members@),
            forall|j: int| 0 <= j < i ==> (#[trigger] before[j]).0 != key@,
        decreases members.len() - i,
    {
        assert(before[i as int].0 == members@[i as int].0@);
        i += 1;
    }
    if i < members.len() {
        assert(before[i as int].0 == members@[i as int].0@);
        members.set(i, (key.clone(), value));
        assert(new_members(members@) =~= before.update(i as int, (key@, held)));
        proof {
            lemma_entries_map_update(before, i as int, held);
        }
    } else {
        members.push((key.clone(), value));
        assert(new_members(members@) =~= before.push((key@, held)));
        assert(new_members(members@).drop_last() =~= before);
    }
}

/// The value that a parsed document holds, as a value of the library.
fn from_value(v: &serde_json::Value) -> (r: Json)
    ensures
        r@ == value_model(*v),
    decreases value_model(*v),
{
    match open_value(v) {
        ValueParts::Null => Json::Null,
        ValueParts::Bool(b) => Json::Bool(b),
        ValueParts::Number(n) => Json::Number(n.clone()),
        ValueParts::Str(s) => Json::Str(s.clone()),
        ValueParts::Array(a) => {
            let mut out: Vec<Json> = Vec::new();
            let mut i: usize = 0;
            while i < a.len()
                invariant
                    i <= a.len(),
                    out.len() == i,
                    value_model(*v) == JsonView::Array(value_models(a@)),
                    forall|j: int| 0 <= j < i ==> out@[j]@ == value_model(a@[j]),
                decreases a.len() - i,
            {
                assert(value_models(a@)[i as int] == value_model(a@[i as int]));
                proof {
                    let whole = value_model(*v);
                    assert(decreases_to!(whole => whole->Array_0));
                    assert(decreases_to!(whole->Array_0 => whole->Array_0[i as int]));
                }
                out.push(from_value(&a[i]));
                i += 1;
            }
            proof {
                lemma_items_model(out@);
                assert(views(out@) =~= value_models(a@));
            }
            Json::Array(out)
        },
        ValueParts::Object(es) => {
            let mut out: Vec<(String, Json)> = Vec::new();
            let mut i: usize = 0;
            while i < es.len()
                invariant
                    i <= es.len(),
                    out.len() == i,
                    value_model(*v) == obj(member_models(es@)),
                    forall|i, j| 0 <= i < j < es@.len() ==> es@[i].0@ != es@[j].0@,
                    forall|j: int|
                        0 <= j < i ==> out@[j].0@ == es@[j].0@ && out@[j].1@ == value_model(
                            *es@[j].1,
                        ),
                decreases es.len() - i,
            {
                proof {
                    let ms = member_models(es@);
                    assert(ms[i as int].0 == es@[i as int].0@);
                    assert forall|j: int| i < j < ms.len() implies ms[j].0 != ms[i as int].0 by {
                        assert(es@[i as int].0@ != es@[j].0@);
                    }
                    lemma_entries_map_get(ms, i as int);
                    lemma_entries_map_finite(ms);
                    let m = entries_map(ms);
                    let whole = value_model(*v);
                    assert(decreases_to!(whole => whole->Object_0));
                    assert(decreases_to!(m => m[ms[i as int].0]));
                }
                let value = from_value(es[i].1);
                out.push((es[i].0.clone(), value));
                i += 1;
            }
            proof {
                lemma_entries_model(out@);
                assert(entry_views(out@) =~= member_models(es@));
            }
            Json::Object(out)
        },
    }
}

impl Json {
    /// The value that a text spells, or the message of the error.
    pub fn parse(text: &str) -> (r: Result<Json, String>)
        ensures
            match r {
                Ok(j) => json_parsed(text@) == Ok::<JsonView, Seq<char>>(j@),
                Err(e) => json_parsed(text@) == Err::<JsonView, Seq<char>>(e@),
            },
    {
        match parse_value(text) {
            Ok(v) => Ok(from_value(&v)),
            Err(e) => Err(e),
        }
    }

    /// The document that holds this value.
    fn to_value(&self) -> (r: serde_json::Value)
        ensures
            value_model(r) == self@,
        decreases self,
    {
        match self {
            Json::Null => close_value(NewValue::Null),
            Json::Bool(b) => close_value(NewValue::Bool(*b)),
            Json::Number(n) => close_value(NewValue::Number(n.clone())),
            Json::Str(s) => close_value(NewValue::Str(s.clone())),
            Json::Array(a) => {
                let mut out: Vec<serde_json::Value> = Vec::new();
                let mut i: usize = 0;
                while i < a.len()
                    invariant
                        i <= a.len(),
                        out.len() == i,
                        *self == Json::Array(*a),
                        forall|j: int| 0 <= j < i ==> value_model(out@[j]) == a@[j]@,
                    decreases a.len() - i,
                {
                    assert(decreases_to!(self => self->Array_0));
                    assert(decreases_to!(a => a@));
                    assert(decreases_to!(a@ => a@[i as int]));
                    out.push(a[i].to_value());
                    i += 1;
                }
                proof {
                    lemma_items_model(a@);
                    assert(value_models(out@) =~= views(a@));
                }
                close_value(NewValue::Array(out))
            },
            Json::Object(es) => {
                let ghost all = entry_views(es@);
                let mut out: Vec<(String, serde_json::Value)> = Vec::new();
                let mut i: usize = 0;
                assert(new_members(out@) =~= all.take(0));
                while i < es.len()
                    invariant
                        i <= es.len(),
                        all == entry_views(es@),
                        *self == Json::Object(*es),
                        distinct_keys(new_members(out@)),
                        entries_map(new_members(out@)) == entries_map(all.take(i as int)),
                    decreases es.len() - i,
                {
                    assert(decreases_to!(self => self->Object_0));
                    assert(decreases_to!(es => es@));
                    assert(decreases_to!(es@ => es@[i as int]));
                    assert(decreases_to!(es@[i as int] => es@[i as int].1));
                    let value = es[i].1.to_value();
                    assert(all.take(i + 1).drop_last() =~= all.take(i as int));
                    assert(all.take(i + 1).last() == all[i as int]);
                    put_member(&mut out, &es[i].0, value);
                    i += 1;
                }
                proof {
                    lemma_entries_model(es@);
                    assert(all.take(all.len() as int) =~= all);
                }
                close_value(NewValue::Object(out))
            },
        }
    }

    /// The compact text of the value.
    pub fn to_text(&self) -> (r: String)
        ensures
            r@ == json_text(self@),
    {
        print_value(&self.to_value())
    }

    /// The member under `key`, of an object that has one.
    pub fn get(&self, key: &str) -> (r: Option<&Json>)
        ensures
            match r {
                Some(j) => self@ is Object && self@->Object_0.dom().contains(key@)
                    && self@->Object_0[key@] == j@,
                None => !(self@ is Object && self@->Object_0.dom().contains(key@)),
            },
            self@.at(key@) == (match r {
                Some(j) => j@,
                None => JsonView::Null,
            }),
    {
        match self {
            Json::Object(es) => {
                let wanted = key.to_owned();
                let ghost ms = entry_views(es@);
                proof {
                    lemma_entries_model(es@);
                }
                let mut i: usize = es.len();
                while i > 0
                    invariant
                        i <= es.len(),
                        wanted@ == key@,
                        ms == entry_views(es@),
                        self@ == JsonView::Object(entries_map(ms)),
                        forall|j: int| i <= j < es.len() ==> es@[j].0@ != key@,
                    decreases i,
                {
                    i -= 1;
                    if es[i].0 == wanted {
                        proof {
                            assert forall|j: int| i < j < ms.len() implies ms[j].0
                                != ms[i as int].0 by {
                                assert(es@[j].0@ != key@);
                            }
                            lemma_entries_map_get(ms, i as int);
                        }
                        return Some(&es[i].1);
                    }
                }
                proof {
                    assert forall|j: int| 0 <= j < ms.len() implies ms[j].0 != key@ by {
                        assert(es@[j].0@ != key@);
                    }
                    lemma_entries_map_absent(ms, key@);
                }
                None
            },
            _ => None,
        }
    }

    /// The member under `key`; null where there is none.
    pub fn at(&self, key: &str) -> (r: &Json)
        ensures
            r@ == self@.at(key@),
    {
        match self.get(key) {
            Some(j) => j,
            None => &Json::Null,
        }
    }

    /// The element at `i`; null where there is none.
    pub fn item(&self, i: usize) -> (r: &Json)
        ensures
            r@ == self@.item(i as int),
    {
        match self {
            Json::Array(a) => {
                proof {
                    lemma_items_model(a@);
                }
                if i < a.len() {
                    &a[i]
                } else {
                    &Json::Null
                }
            },
            _ => &Json::Null,
        }
    }

    /// The text, of a string.
    pub fn as_str(&self) -> (r: Option<&String>)
        ensures
            self@.text() == (match r {
                Some(s) => Some(s@),
                None => None,
            }),
    {
        match self {
            Json::Str(s) => Some(s),
            _ => None,
        }
    }

    /// The text, of a string; empty otherwise.
    pub fn str_or_empty(&self) -> (r: String)
        ensures
            r@ == self@.text_or_empty(),
    {
        match self {
            Json::Str(s) => s.clone(),
            _ => String::new(),
        }
    }

    /// The value, of a number that is a non-negative integer.
    pub fn as_u64(&self) -> (r: Option<u64>)
        ensures
            r == self@.natural(),
    {
        match self {
            Json::Number(n) => number_as_u64(n),
            _ => None,
        }
    }

    /// The elements, of an array.
    pub fn as_array(&self) -> (r: Option<&Vec<Json>>)
        ensures
            self@.elements() == (match r {
                Some(a) => Some(views(a@)),
                None => None,
            }),
    {
        match self {
            Json::Array(a) => {
                proof {
                    lemma_items_model(a@);
                }
                Some(a)
            },
            _ => None,
        }
    }

    /// The string with the given text.
    pub fn string(s: &str) -> (r: Json)
        ensures
            r@ == JsonView::Str(s@),
    {
        Json::Str(s.to_owned())
    }

    /// The number for an unsigned integer.
    pub fn natural(v: u64) -> (r: Json)
        ensures
            r@ == JsonView::Number(natural_number(v)),
            r@.natural() == Some(v),
    {
        Json::Number(number_of(v))
    }

    /// The array with the given elements.
    pub fn array(items: Vec<Json>) -> (r: Json)
        ensures
            r@ == JsonView::Array(views(items@)),
    {
        proof {
            lemma_items_model(items@);
        }
        Json::Array(items)
    }

    /// The object with the given entries.
    pub fn object(entries: Vec<(String, Json)>) -> (r: Json)
        ensures
            r@ == obj(entry_views(entries@)),
    {
        proof {
            lemma_entries_model(entries@);
        }
        Json::Object(entries)
    }
}

impl Clone for Json {
    fn clone(&self) -> (r: Self)
        ensures
            r@ == self@,
        decreases self,
    {
        match self {
            Json::Null => Json::Null,
            Json::Bool(b) => Json::Bool(*b),
            Json::Number(n) => Json::Number(n.clone()),
            Json::Str(s) => Json::Str(s.clone()),
            Json::Array(a) => {
                let mut out: Vec<Json> = Vec::new();
                let mut i: usize = 0;
                while i < a.len()
                    invariant
                        i <= a.len(),
                        out.len() == i,
                        *self == Json::Array(*a),
                        forall|j: int| 0 <= j < i ==> out@[j]@ == a@[j]@,
                    decreases a.len() - i,
                {
                    assert(decreases_to!(self => self->Array_0));
                    assert(decreases_to!(a => a@));
                    assert(decreases_to!(a@ => a@[i as int]));
                    out.push(a[i].clone());
                    i += 1;
                }
                proof {
                    lemma_items_model(a@);
                    lemma_items_model(out@);
                    assert(views(out@) =~= views(a@));
                }
                Json::Array(out)
            },
            Json::Object(es) => {
                let mut out: Vec<(String, Json)> = Vec::new();
                let mut i: usize = 0;
                while i < es.len()
                    invariant
                        i <= es.len(),
                        out.len() == i,
                        *self == Json::Object(*es),
                        forall|j: int|
                            0 <= j < i ==> out@[j].0@ == es@[j].0@ && out@[j].1@ == es@[j].1@,
                    decreases es.len() - i,
                {
                    assert(decreases_to!(self => self->Object_0));
                    assert(decreases_to!(es => es@));
                    assert(decreases_to!(es@ => es@[i as int]));
                    assert(decreases_to!(es@[i as int] => es@[i as int].1));
                    let value = es[i].1.clone();
                    out.push((es[i].0.clone(), value));
                    i += 1;
                }
                proof {
                    lemma_entries_model(es@);
                    lemma_entries_model(out@);
                    assert(entry_views(out@) =~= entry_views(es@));
                }
                Json::Object(out)
            },
        }
    }
}

/// The entries without those under a key.
pub open spec fn entries_without(
    entries: Seq<(Seq<char>, JsonView)>,
    key: Seq<char>,
) -> Seq<(Seq<char>, JsonView)>
    decreases entries.len(),
{
    if entries.len() == 0 {
        Seq::empty()
    } else if entries.last().0 == key {
        entries_without(entries.drop_last(), key)
    } else {
        entries_without(entries.drop_last(), key).push(entries.last())
    }
}

/// Leaving out the entries under a key removes the key from the map.
proof fn lemma_entries_without(entries: Seq<(Seq<char>, JsonView)>, key: Seq<char>)
    ensures
        entries_map(entries_without(entries, key)) == entries_map(entries).remove(key),
    decreases entries.len(),
{
    if entries.len() > 0 {
        lemma_entries_without(entries.drop_last(), key);
        let rest = entries_without(entries.drop_last(), key);
        if entries.last().0 == key {
            assert(entries_map(entries).remove(key) =~= entries_map(entries.drop_last()).remove(
                key,
            ));
        } else {
            assert(rest.push(entries.last()).drop_last() =~= rest);
            assert(entries_map(entries).remove(key) =~= entries_map(
                entries.drop_last(),
            ).remove(key).insert(entries.last().0, entries.last().1));
        }
    } else {
        assert(entries_map(entries).remove(key) =~= entries_map(entries));
    }
}

impl JsonView {
    /// The object without a key; other values as they are.
    pub open spec fn without(self, key: Seq<char>) -> JsonView {
        match self {
            JsonView::Object(m) => JsonView::Object(m.remove(key)),
            _ => self,
        }
    }

    /// The object with an entry; other values as they are.
    pub open spec fn with(self, key: Seq<char>, value: JsonView) -> JsonView {
        match self {
            JsonView::Object(m) => JsonView::Object(m.insert(key, value)),
            _ => self,
        }
    }
}

impl Json {
    /// The object without a key; other values as they are.
    pub fn without(self, key: &str) -> (r: Json)
        ensures
            r@ == self@.without(key@),
    {
        match self {
            Json::Object(es) => {
                let wanted = key.to_owned();
                let ghost ms = entry_views(es@);
                let mut out: Vec<(String, Json)> = Vec::new();
                let mut i: usize = 0;
                assert(ms.take(0) =~= Seq::empty());
                assert(entry_views(out@) =~= Seq::empty());
                while i < es.len()
                    invariant
                        i <= es.len(),
                        wanted@ == key@,
                        ms == entry_views(es@),
                        entry_views(out@) == entries_without(ms.take(i as int), key@),
                    decreases es.len() - i,
                {
                    assert(ms.take(i + 1).drop_last() =~= ms.take(i as int));
                    assert(ms.take(i + 1).last() == ms[i as int]);
                    if es[i].0 != wanted {
                        let ghost before = out@;
                        let value = es[i].1.clone();
                        let e = (es[i].0.clone(), value);
                        let ghost ev = e;
                        out.push(e);
                        assert(entry_views(out@) =~= entry_views(before).push((ev.0@, ev.1@)));
                    }
                    i += 1;
                }
                proof {
                    assert(ms.take(ms.len() as int) =~= ms);
                    lemma_entries_model(es@);
                    lemma_entries_model(out@);
                    lemma_entries_without(ms, key@);
                }
                Json::Object(out)
            },
            other => other,
        }
    }

    /// The object with an entry; other values as they are.
    pub fn with(self, key: &str, value: Json) -> (r: Json)
        ensures
            r@ == self@.with(key@, value@),
    {
        match self {
            Json::Object(es) => {
                let mut es = es;
                let ghost before = es@;
                let ghost vv = value@;
                es.push(entry(key, value));
                proof {
                    lemma_entries_model(before);
                    lemma_entries_model(es@);
                    assert(entry_views(es@) =~= entry_views(before).push((key@, vv)));
                    assert(entry_views(before).push((key@, vv)).drop_last() =~= entry_views(
                        before,
                    ));
                }
                Json::Object(es)
            },
            other => other,
        }
    }
}

/// One entry of an object.
pub fn entry(key: &str, value: Json) -> (r: (String, Json))
    ensures
        r.0@ == key@,
        r.1@ == value@,
{
    (key.to_owned(), value)
}

/// A member that was put into an object is read back, and one that was taken out is not
/// there; every other member is as it was.
pub proof fn law_members_are_put_in_and_taken_out(
    v: JsonView,
    key: Seq<char>,
    value: JsonView,
    other: Seq<char>,
)
    requires
        v is Object,
    ensures
        v.with(key, value).at(key) == value,
        v.without(key).at(key) == JsonView::Null,
        other != key ==> v.with(key, value).at(other) == v.at(other),
        other != key ==> v.without(key).at(other) == v.at(other),
{
}

} // verus!
