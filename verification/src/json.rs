//! JSON values.

use crate::order::text_less;
use crate::replicate::Replicate;
use crate::text::same;
use serde_json::{Number, Value};
use vstd::prelude::*;

verus! {

/// A JSON number.
#[derive(Debug, PartialEq, Eq)]
pub enum JsonNumber {
    /// An integer that is not negative.
    Unsigned(u64),
    /// A negative integer.
    Negative(i64),
    /// Any other number, as it is written.
    Decimal(String),
}

/// A JSON value.
#[derive(Debug, PartialEq, Eq)]
pub enum Json {
    Null,
    Bool(bool),
    Number(JsonNumber),
    Str(String),
    Array(Vec<Json>),
    Object(Vec<(String, Json)>),
}

/// What a JSON value is.
pub enum JsonView {
    Null,
    Bool(bool),
    Unsigned(u64),
    Negative(i64),
    Decimal(Seq<char>),
    Str(Seq<char>),
    Array(Seq<JsonView>),
    Object(Seq<(Seq<char>, JsonView)>),
}

/// What `j` is.
pub open spec fn json_view(j: Json) -> JsonView
    decreases j,
{
    match j {
        Json::Null => JsonView::Null,
        Json::Bool(b) => JsonView::Bool(b),
        Json::Number(JsonNumber::Unsigned(n)) => JsonView::Unsigned(n),
        Json::Number(JsonNumber::Negative(n)) => JsonView::Negative(n),
        Json::Number(JsonNumber::Decimal(s)) => JsonView::Decimal(s@),
        Json::Str(s) => JsonView::Str(s@),
        Json::Array(v) => JsonView::Array(items_view(v@)),
        Json::Object(v) => JsonView::Object(entries_view(v@)),
    }
}

/// What each of `s` is.
pub open spec fn items_view(s: Seq<Json>) -> Seq<JsonView>
    decreases s,
{
    Seq::new(
        s.len(),
        |i: int|
            if 0 <= i < s.len() {
                json_view(s[i])
            } else {
                JsonView::Null
            },
    )
}

/// What each of `s` is.
pub open spec fn entries_view(s: Seq<(String, Json)>) -> Seq<(Seq<char>, JsonView)>
    decreases s,
{
    Seq::new(
        s.len(),
        |i: int|
            if 0 <= i < s.len() {
                (s[i].0@, json_view(s[i].1))
            } else {
                (Seq::empty(), JsonView::Null)
            },
    )
}

impl DeepView for Json {
    type V = JsonView;

    open spec fn deep_view(&self) -> JsonView {
        json_view(*self)
    }
}

/// The value under `key` in the entries, the first where there are several.
pub open spec fn entry_of(entries: Seq<(Seq<char>, JsonView)>, key: Seq<char>) -> Option<JsonView>
    decreases entries.len(),
{
    if entries.len() == 0 {
        None
    } else if entries[0].0 == key {
        Some(entries[0].1)
    } else {
        entry_of(entries.skip(1), key)
    }
}

impl JsonView {
    /// The value under `key`, where this is an object that has the key.
    pub open spec fn get(self, key: Seq<char>) -> Option<JsonView> {
        match self {
            JsonView::Object(entries) => entry_of(entries, key),
            _ => None,
        }
    }

    /// The text, where this is a string.
    pub open spec fn as_str(self) -> Option<Seq<char>> {
        match self {
            JsonView::Str(s) => Some(s),
            _ => None,
        }
    }

    /// The truth value, where this is one.
    pub open spec fn as_bool(self) -> Option<bool> {
        match self {
            JsonView::Bool(b) => Some(b),
            _ => None,
        }
    }

    /// The number, where this is an integer that is not negative.
    pub open spec fn as_u64(self) -> Option<u64> {
        match self {
            JsonView::Unsigned(n) => Some(n),
            _ => None,
        }
    }

    /// The items, where this is an array.
    pub open spec fn as_array(self) -> Option<Seq<JsonView>> {
        match self {
            JsonView::Array(items) => Some(items),
            _ => None,
        }
    }

    /// The text under `key`, where there is one.
    pub open spec fn str_at(self, key: Seq<char>) -> Option<Seq<char>> {
        match self.get(key) {
            Some(v) => v.as_str(),
            None => None,
        }
    }

    /// The items under `key`, where there is an array.
    pub open spec fn array_at(self, key: Seq<char>) -> Option<Seq<JsonView>> {
        match self.get(key) {
            Some(v) => v.as_array(),
            None => None,
        }
    }

    /// The number under `key`, where there is an integer that is not negative.
    pub open spec fn u64_at(self, key: Seq<char>) -> Option<u64> {
        match self.get(key) {
            Some(v) => v.as_u64(),
            None => None,
        }
    }
}

impl Json {
    /// The value under `key`, where this is an object that has the key.
    pub fn get(&self, key: &str) -> (r: Option<&Json>)
        ensures
            match r {
                Some(v) => self.deep_view().get(key@) == Some(v.deep_view()),
                None => self.deep_view().get(key@) is None,
            },
    {
        match self {
            Json::Object(entries) => {
                let mut i: usize = 0;
                let ghost all = entries_view(entries@);
                assert(all.skip(0) =~= all);
                while i < entries.len()
                    invariant
                        i <= entries@.len(),
                        self.deep_view() == JsonView::Object(all),
                        all == entries_view(entries@),
                        entry_of(all, key@) == entry_of(all.skip(i as int), key@),
                    decreases entries@.len() - i,
                {
                    assert(all.skip(i as int)[0] == all[i as int]);
                    assert(all.skip(i as int).skip(1) =~= all.skip(i + 1));
                    if same(entries[i].0.as_str(), key) {
                        return Some(&entries[i].1);
                    }
                    i = i + 1;
                }
                None
            },
            _ => None,
        }
    }

    /// The text, where this is a string.
    pub fn as_str(&self) -> (r: Option<&str>)
        ensures
            r.deep_view() == self.deep_view().as_str(),
    {
        match self {
            Json::Str(s) => Some(s.as_str()),
            _ => None,
        }
    }

    /// The truth value, where this is one.
    pub fn as_bool(&self) -> (r: Option<bool>)
        ensures
            r == self.deep_view().as_bool(),
    {
        match self {
            Json::Bool(b) => Some(*b),
            _ => None,
        }
    }

    /// The number, where this is an integer that is not negative.
    pub fn as_u64(&self) -> (r: Option<u64>)
        ensures
            r == self.deep_view().as_u64(),
    {
        match self {
            Json::Number(JsonNumber::Unsigned(n)) => Some(*n),
            _ => None,
        }
    }

    /// The items, where this is an array.
    pub fn as_array(&self) -> (r: Option<&Vec<Json>>)
        ensures
            match r {
                Some(v) => self.deep_view().as_array() == Some(v.deep_view()),
                None => self.deep_view().as_array() is None,
            },
    {
        match self {
            Json::Array(v) => {
                assert(v.deep_view() =~= items_view(v@));
                Some(v)
            },
            _ => None,
        }
    }

    /// The text under `key`, where there is one.
    pub fn str_at(&self, key: &str) -> (r: Option<String>)
        ensures
            r.deep_view() == self.deep_view().str_at(key@),
    {
        match self.get(key) {
            Some(v) => match v.as_str() {
                Some(s) => Some(s.to_owned()),
                None => None,
            },
            None => None,
        }
    }

    /// The items under `key`, where there is an array.
    pub fn array_at(&self, key: &str) -> (r: Option<&Vec<Json>>)
        ensures
            match r {
                Some(v) => self.deep_view().array_at(key@) == Some(v.deep_view()),
                None => self.deep_view().array_at(key@) is None,
            },
    {
        match self.get(key) {
            Some(v) => v.as_array(),
            None => None,
        }
    }

    /// The number under `key`, where there is an integer that is not negative.
    pub fn u64_at(&self, key: &str) -> (r: Option<u64>)
        ensures
            r == self.deep_view().u64_at(key@),
    {
        match self.get(key) {
            Some(v) => v.as_u64(),
            None => None,
        }
    }
}

/// A copy of `j`.
fn copy_json(j: &Json) -> (r: Json)
    ensures
        r.deep_view() == j.deep_view(),
    decreases j,
{
    match j {
        Json::Null => Json::Null,
        Json::Bool(b) => Json::Bool(*b),
        Json::Number(JsonNumber::Unsigned(n)) => Json::Number(JsonNumber::Unsigned(*n)),
        Json::Number(JsonNumber::Negative(n)) => Json::Number(JsonNumber::Negative(*n)),
        Json::Number(JsonNumber::Decimal(s)) => Json::Number(JsonNumber::Decimal(s.clone())),
        Json::Str(s) => Json::Str(s.clone()),
        Json::Array(v) => {
            let mut out: Vec<Json> = Vec::new();
            let mut i: usize = 0;
            while i < v.len()
                invariant
                    i <= v@.len(),
                    out@.len() == i,
                    j == Json::Array(*v),
                    forall|k: int|
                        0 <= k < i ==> json_view(#[trigger] out@[k]) == json_view(v@[k]),
                decreases v@.len() - i,
            {
                assert(decreases_to!(*j => j->Array_0));
                assert(decreases_to!(*v => v@));
                assert(decreases_to!(v@ => v@[i as int]));
                out.push(copy_json(&v[i]));
                i = i + 1;
            }
            assert(items_view(out@) =~= items_view(v@));
            Json::Array(out)
        },
        Json::Object(v) => {
            let mut out: Vec<(String, Json)> = Vec::new();
            let mut i: usize = 0;
            while i < v.len()
                invariant
                    i <= v@.len(),
                    out@.len() == i,
                    j == Json::Object(*v),
                    forall|k: int|
                        0 <= k < i ==> (#[trigger] out@[k]).0@ == v@[k].0@ && json_view(out@[k].1)
                            == json_view(v@[k].1),
                decreases v@.len() - i,
            {
                assert(decreases_to!(*j => j->Object_0));
                assert(decreases_to!(*v => v@));
                assert(decreases_to!(v@ => v@[i as int]));
                assert(decreases_to!(v@[i as int] => v@[i as int].1));
                out.push((v[i].0.clone(), copy_json(&v[i].1)));
                i = i + 1;
            }
            assert(entries_view(out@) =~= entries_view(v@));
            Json::Object(out)
        },
    }
}

/// Whether two values are the same.
pub fn same_json(a: &Json, b: &Json) -> (r: bool)
    ensures
        r == (a.deep_view() == b.deep_view()),
    decreases a,
{
    match (a, b) {
        (Json::Null, Json::Null) => true,
        (Json::Bool(x), Json::Bool(y)) => *x == *y,
        (
            Json::Number(JsonNumber::Unsigned(x)),
            Json::Number(JsonNumber::Unsigned(y)),
        ) => *x == *y,
        (
            Json::Number(JsonNumber::Negative(x)),
            Json::Number(JsonNumber::Negative(y)),
        ) => *x == *y,
        (
            Json::Number(JsonNumber::Decimal(x)),
            Json::Number(JsonNumber::Decimal(y)),
        ) => same(x.as_str(), y.as_str()),
        (Json::Str(x), Json::Str(y)) => same(x.as_str(), y.as_str()),
        (Json::Array(x), Json::Array(y)) => {
            if x.len() != y.len() {
                assert(items_view(x@).len() != items_view(y@).len());
                return false;
            }
            let mut i: usize = 0;
            while i < x.len()
                invariant
                    i <= x@.len() == y@.len(),
                    a == Json::Array(*x),
                    b == Json::Array(*y),
                    forall|k: int| 0 <= k < i ==> json_view(#[trigger] x@[k]) == json_view(y@[k]),
                decreases x@.len() - i,
            {
                assert(decreases_to!(*a => a->Array_0));
                assert(decreases_to!(*x => x@));
                assert(decreases_to!(x@ => x@[i as int]));
                if !same_json(&x[i], &y[i]) {
                    assert(items_view(x@)[i as int] != items_view(y@)[i as int]);
                    return false;
                }
                i = i + 1;
            }
            assert(items_view(x@) =~= items_view(y@));
            true
        },
        (Json::Object(x), Json::Object(y)) => {
            if x.len() != y.len() {
                assert(entries_view(x@).len() != entries_view(y@).len());
                return false;
            }
            let mut i: usize = 0;
            while i < x.len()
                invariant
                    i <= x@.len() == y@.len(),
                    a == Json::Object(*x),
                    b == Json::Object(*y),
                    forall|k: int|
                        0 <= k < i ==> (#[trigger] x@[k]).0@ == y@[k].0@ && json_view(x@[k].1)
                            == json_view(y@[k].1),
                decreases x@.len() - i,
            {
                assert(decreases_to!(*a => a->Object_0));
                assert(decreases_to!(*x => x@));
                assert(decreases_to!(x@ => x@[i as int]));
                assert(decreases_to!(x@[i as int] => x@[i as int].1));
                if !same(x[i].0.as_str(), y[i].0.as_str()) || !same_json(&x[i].1, &y[i].1) {
                    assert(entries_view(x@)[i as int] != entries_view(y@)[i as int]);
                    return false;
                }
                i = i + 1;
            }
            assert(entries_view(x@) =~= entries_view(y@));
            true
        },
        _ => false,
    }
}

impl Replicate for Json {
    fn replicate(&self) -> (r: Self) {
        copy_json(self)
    }
}

// ---------------------------------------------------------------------------
// Building values
// ---------------------------------------------------------------------------

/// An entry, where there is something to put.
pub open spec fn field(key: Seq<char>, value: Option<JsonView>) -> Seq<(Seq<char>, JsonView)> {
    match value {
        Some(v) => seq![(key, v)],
        None => Seq::empty(),
    }
}

/// The entries of an object that is being built.
pub struct JsonFields {
    pub entries: Vec<(String, Json)>,
}

impl View for JsonFields {
    type V = Seq<(Seq<char>, JsonView)>;

    open spec fn view(&self) -> Seq<(Seq<char>, JsonView)> {
        entries_view(self.entries@)
    }
}

impl JsonFields {
    /// No entries yet.
    pub fn new() -> (r: Self)
        ensures
            r@ == Seq::<(Seq<char>, JsonView)>::empty(),
    {
        let r = JsonFields { entries: Vec::new() };
        assert(r@ =~= Seq::<(Seq<char>, JsonView)>::empty());
        r
    }

    /// One entry more.
    pub fn put(&mut self, key: &str, value: Json)
        ensures
            final(self)@ == old(self)@.push((key@, value.deep_view())),
    {
        let ghost before = self@;
        self.entries.push((key.to_owned(), value));
        assert(self@ =~= before.push((key@, value.deep_view())));
    }

    /// One entry more, with a text.
    pub fn put_text(&mut self, key: &str, value: &str)
        ensures
            final(self)@ == old(self)@.push((key@, JsonView::Str(value@))),
    {
        self.put(key, Json::Str(value.to_owned()));
    }

    /// One entry more, where there is something to put.
    pub fn put_some(&mut self, key: &str, value: Option<Json>)
        ensures
            final(self)@ == old(self)@ + field(key@, value.deep_view()),
    {
        match value {
            Some(v) => {
                let ghost before = self@;
                let ghost x = v.deep_view();
                self.put(key, v);
                assert(self@ =~= before + field(key@, Some(x)));
            },
            None => {
                assert(self@ + Seq::<(Seq<char>, JsonView)>::empty() =~= self@);
            },
        }
    }

    /// The object with these entries.
    pub fn done(self) -> (r: Json)
        ensures
            r.deep_view() == JsonView::Object(self@),
    {
        Json::Object(self.entries)
    }
}

/// The array of `items`.
pub fn array(items: Vec<Json>) -> (r: Json)
    ensures
        r.deep_view() == JsonView::Array(items.deep_view()),
{
    assert(items.deep_view() =~= items_view(items@));
    Json::Array(items)
}

/// The array of the texts `items`.
pub open spec fn texts_view(items: Seq<Seq<char>>) -> JsonView {
    JsonView::Array(items.map_values(|s: Seq<char>| JsonView::Str(s)))
}

/// The array of the texts `items`.
pub fn text_array(items: &Vec<String>) -> (r: Json)
    ensures
        r.deep_view() == texts_view(items.deep_view()),
{
    let mut v: Vec<Json> = Vec::new();
    let mut i: usize = 0;
    while i < items.len()
        invariant
            i <= items@.len(),
            v@.len() == i,
            forall|k: int| 0 <= k < i ==> (#[trigger] v@[k]).deep_view() == JsonView::Str(items@[k]@),
        decreases items@.len() - i,
    {
        v.push(Json::Str(items[i].clone()));
        i = i + 1;
    }
    assert(v.deep_view() =~= items.deep_view().map_values(|s: Seq<char>| JsonView::Str(s)));
    array(v)
}

// ---------------------------------------------------------------------------
// Reading and writing text
// ---------------------------------------------------------------------------

/// The JSON tree of `serde_json`.
#[verifier::external_type_specification]
#[verifier::external_body]
pub struct ExValue(serde_json::Value);

/// The value that `serde_json` reads from a text, or what it says is wrong
/// with it.
pub uninterp spec fn json_of_text(text: Seq<char>) -> Result<JsonView, Seq<char>>;

/// The text that `serde_json` writes for a value.
pub uninterp spec fn text_of_json(v: JsonView) -> Seq<char>;

/// How deep arrays and objects may lie in one another in a text that `serde_json`
/// reads.
pub const DEEPEST: u64 = 127;

/// A value that a text can stand for as it is: its negative integers are
/// negative, it has no other number than integers, the keys of its objects
/// stand in order, each once, and its arrays and objects lie at most `depth`
/// deep in one another.
pub open spec fn reads_back(v: JsonView, depth: nat) -> bool
    decreases v,
{
    match v {
        JsonView::Null => true,
        JsonView::Bool(_) => true,
        JsonView::Unsigned(_) => true,
        JsonView::Negative(n) => n < 0,
        JsonView::Decimal(_) => false,
        JsonView::Str(_) => true,
        JsonView::Array(items) => depth > 0 && forall|i: int|
            0 <= i < items.len() ==> reads_back(#[trigger] items[i], (depth - 1) as nat),
        JsonView::Object(entries) => {
            &&& depth > 0
            &&& forall|i: int, j: int|
                0 <= i < j < entries.len() ==> text_less(
                    (#[trigger] entries[i]).0,
                    (#[trigger] entries[j]).0,
                )
            &&& forall|i: int|
                0 <= i < entries.len() ==> reads_back(
                    (#[trigger] entries[i]).1,
                    (depth - 1) as nat,
                )
        },
    }
}

/// `serde_json` reads the value from the text.
pub open spec fn is_read_as(text: Seq<char>, v: JsonView) -> bool {
    json_of_text(text) == Ok::<JsonView, Seq<char>>(v)
}

/// Each node of a `serde_json::Value` as the node of a [`Json`] of the same
/// kind, the entries of an object in the order in which the outside map walks
/// them. Of the result nothing is stated here: [`read_json`] names it.
#[verifier::external_body]
fn plain(value: Value) -> (r: Json)
{
    match value {
        Value::Null => Json::Null,
        Value::Bool(b) => Json::Bool(b),
        Value::Number(n) => match (n.as_u64(), n.as_i64()) {
            (Some(u), _) => Json::Number(JsonNumber::Unsigned(u)),
            (None, Some(i)) => Json::Number(JsonNumber::Negative(i)),
            (None, None) => Json::Number(JsonNumber::Decimal(n.to_string())),
        },
        Value::String(s) => Json::Str(s),
        Value::Array(v) => Json::Array(v.into_iter().map(plain).collect()),
        Value::Object(m) => Json::Object(m.into_iter().map(|(k, v)| (k, plain(v))).collect()),
    }
}

/// Each node of a [`Json`] as the node of a `serde_json::Value` of the same
/// kind, a decimal as the double nearest to it. Of the result nothing is stated
/// here: [`write_json`] names it.
#[verifier::external_body]
fn outside(value: &Json) -> (r: Value)
{
    match value {
        Json::Null => Value::Null,
        Json::Bool(b) => Value::Bool(*b),
        Json::Number(JsonNumber::Unsigned(n)) => Value::from(*n),
        Json::Number(JsonNumber::Negative(n)) => Value::from(*n),
        Json::Number(JsonNumber::Decimal(s)) =>
            s.parse().ok().and_then(Number::from_f64).map_or(Value::Null, Value::Number),
        Json::Str(s) => Value::String(s.clone()),
        Json::Array(v) => Value::Array(v.iter().map(outside).collect()),
        Json::Object(m) => Value::Object(m.iter().map(|(k, v)| (k.clone(), outside(v))).collect()),
    }
}

/// `serde_json::from_str` into a `serde_json::Value`, taken apart node by node:
/// what it reads, and the text of its error, depend on the text alone.
#[verifier::external_body]
fn read_json(text: &str) -> (r: Result<Json, String>)
    ensures
        match r {
            Ok(j) => json_of_text(text@) == Ok::<JsonView, Seq<char>>(j.deep_view()),
            Err(e) => json_of_text(text@) == Err::<JsonView, Seq<char>>(e@),
        },
{
    match serde_json::from_str::<Value>(text) {
        Ok(v) => Ok(plain(v)),
        Err(e) => Err(e.to_string()),
    }
}

/// The `Display` of a `serde_json::Value`, which is its compact JSON text: what
/// it writes depends on the value alone, and `serde_json` reads the value back
/// from it where a text can stand for the value as it is.
#[verifier::external_body]
fn write_json(value: &Json) -> (r: String)
    ensures
        r@ == text_of_json(value.deep_view()),
        reads_back(value.deep_view(), DEEPEST as nat) ==> is_read_as(r@, value.deep_view()),
{
    outside(value).to_string()
}

/// The text that `serde_json` writes for a value on lines of their own.
pub uninterp spec fn pretty_text_of_json(v: JsonView) -> Seq<char>;

/// `serde_json::to_string_pretty` on a `serde_json::Value`, which never fails:
/// what it writes depends on the value alone, and `serde_json` reads the value
/// back from it where a text can stand for the value as it is.
#[verifier::external_body]
fn write_pretty_json(value: &Json) -> (r: String)
    ensures
        r@ == pretty_text_of_json(value.deep_view()),
        reads_back(value.deep_view(), DEEPEST as nat) ==> is_read_as(r@, value.deep_view()),
{
    serde_json::to_string_pretty(&outside(value)).unwrap_or_default()
}

/// The bits of the double that `serde_json` takes a number for; nothing for any
/// other value.
pub uninterp spec fn double_bits_of(v: JsonView) -> Option<u64>;

/// `Value::as_f64`, with the double as its bits: it depends on the
/// value alone.
#[verifier::external_body]
fn read_double(value: &Json) -> (r: Option<u64>)
    ensures
        r == double_bits_of(value.deep_view()),
{
    outside(value).as_f64().map(|x| x.to_bits())
}

impl Json {
    /// The bits of the double that this number stands for.
    pub fn as_double_bits(&self) -> (r: Option<u64>)
        ensures
            r == double_bits_of(self.deep_view()),
    {
        read_double(self)
    }

    /// The value that a text stands for, or what is wrong with the text.
    pub fn parse(text: &str) -> (r: Result<Json, String>)
        ensures
            match r {
                Ok(j) => json_of_text(text@) == Ok::<JsonView, Seq<char>>(j.deep_view()),
                Err(e) => json_of_text(text@) == Err::<JsonView, Seq<char>>(e@),
            },
    {
        read_json(text)
    }

    /// This value as compact JSON text, from which it can be read back.
    pub fn to_text(&self) -> (r: String)
        ensures
            r@ == text_of_json(self.deep_view()),
            reads_back(self.deep_view(), DEEPEST as nat) ==> is_read_as(r@, self.deep_view()),
    {
        write_json(self)
    }

    /// This value as JSON text on lines of their own, from which it can be read
    /// back.
    pub fn to_pretty_text(&self) -> (r: String)
        ensures
            r@ == pretty_text_of_json(self.deep_view()),
            reads_back(self.deep_view(), DEEPEST as nat) ==> is_read_as(r@, self.deep_view()),
    {
        write_pretty_json(self)
    }
}

} // verus!
