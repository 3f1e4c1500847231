//! JSON values as the pool sends them.
//!
//! Text is read and written by `serde_json`; what the miner reads out of a
//! value is decided on the plain tree below.

use crate::double::{exactly, lemma_whole_is_there, lemma_whole_is_unique, whole, Double, EXACT};
use crate::text::same;
use serde_json::Value;
use vstd::prelude::*;
use vstd::utf8::encode_utf8;

verus! {

// ------------------------------------------------------------------- trees

/// A JSON value. Numbers keep the form they were read in: unsigned, negative,
/// or neither.
#[derive(Debug)]
pub enum Json {
    Null,
    Bool(bool),
    Uint(u64),
    Int(i64),
    Real(Double),
    Text(String),
    List(Vec<Json>),
    Object(Vec<(String, Json)>),
}

/// A JSON value as a mathematical tree.
pub enum JsonV {
    Null,
    Bool(bool),
    Uint(u64),
    Int(i64),
    Real(Double),
    Text(Seq<char>),
    List(Seq<JsonV>),
    Object(Map<Seq<char>, JsonV>),
}

/// The last entry with a key, or -1.
pub open spec fn last_entry(v: Seq<(String, Json)>, key: Seq<char>) -> int
    decreases v.len(),
{
    if v.len() == 0 {
        -1
    } else if v.last().0@ == key {
        v.len() - 1
    } else {
        last_entry(v.drop_last(), key)
    }
}

impl Json {
    /// The tree that a value stands for. Of entries with the same key the last
    /// one counts.
    pub open spec fn tree(self) -> JsonV
        decreases self,
    {
        match self {
            Json::Null => JsonV::Null,
            Json::Bool(b) => JsonV::Bool(b),
            Json::Uint(n) => JsonV::Uint(n),
            Json::Int(n) => JsonV::Int(n),
            Json::Real(d) => JsonV::Real(d),
            Json::Text(s) => JsonV::Text(s@),
            Json::List(v) => JsonV::List(
                Seq::new(v@.len(), |i: int| if 0 <= i < v@.len() { v@[i].tree() } else { JsonV::Null }),
            ),
            Json::Object(v) => JsonV::Object(
                Map::new(
                    |k: Seq<char>| last_entry(v@, k) >= 0,
                    |k: Seq<char>|
                        {
                            let i = last_entry(v@, k);
                            if 0 <= i < v@.len() { v@[i].1.tree() } else { JsonV::Null }
                        },
                ),
            ),
        }
    }
}

impl View for Json {
    type V = JsonV;

    open spec fn view(&self) -> JsonV {
        self.tree()
    }
}

impl JsonV {
    /// The entry of an object; nothing for other values.
    pub open spec fn field(self, key: Seq<char>) -> Option<JsonV> {
        match self {
            JsonV::Object(m) => if m.contains_key(key) { Some(m[key]) } else { None },
            _ => None,
        }
    }

    /// The item of a list; nothing for other values.
    pub open spec fn item(self, i: int) -> Option<JsonV> {
        match self {
            JsonV::List(l) => if 0 <= i < l.len() { Some(l[i]) } else { None },
            _ => None,
        }
    }

    /// The text that the value is.
    pub open spec fn text(self) -> Option<Seq<char>> {
        match self {
            JsonV::Text(s) => Some(s),
            _ => None,
        }
    }

    /// The unsigned number that the value is.
    pub open spec fn uint(self) -> Option<u64> {
        match self {
            JsonV::Uint(n) => Some(n),
            _ => None,
        }
    }

    /// The truth value that the value is.
    pub open spec fn truth(self) -> Option<bool> {
        match self {
            JsonV::Bool(b) => Some(b),
            _ => None,
        }
    }

    /// The list that the value is.
    pub open spec fn list(self) -> Option<Seq<JsonV>> {
        match self {
            JsonV::List(l) => Some(l),
            _ => None,
        }
    }

    /// A number as a double. Whole numbers up to `2^53` stay what they are.
    pub open spec fn double(self) -> Option<Double> {
        match self {
            JsonV::Uint(n) => Some(
                if n <= EXACT { whole(n as int) } else { Double { bits: double_of_uint(n) } },
            ),
            JsonV::Int(n) => Some(
                if -(EXACT as int) <= n <= EXACT { whole(n as int) } else { Double { bits: double_of_int(n) } },
            ),
            JsonV::Real(d) => Some(d),
            _ => None,
        }
    }

    /// The text of an entry.
    pub open spec fn field_text(self, key: Seq<char>) -> Option<Seq<char>> {
        match self.field(key) {
            Some(v) => v.text(),
            None => None,
        }
    }

    /// The unsigned number under a key.
    pub open spec fn field_uint(self, key: Seq<char>) -> Option<u64> {
        match self.field(key) {
            Some(v) => v.uint(),
            None => None,
        }
    }

    /// The truth value under a key.
    pub open spec fn field_truth(self, key: Seq<char>) -> Option<bool> {
        match self.field(key) {
            Some(v) => v.truth(),
            None => None,
        }
    }

    /// The number under a key, as a double.
    pub open spec fn field_double(self, key: Seq<char>) -> Option<Double> {
        match self.field(key) {
            Some(v) => v.double(),
            None => None,
        }
    }
}

/// An optional value by what it holds.
pub open spec fn seen(v: Option<&Json>) -> Option<JsonV> {
    match v {
        Some(j) => Some(j@),
        None => None,
    }
}

proof fn lemma_last_entry(v: Seq<(String, Json)>, key: Seq<char>, i: int)
    requires
        0 <= i < v.len(),
        v[i].0@ == key,
        forall|j: int| i < j < v.len() ==> (#[trigger] v[j]).0@ != key,
    ensures
        last_entry(v, key) == i,
    decreases v.len(),
{
    if i < v.len() - 1 {
        assert(v.drop_last()[i] == v[i]);
        assert(v.last().0@ != key);
        assert forall|j: int| i < j < v.drop_last().len() implies (#[trigger] v.drop_last()[j]).0@ != key by {
            assert(v[j].0@ != key);
        }
        lemma_last_entry(v.drop_last(), key, i);
    }
}

proof fn lemma_no_entry(v: Seq<(String, Json)>, key: Seq<char>)
    requires
        forall|j: int| 0 <= j < v.len() ==> (#[trigger] v[j]).0@ != key,
    ensures
        last_entry(v, key) == -1,
    decreases v.len(),
{
    if v.len() > 0 {
        assert(v.last().0@ != key);
        assert forall|j: int| 0 <= j < v.drop_last().len() implies (#[trigger] v.drop_last()[j]).0@ != key by {
            assert(v[j].0@ != key);
        }
        lemma_no_entry(v.drop_last(), key);
    }
}

proof fn lemma_same_last_entry(a: Seq<(String, Json)>, b: Seq<(String, Json)>, key: Seq<char>)
    requires
        a.len() == b.len(),
        forall|j: int| 0 <= j < a.len() ==> (#[trigger] a[j]).0@ == b[j].0@,
    ensures
        last_entry(a, key) == last_entry(b, key),
        -1 <= last_entry(a, key) < a.len(),
    decreases a.len(),
{
    if a.len() > 0 {
        assert(a[a.len() - 1].0@ == b[a.len() - 1].0@);
        assert forall|j: int| 0 <= j < a.drop_last().len() implies (#[trigger] a.drop_last()[j]).0@
            == b.drop_last()[j].0@ by {
            assert(a[j].0@ == b[j].0@);
        }
        lemma_same_last_entry(a.drop_last(), b.drop_last(), key);
    }
}

/// Objects with the same entries are the same.
proof fn lemma_same_entries(a: Vec<(String, Json)>, b: Vec<(String, Json)>)
    requires
        a@.len() == b@.len(),
        forall|j: int|
            0 <= j < a@.len() ==> (#[trigger] a@[j]).0@ == b@[j].0@ && a@[j].1.tree() == b@[j].1.tree(),
    ensures
        Json::Object(a).tree() == Json::Object(b).tree(),
{
    let x = Json::Object(a).tree()->Object_0;
    let y = Json::Object(b).tree()->Object_0;
    assert forall|k: Seq<char>| #[trigger] x.contains_key(k) == y.contains_key(k) && (x.contains_key(k) ==> x[k]
        == y[k]) by {
        lemma_same_last_entry(a@, b@, k);
        if x.contains_key(k) {
            let i = last_entry(a@, k);
            assert(a@[i].1.tree() == b@[i].1.tree());
        }
    }
    assert(x =~= y);
}

impl Json {
    /// The entry of an object.
    pub fn get(&self, key: &str) -> (r: Option<&Json>)
        ensures
            seen(r) == self@.field(key@),
    {
        match self {
            Json::Object(v) => {
                let mut i: usize = v.len();
                while i > 0
                    invariant
                        i <= v.len(),
                        *self == Json::Object(*v),
                        forall|j: int| i <= j < v.len() ==> (#[trigger] v@[j]).0@ != key@,
                    decreases i,
                {
                    i = i - 1;
                    if same(v[i].0.as_str(), key) {
                        proof {
                            lemma_last_entry(v@, key@, i as int);
                        }
                        return Some(&v[i].1);
                    }
                }
                proof {
                    lemma_no_entry(v@, key@);
                }
                None
            },
            _ => None,
        }
    }

    /// The item of a list.
    pub fn at(&self, i: usize) -> (r: Option<&Json>)
        ensures
            seen(r) == self@.item(i as int),
    {
        match self {
            Json::List(v) => if i < v.len() { Some(&v[i]) } else { None },
            _ => None,
        }
    }

    /// The text that the value is.
    pub fn as_str(&self) -> (r: Option<&str>)
        ensures
            match r {
                Some(s) => self@.text() == Some(s@),
                None => self@.text() is None,
            },
    {
        match self {
            Json::Text(s) => Some(s.as_str()),
            _ => None,
        }
    }

    /// The unsigned number that the value is.
    pub fn as_u64(&self) -> (r: Option<u64>)
        ensures
            r == self@.uint(),
    {
        match self {
            Json::Uint(n) => Some(*n),
            _ => None,
        }
    }

    /// The truth value that the value is.
    pub fn as_bool(&self) -> (r: Option<bool>)
        ensures
            r == self@.truth(),
    {
        match self {
            Json::Bool(b) => Some(*b),
            _ => None,
        }
    }

    /// A number as a double.
    pub fn as_double(&self) -> (r: Option<Double>)
        ensures
            r == self@.double(),
    {
        match self {
            Json::Uint(n) => {
                let d = uint_as_double(*n);
                proof {
                    if *n <= EXACT {
                        lemma_whole_is_unique(d, *n as int);
                    }
                }
                Some(d)
            },
            Json::Int(n) => {
                let d = int_as_double(*n);
                proof {
                    if -(EXACT as int) <= *n <= EXACT {
                        lemma_whole_is_unique(d, *n as int);
                    }
                }
                Some(d)
            },
            Json::Real(d) => Some(*d),
            _ => None,
        }
    }

    /// Whether the value is null.
    pub fn is_null(&self) -> (r: bool)
        ensures
            r == (self@ == JsonV::Null),
    {
        match self {
            Json::Null => true,
            _ => false,
        }
    }

    /// A copy of a value.
    pub fn copy(&self) -> (r: Json)
        ensures
            r@ == self@,
        decreases self,
    {
        match self {
            Json::Null => Json::Null,
            Json::Bool(b) => Json::Bool(*b),
            Json::Uint(n) => Json::Uint(*n),
            Json::Int(n) => Json::Int(*n),
            Json::Real(d) => Json::Real(*d),
            Json::Text(s) => Json::Text(s.clone()),
            Json::List(v) => {
                let mut out: Vec<Json> = Vec::new();
                let mut i: usize = 0;
                while i < v.len()
                    invariant
                        i <= v.len(),
                        *self == Json::List(*v),
                        out@.len() == i,
                        forall|j: int| 0 <= j < i ==> (#[trigger] out@[j]).tree() == v@[j].tree(),
                    decreases v.len() - i,
                {
                    assert(decreases_to!(*self => self->List_0));
                    assert(decreases_to!(*v => v@));
                    assert(decreases_to!(v@ => v@[i as int]));
                    let x = v[i].copy();
                    out.push(x);
                    i = i + 1;
                }
                let r = Json::List(out);
                assert(r.tree()->List_0 =~= self.tree()->List_0);
                r
            },
            Json::Object(v) => {
                let mut out: Vec<(String, Json)> = Vec::new();
                let mut i: usize = 0;
                while i < v.len()
                    invariant
                        i <= v.len(),
                        *self == Json::Object(*v),
                        out@.len() == i,
                        forall|j: int|
                            0 <= j < i ==> (#[trigger] out@[j]).0@ == v@[j].0@ && out@[j].1.tree()
                                == v@[j].1.tree(),
                    decreases v.len() - i,
                {
                    assert(decreases_to!(*self => self->Object_0));
                    assert(decreases_to!(*v => v@));
                    assert(decreases_to!(v@ => v@[i as int]));
                    assert(decreases_to!(v@[i as int] => v@[i as int].1));
                    let x = v[i].1.copy();
                    out.push((v[i].0.clone(), x));
                    i = i + 1;
                }
                proof {
                    lemma_same_entries(out, *v);
                }
                Json::Object(out)
            },
        }
    }

    /// The text under a key.
    pub fn field_str(&self, key: &str) -> (r: Option<&str>)
        ensures
            match r {
                Some(s) => self@.field_text(key@) == Some(s@),
                None => self@.field_text(key@) is None,
            },
    {
        match self.get(key) {
            Some(v) => v.as_str(),
            None => None,
        }
    }

    /// The unsigned number under a key.
    pub fn field_u64(&self, key: &str) -> (r: Option<u64>)
        ensures
            r == self@.field_uint(key@),
    {
        match self.get(key) {
            Some(v) => v.as_u64(),
            None => None,
        }
    }

    /// The truth value under a key.
    pub fn field_bool(&self, key: &str) -> (r: Option<bool>)
        ensures
            r == self@.field_truth(key@),
    {
        match self.get(key) {
            Some(v) => v.as_bool(),
            None => None,
        }
    }

    /// The number under a key, as a double.
    pub fn field_as_double(&self, key: &str) -> (r: Option<Double>)
        ensures
            r == self@.field_double(key@),
    {
        match self.get(key) {
            Some(v) => v.as_double(),
            None => None,
        }
    }
}

// ------------------------------------------------------------- serde_json

/// A value as `serde_json` holds it.
#[verifier::external_type_specification]
#[verifier::external_body]
pub struct ExValue(serde_json::Value);

/// The tree that a `serde_json` value holds.
pub uninterp spec fn value_tree(v: serde_json::Value) -> JsonV;

/// What `serde_json::from_slice` reads a text as; nothing where it is no JSON
/// text.
pub uninterp spec fn json_value(text: Seq<u8>) -> Option<JsonV>;

/// What `serde_json::Value::to_string` writes for a tree.
pub uninterp spec fn json_text(tree: JsonV) -> Seq<char>;

/// The bits of the double that `serde_json` gives for an unsigned number above
/// `2^53`.
pub uninterp spec fn double_of_uint(n: u64) -> u64;

/// The bits of the double that `serde_json` gives for a signed number beyond
/// `2^53` either way.
pub uninterp spec fn double_of_int(n: i64) -> u64;

/// `serde_json::from_slice` into a `serde_json::Value`: the tree it reads is a
/// function of the text.
#[verifier::external_body]
fn read_value(text: &[u8]) -> (r: Option<serde_json::Value>)
    ensures
        match r {
            Some(v) => json_value(text@) == Some(value_tree(v)),
            None => json_value(text@) is None,
        },
{
    serde_json::from_slice(text).ok()
}

/// The variants of `serde_json::Value` one by one: the tree built is the one
/// that the value holds.
#[verifier::external_body]
fn tree_of(v: Value) -> (r: Json)
    ensures
        r@ == value_tree(v),
{
    match v {
        Value::Null => Json::Null,
        Value::Bool(b) => Json::Bool(b),
        Value::Number(n) => match (n.as_u64(), n.as_i64()) {
            (Some(u), _) => Json::Uint(u),
            (None, Some(i)) => Json::Int(i),
            _ => Json::Real(Double { bits: n.as_f64().unwrap_or_default().to_bits() }),
        },
        Value::String(s) => Json::Text(s),
        Value::Array(a) => Json::List(a.into_iter().map(tree_of).collect()),
        Value::Object(m) => Json::Object(m.into_iter().map(|(k, x)| (k, tree_of(x))).collect()),
    }
}

/// `serde_json::Number::as_f64` of an unsigned number, by its bits. It is the
/// number itself up to `2^53`, and a function of the number above that.
#[verifier::external_body]
fn uint_as_double(n: u64) -> (r: Double)
    ensures
        if n <= EXACT { exactly(r, n as int) } else { r.bits == double_of_uint(n) },
{
    Double { bits: serde_json::Number::from(n).as_f64().unwrap_or_default().to_bits() }
}

/// `serde_json::Number::as_f64` of a signed number, by its bits. It is the
/// number itself up to `2^53` either way, and a function of the number beyond
/// that.
#[verifier::external_body]
fn int_as_double(n: i64) -> (r: Double)
    ensures
        if -(EXACT as int) <= n <= EXACT { exactly(r, n as int) } else { r.bits == double_of_int(n) },
{
    Double { bits: serde_json::Number::from(n).as_f64().unwrap_or_default().to_bits() }
}

/// `serde_json::from_slice`, `Value::get` and `Value::to_string`: the entry of
/// an object text, written out again. It is there exactly where the text is
/// read as an object with that entry, and what is written is a function of the
/// entry's tree.
#[verifier::external_body]
pub(crate) fn entry_text(text: &[u8], key: &str) -> (r: Option<String>)
    ensures
        r is Some <==> (json_value(text@) is Some && json_value(text@)->0.field(key@) is Some),
        r is Some ==> r->0@ == json_text(json_value(text@)->0.field(key@)->0),
{
    let v: serde_json::Value = serde_json::from_slice(text).ok()?;
    v.get(key).map(|x| x.to_string())
}

/// Reads a JSON text.
pub fn parse_json(text: &[u8]) -> (r: Option<Json>)
    ensures
        match r {
            Some(j) => json_value(text@) == Some(j@),
            None => json_value(text@) is None,
        },
{
    match read_value(text) {
        Some(v) => Some(tree_of(v)),
        None => None,
    }
}

// ----------------------------------------------------------------- writing

/// A text or a number that is written out.
#[derive(Debug)]
pub enum Scalar {
    Text(String),
    Uint(u64),
}

/// What an entry of a written object holds.
#[derive(Debug)]
pub enum Entry {
    One(Scalar),
    List(Vec<Scalar>),
}

impl View for Scalar {
    type V = JsonV;

    open spec fn view(&self) -> JsonV {
        match *self {
            Scalar::Text(s) => JsonV::Text(s@),
            Scalar::Uint(n) => JsonV::Uint(n),
        }
    }
}

impl View for Entry {
    type V = JsonV;

    open spec fn view(&self) -> JsonV {
        match *self {
            Entry::One(s) => s@,
            Entry::List(v) => JsonV::List(Seq::new(v@.len(), |i: int| v@[i]@)),
        }
    }
}

/// The entries of an object; the last one with a key counts.
pub open spec fn entries_map(v: Seq<(String, Entry)>) -> Map<Seq<char>, JsonV>
    decreases v.len(),
{
    if v.len() == 0 {
        Map::empty()
    } else {
        entries_map(v.drop_last()).insert(v.last().0@, v.last().1@)
    }
}

/// `serde_json::Value::to_string` of an object with these entries: a function
/// of the tree, which `serde_json::from_slice` reads back as that tree, and
/// which stands on one line.
#[verifier::external_body]
pub(crate) fn object_text(entries: &Vec<(String, Entry)>) -> (r: String)
    ensures
        r@ == json_text(JsonV::Object(entries_map(entries@))),
        json_value(encode_utf8(r@)) == Some(JsonV::Object(entries_map(entries@))),
        !r@.contains('\n'),
{
    let one = |s: &Scalar| match s {
        Scalar::Text(t) => Value::from(t.as_str()),
        Scalar::Uint(n) => Value::from(*n),
    };
    let all = |e: &Entry| match e {
        Entry::One(s) => one(s),
        Entry::List(l) => Value::Array(l.iter().map(one).collect()),
    };
    Value::Object(entries.iter().map(|(k, e)| (k.clone(), all(e))).collect()).to_string()
}

/// Law: a value is read as what it is, and as nothing else.
pub proof fn law_values_are_read_by_kind(v: JsonV)
    ensures
        v.uint() is Some <==> v is Uint,
        v.truth() is Some <==> v is Bool,
        v.text() is Some <==> v is Text,
        v.list() is Some <==> v is List,
        v.double() is Some <==> v is Uint || v is Int || v is Real,
        v matches JsonV::Uint(n) ==> v.uint() == Some(n),
        v matches JsonV::Bool(b) ==> v.truth() == Some(b),
        v matches JsonV::Text(t) ==> v.text() == Some(t),
        v matches JsonV::List(l) ==> v.list() == Some(l),
        v matches JsonV::Real(d) ==> v.double() == Some(d),
        v matches JsonV::Uint(n) ==> (n <= 0x20_0000_0000_0000 ==> exactly(v.double()->0, n as int)),
        v matches JsonV::Int(n) ==> (-0x20_0000_0000_0000 <= n <= 0x20_0000_0000_0000 ==> exactly(
            v.double()->0,
            n as int,
        )),
{
    if let JsonV::Uint(n) = v {
        if n <= 0x20_0000_0000_0000 {
            lemma_whole_is_there(n as int);
        }
    }
    if let JsonV::Int(n) = v {
        if -0x20_0000_0000_0000 <= n <= 0x20_0000_0000_0000 {
            lemma_whole_is_there(n as int);
        }
    }
}

/// Law: a field is read as what stands under its key.
pub proof fn law_fields_are_read_by_kind(v: JsonV, key: Seq<char>, x: JsonV)
    requires
        v.field(key) == Some(x),
    ensures
        v.field_uint(key) == x.uint(),
        v.field_text(key) == x.text(),
        v.field_truth(key) == x.truth(),
        v.field_double(key) == x.double(),
{
}

} // verus!
