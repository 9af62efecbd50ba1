//! JSON values, and reading and writing them with the `serde_json` crate.
//!
//! `Json` holds a value as plain data. `JsonTree` is what it stands for: an
//! object is a map, and an integer is a number whatever type holds it.
use crate::text::same;
use serde_json::{Number, Value};
use vstd::prelude::*;
use vstd::utf8::encode_utf8;

verus! {

/// `serde_json::Value`, a JSON value of the outside crate.
#[verifier::external_type_specification]
#[verifier::external_body]
pub struct ExValue(serde_json::Value);

/// `serde_json::Number`. Values of it are carried only for numbers that are no
/// integers.
#[verifier::external_type_specification]
#[verifier::external_body]
pub struct ExNumber(serde_json::Number);

/// `serde_json::Error`.
#[verifier::external_type_specification]
#[verifier::external_body]
pub struct ExError(serde_json::Error);

/// Whether `Number::is_f64` holds of a number.
pub uninterp spec fn number_is_f64(n: Number) -> bool;

/// `Number::is_f64`: the number is held as a float, so that neither `as_u64` nor
/// `as_i64` reads it.
pub assume_specification[ Number::is_f64 ](n: &Number) -> (r: bool)
    ensures
        r == number_is_f64(*n),
;

/// `Number::clone` keeps the number.
#[verifier::external_body]
fn number_clone(n: &Number) -> (r: Number)
    ensures
        r == *n,
{
    n.clone()
}

/// A number that is not an integer.
#[derive(Debug, PartialEq)]
pub struct Real {
    number: Number,
}

impl Real {
    #[verifier::type_invariant]
    closed spec fn inv(self) -> bool {
        number_is_f64(self.number)
    }

    /// The number.
    pub closed spec fn number(self) -> Number {
        self.number
    }

    /// The number, if it is held as a float.
    pub fn new(number: Number) -> (r: Option<Real>)
        ensures
            match r {
                Some(x) => number_is_f64(number) && x.number() == number,
                None => !number_is_f64(number),
            },
    {
        if number.is_f64() {
            Some(Real { number })
        } else {
            None
        }
    }

    /// The same number.
    pub fn copy(&self) -> (r: Real)
        ensures
            r.number() == self.number(),
    {
        proof {
            use_type_invariant(self);
        }
        Real { number: number_clone(&self.number) }
    }
}

/// A JSON value.
#[derive(Debug, PartialEq)]
pub enum Json {
    Null,
    Bool(bool),
    /// An integer that is not negative.
    UInt(u64),
    /// An integer of either sign.
    Int(i64),
    /// A number that is not an integer.
    Real(Real),
    Str(String),
    Array(Vec<Json>),
    /// Members in some order; of two members with one name the later counts.
    Object(Vec<(String, Json)>),
}

/// What a JSON value stands for.
pub enum JsonTree {
    Null,
    Bool(bool),
    Int(int),
    Real(Number),
    Str(Seq<char>),
    Array(Seq<JsonTree>),
    Object(Map<Seq<char>, JsonTree>),
}

/// The text is not JSON.
#[derive(Debug, Clone, Copy, PartialEq, Eq, Structural)]
pub struct JsonError;

/// The map that a list of members makes; later members replace earlier ones.
pub open spec fn json_members(v: Seq<(String, Json)>) -> Map<Seq<char>, JsonTree>
    decreases v,
{
    if v.len() == 0 {
        Map::empty()
    } else {
        json_members(v.drop_last()).insert(v[v.len() - 1].0@, v[v.len() - 1].1.tree())
    }
}

impl JsonTree {
    /// The object with one member more.
    pub open spec fn with(self, key: Seq<char>, value: JsonTree) -> JsonTree {
        match self {
            JsonTree::Object(m) => JsonTree::Object(m.insert(key, value)),
            _ => self,
        }
    }

    /// The object with one member more, where `null` counts as an empty object.
    pub open spec fn set(self, key: Seq<char>, value: JsonTree) -> JsonTree {
        match self {
            JsonTree::Null => empty_object().with(key, value),
            _ => self.with(key, value),
        }
    }

    /// The member of an object.
    pub open spec fn get(self, key: Seq<char>) -> Option<JsonTree> {
        match self {
            JsonTree::Object(m) => if m.contains_key(key) {
                Some(m[key])
            } else {
                None
            },
            _ => None,
        }
    }

    /// The text, if this is a string.
    pub open spec fn as_str(self) -> Option<Seq<char>> {
        match self {
            JsonTree::Str(s) => Some(s),
            _ => None,
        }
    }

    /// The truth value, if this is one.
    pub open spec fn as_bool(self) -> Option<bool> {
        match self {
            JsonTree::Bool(b) => Some(b),
            _ => None,
        }
    }

    /// The number, if this is an integer from `lo` to `hi`.
    pub open spec fn as_int(self, lo: int, hi: int) -> Option<int> {
        match self {
            JsonTree::Int(i) => if lo <= i <= hi {
                Some(i)
            } else {
                None
            },
            _ => None,
        }
    }

    /// The text of a member that is a string.
    pub open spec fn get_str(self, key: Seq<char>) -> Option<Seq<char>> {
        match self.get(key) {
            Some(t) => t.as_str(),
            None => None,
        }
    }

    /// The truth value of a member that is one.
    pub open spec fn get_bool(self, key: Seq<char>) -> Option<bool> {
        match self.get(key) {
            Some(t) => t.as_bool(),
            None => None,
        }
    }

    /// The number of a member that is an integer from `lo` to `hi`.
    pub open spec fn get_int(self, key: Seq<char>, lo: int, hi: int) -> Option<int> {
        match self.get(key) {
            Some(t) => t.as_int(lo, hi),
            None => None,
        }
    }
}

/// An object without members.
pub open spec fn empty_object() -> JsonTree {
    JsonTree::Object(Map::empty())
}

impl Json {
    /// What the value stands for.
    pub open spec fn tree(self) -> JsonTree
        decreases self,
    {
        match self {
            Json::Null => JsonTree::Null,
            Json::Bool(b) => JsonTree::Bool(b),
            Json::UInt(n) => JsonTree::Int(n as int),
            Json::Int(n) => JsonTree::Int(n as int),
            Json::Real(n) => JsonTree::Real(n.number()),
            Json::Str(s) => JsonTree::Str(s@),
            Json::Array(v) => JsonTree::Array(
                Seq::new(
                    v@.len(),
                    |i: int|
                        if 0 <= i < v@.len() {
                            v@[i].tree()
                        } else {
                            JsonTree::Null
                        },
                ),
            ),
            Json::Object(v) => JsonTree::Object(json_members(v@)),
        }
    }
}

/// The trees of a list of values.
pub open spec fn trees(v: Seq<Json>) -> Seq<JsonTree> {
    Seq::new(v.len(), |i: int| v[i].tree())
}

/// An array stands for its elements' trees.
pub proof fn lemma_array_tree(v: Vec<Json>)
    ensures
        Json::Array(v).tree() == JsonTree::Array(trees(v@)),
{
    let t = Json::Array(v).tree();
    assert(t->Array_0 =~= trees(v@));
}

/// A member is the last entry of its name.
proof fn lemma_members_last(v: Seq<(String, Json)>, key: Seq<char>, n: int)
    requires
        0 <= n <= v.len(),
        forall|i: int| n <= i < v.len() ==> (#[trigger] v[i]).0@ != key,
        n > 0 ==> v[n - 1].0@ == key,
    ensures
        n > 0 ==> json_members(v).contains_key(key) && json_members(v)[key] == v[n - 1].1.tree(),
        n == 0 ==> !json_members(v).contains_key(key),
    decreases v.len(),
{
    if v.len() > n {
        assert(v[v.len() - 1].0@ != key);
        lemma_members_last(v.drop_last(), key, n);
    }
}

impl Json {
    /// A string value.
    pub fn str(s: &str) -> (r: Json)
        ensures
            r.tree() == JsonTree::Str(s@),
    {
        Json::Str(s.to_owned())
    }

    /// An array.
    pub fn array(items: Vec<Json>) -> (r: Json)
        ensures
            r.tree() == JsonTree::Array(trees(items@)),
    {
        proof {
            lemma_array_tree(items);
        }
        Json::Array(items)
    }

    /// An object without members.
    pub fn object() -> (r: Json)
        ensures
            r is Object,
            r.tree() == empty_object(),
    {
        proof {
            reveal_with_fuel(Json::tree, 2);
            reveal_with_fuel(json_members, 2);
        }
        Json::Object(Vec::new())
    }

    /// The object with one member more.
    pub fn with(self, key: &str, value: Json) -> (r: Json)
        requires
            self is Object,
        ensures
            r is Object,
            r.tree() == self.tree().with(key@, value.tree()),
    {
        match self {
            Json::Object(mut v) => {
                let ghost before = v;
                v.push((key.to_owned(), value));
                proof {
                    reveal_with_fuel(Json::tree, 2);
                    reveal_with_fuel(json_members, 2);
                    assert(v@.drop_last() =~= before@);
                }
                Json::Object(v)
            },
            other => other,
        }
    }

    /// The object with one member more, where `null` counts as an empty object.
    pub fn set(self, key: &str, value: Json) -> (r: Json)
        requires
            self is Object || self is Null,
        ensures
            r is Object,
            r.tree() == self.tree().set(key@, value.tree()),
    {
        match self {
            Json::Null => Json::object().with(key, value),
            object => object.with(key, value),
        }
    }

    /// `Value::get` with a member's name.
    pub fn get(&self, key: &str) -> (r: Option<&Json>)
        ensures
            match r {
                Some(j) => self.tree().get(key@) == Some(j.tree()),
                None => self.tree().get(key@) is None,
            },
    {
        match self {
            Json::Object(v) => {
                let mut i: usize = v.len();
                while i > 0
                    invariant
                        i <= v@.len(),
                        self.tree() == JsonTree::Object(json_members(v@)),
                        forall|j: int| i <= j < v@.len() ==> (#[trigger] v@[j]).0@ != key@,
                    decreases i,
                {
                    if same(v[i - 1].0.as_str(), key) {
                        proof {
                            lemma_members_last(v@, key@, i as int);
                        }
                        return Some(&v[i - 1].1);
                    }
                    i = i - 1;
                }
                proof {
                    lemma_members_last(v@, key@, 0);
                }
                None
            },
            _ => None,
        }
    }

    /// `Value::as_str`.
    pub fn as_str(&self) -> (r: Option<&str>)
        ensures
            crate::text::opt_str(r) == self.tree().as_str(),
    {
        match self {
            Json::Str(s) => Some(s.as_str()),
            _ => None,
        }
    }

    /// `Value::as_bool`.
    pub fn as_bool(&self) -> (r: Option<bool>)
        ensures
            r == self.tree().as_bool(),
    {
        match self {
            Json::Bool(b) => Some(*b),
            _ => None,
        }
    }

    /// `Value::as_u64`.
    pub fn as_u64(&self) -> (r: Option<u64>)
        ensures
            match r {
                Some(n) => self.tree().as_int(0, u64::MAX as int) == Some(n as int),
                None => self.tree().as_int(0, u64::MAX as int) is None,
            },
    {
        match self {
            Json::UInt(n) => Some(*n),
            Json::Int(n) => if *n >= 0 {
                Some(*n as u64)
            } else {
                None
            },
            _ => None,
        }
    }

    /// `Value::as_i64`.
    pub fn as_i64(&self) -> (r: Option<i64>)
        ensures
            match r {
                Some(n) => self.tree().as_int(i64::MIN as int, i64::MAX as int) == Some(n as int),
                None => self.tree().as_int(i64::MIN as int, i64::MAX as int) is None,
            },
    {
        match self {
            Json::UInt(n) => if *n <= i64::MAX as u64 {
                Some(*n as i64)
            } else {
                None
            },
            Json::Int(n) => Some(*n),
            _ => None,
        }
    }

    /// `Value::as_array`.
    pub fn as_array(&self) -> (r: Option<&Vec<Json>>)
        ensures
            match r {
                Some(v) => self.tree() == JsonTree::Array(trees(v@)),
                None => !(self.tree() is Array),
            },
    {
        match self {
            Json::Array(v) => {
                proof {
                    lemma_array_tree(*v);
                }
                Some(v)
            },
            _ => None,
        }
    }

    /// The text of a member that is a string.
    pub fn get_str(&self, key: &str) -> (r: Option<&str>)
        ensures
            crate::text::opt_str(r) == self.tree().get_str(key@),
    {
        match self.get(key) {
            Some(j) => j.as_str(),
            None => None,
        }
    }

    /// The truth value of a member that is one.
    pub fn get_bool(&self, key: &str) -> (r: Option<bool>)
        ensures
            r == self.tree().get_bool(key@),
    {
        match self.get(key) {
            Some(j) => j.as_bool(),
            None => None,
        }
    }

    /// The number of a member that fits in a `u64`.
    pub fn get_u64(&self, key: &str) -> (r: Option<u64>)
        ensures
            match r {
                Some(n) => self.tree().get_int(key@, 0, u64::MAX as int) == Some(n as int),
                None => self.tree().get_int(key@, 0, u64::MAX as int) is None,
            },
    {
        match self.get(key) {
            Some(j) => j.as_u64(),
            None => None,
        }
    }
}

// ---------------------------------------------------------------------------
// serde_json
// ---------------------------------------------------------------------------

/// One level of a `serde_json::Value`.
pub(crate) enum Node {
    Null,
    Bool(bool),
    UInt(u64),
    Int(i64),
    Real(Number),
    Str(String),
    Array(Vec<Value>),
    Object(Vec<(String, Value)>),
}

/// What a `serde_json::Value` stands for.
pub uninterp spec fn value_tree(v: Value) -> JsonTree;

/// What `serde_json::from_slice::<Value>` reads from a text; `None` where it
/// returns an error.
pub uninterp spec fn json_parsed(text: Seq<u8>) -> Option<JsonTree>;

/// What `Value::to_string` writes.
pub uninterp spec fn json_text(tree: JsonTree) -> Seq<char>;

/// The map that a list of members makes.
pub(crate) open spec fn value_members(v: Seq<(String, Value)>) -> Map<Seq<char>, JsonTree>
    decreases v.len(),
{
    if v.len() == 0 {
        Map::empty()
    } else {
        value_members(v.drop_last()).insert(v[v.len() - 1].0@, value_tree(v[v.len() - 1].1))
    }
}

/// What one level of a value stands for.
pub(crate) open spec fn node_tree(n: Node) -> JsonTree {
    match n {
        Node::Null => JsonTree::Null,
        Node::Bool(b) => JsonTree::Bool(b),
        Node::UInt(i) => JsonTree::Int(i as int),
        Node::Int(i) => JsonTree::Int(i as int),
        Node::Real(x) => JsonTree::Real(x),
        Node::Str(s) => JsonTree::Str(s@),
        Node::Array(v) => JsonTree::Array(Seq::new(v@.len(), |i: int| value_tree(v@[i]))),
        Node::Object(v) => JsonTree::Object(value_members(v@)),
    }
}

/// No name occurs twice.
pub(crate) open spec fn distinct_names(v: Seq<(String, Value)>) -> bool {
    forall|i: int, j: int| 0 <= i < j < v.len() ==> (#[trigger] v[i]).0@ != (#[trigger] v[j]).0@
}

/// Every member is in the map under its name.
proof fn lemma_value_members(v: Seq<(String, Value)>, i: int)
    requires
        distinct_names(v),
        0 <= i < v.len(),
    ensures
        value_members(v).contains_key(v[i].0@),
        value_members(v)[v[i].0@] == value_tree(v[i].1),
        value_members(v).dom().finite(),
    decreases v.len(),
{
    let rest = v.drop_last();
    if i < rest.len() {
        assert(v[i].0@ != v[v.len() - 1].0@);
        lemma_value_members(rest, i);
        assert(rest[i] == v[i]);
    } else {
        lemma_value_members_finite(rest);
    }
}

proof fn lemma_value_members_finite(v: Seq<(String, Value)>)
    ensures
        value_members(v).dom().finite(),
    decreases v.len(),
{
    if v.len() > 0 {
        lemma_value_members_finite(v.drop_last());
    }
}

/// A member in the place of the one with its name replaces it.
proof fn lemma_value_replaced(v: Seq<(String, Value)>, i: int, entry: (String, Value))
    requires
        distinct_names(v),
        0 <= i < v.len(),
        v[i].0@ == entry.0@,
    ensures
        distinct_names(v.update(i, entry)),
        value_members(v.update(i, entry)) == value_members(v).insert(
            entry.0@,
            value_tree(entry.1),
        ),
    decreases v.len(),
{
    let new = v.update(i, entry);
    let rest = v.drop_last();
    let n = v.len() - 1;
    if i < n {
        assert(new.drop_last() =~= rest.update(i, entry));
        assert(new[n] == v[n]);
        assert(v[i].0@ != v[n].0@);
        lemma_value_replaced(rest, i, entry);
    } else {
        assert(new.drop_last() =~= rest);
    }
    assert(value_members(new) =~= value_members(v).insert(entry.0@, value_tree(entry.1)));
}

/// Puts a member among the others, in the place of the one with its name if there is
/// one.
fn put(out: &mut Vec<(String, Value)>, key: String, value: Value)
    requires
        distinct_names(old(out)@),
    ensures
        distinct_names(final(out)@),
        value_members(final(out)@) == value_members(old(out)@).insert(key@, value_tree(value)),
{
    let ghost before = out@;
    let n: usize = out.len();
    let mut i: usize = 0;
    while i < n
        invariant
            n == before.len(),
            i <= n,
            out@ == before,
            before == old(out)@,
            distinct_names(before),
            forall|j: int| 0 <= j < i ==> (#[trigger] before[j]).0@ != key@,
        decreases n - i,
    {
        if same(out[i].0.as_str(), key.as_str()) {
            proof {
                lemma_value_replaced(before, i as int, (key, value));
            }
            out.set(i, (key, value));
            return ;
        }
        i = i + 1;
    }
    out.push((key, value));
    proof {
        assert(out@.drop_last() =~= before);
    }
}

/// `serde_json::from_slice` into a `Value`: the value that the text writes, or an
/// error.
#[verifier::external_body]
fn parse_value(data: &[u8]) -> (r: Result<Value, serde_json::Error>)
    ensures
        match r {
            Ok(v) => json_parsed(data@) == Some(value_tree(v)),
            Err(_) => json_parsed(data@) is None,
        },
{
    serde_json::from_slice::<Value>(data)
}

/// Takes one level of a `Value` apart. A number is read with `Number::as_u64` and
/// `Number::as_i64`; one that neither reads is a float and kept as it is. The members
/// of an object come from a `serde_json::Map`, which holds a name once.
#[verifier::external_body]
fn open_value(v: Value) -> (n: Node)
    ensures
        node_tree(n) == value_tree(v),
        match n {
            Node::Object(m) => distinct_names(m@),
            Node::Real(x) => number_is_f64(x),
            _ => true,
        },
{
    match v {
        Value::Null => Node::Null,
        Value::Bool(b) => Node::Bool(b),
        Value::Number(n) => match (n.as_u64(), n.as_i64()) {
            (Some(i), _) => Node::UInt(i),
            (None, Some(i)) => Node::Int(i),
            (None, None) => Node::Real(n),
        },
        Value::String(s) => Node::Str(s),
        Value::Array(a) => Node::Array(a),
        Value::Object(m) => Node::Object(m.into_iter().collect()),
    }
}

/// Puts one level of a `Value` together. The members of an object are gathered in a
/// `serde_json::Map`; each of them has a name of its own.
#[verifier::external_body]
fn close_value(n: Node) -> (v: Value)
    requires
        match n {
            Node::Real(x) => number_is_f64(x),
            Node::Object(m) => distinct_names(m@),
            _ => true,
        },
    ensures
        value_tree(v) == node_tree(n),
{
    match n {
        Node::Null => Value::Null,
        Node::Bool(b) => Value::Bool(b),
        Node::UInt(i) => Value::from(i),
        Node::Int(i) => Value::from(i),
        Node::Real(x) => Value::Number(x),
        Node::Str(s) => Value::String(s),
        Node::Array(a) => Value::Array(a),
        Node::Object(m) => Value::Object(m.into_iter().collect()),
    }
}

/// `Value::to_string`: the value as compact JSON text.
#[verifier::external_body]
fn value_text(v: &Value) -> (r: String)
    ensures
        r@ == json_text(value_tree(*v)),
{
    v.to_string()
}

impl Json {
    /// The value that a `serde_json::Value` stands for.
    pub fn from_value(v: Value) -> (r: Json)
        ensures
            r.tree() == value_tree(v),
        decreases value_tree(v),
    {
        let ghost tree = value_tree(v);
        match open_value(v) {
            Node::Null => Json::Null,
            Node::Bool(b) => Json::Bool(b),
            Node::UInt(i) => Json::UInt(i),
            Node::Int(i) => Json::Int(i),
            Node::Real(x) => Json::Real(Real { number: x }),
            Node::Str(s) => Json::Str(s),
            Node::Array(items) => {
                let ghost all = items@;
                let mut out: Vec<Json> = Vec::new();
                for item in it: items
                    invariant
                        it.seq() == all,
                        tree == value_tree(v),
                        tree is Array,
                        tree->Array_0 == Seq::new(all.len(), |i: int| value_tree(all[i])),
                        out@.len() == it.index(),
                        forall|i: int|
                            0 <= i < out@.len() ==> (#[trigger] out@[i]).tree() == value_tree(all[i]),
                {
                    proof {
                        let trees = tree->Array_0;
                        assert(trees[it.index() as int] == value_tree(item));
                        assert(decreases_to!(tree => trees));
                        assert(decreases_to!(trees => trees[it.index() as int]));
                    }
                    out.push(Json::from_value(item));
                }
                proof {
                    lemma_array_tree(out);
                    assert(trees(out@) =~= tree->Array_0);
                }
                Json::Array(out)
            },
            Node::Object(entries) => {
                let ghost all = entries@;
                let mut out: Vec<(String, Json)> = Vec::new();
                for entry in it: entries
                    invariant
                        it.seq() == all,
                        distinct_names(all),
                        tree == value_tree(v),
                        tree is Object,
                        tree->Object_0 == value_members(all),
                        out@.len() == it.index(),
                        json_members(out@) == value_members(all.take(it.index() as int)),
                {
                    let ghost before = out@;
                    let ghost k = it.index() as int;
                    let (key, value) = entry;
                    proof {
                        let map = tree->Object_0;
                        lemma_value_members(all, k);
                        assert(map[key@] == value_tree(value));
                        assert(decreases_to!(tree => map));
                        assert(decreases_to!(map => map[key@]));
                    }
                    let j = Json::from_value(value);
                    out.push((key, j));
                    proof {
                        assert(out@.drop_last() =~= before);
                        assert(all.take(k + 1).drop_last() =~= all.take(k));
                    }
                }
                proof {
                    assert(all.take(all.len() as int) =~= all);
                }
                Json::Object(out)
            },
        }
    }

    /// The `serde_json::Value` that stands for this value.
    pub fn to_value(self) -> (r: Value)
        ensures
            value_tree(r) == self.tree(),
        decreases self,
    {
        let ghost this = self;
        match self {
            Json::Null => close_value(Node::Null),
            Json::Bool(b) => close_value(Node::Bool(b)),
            Json::UInt(i) => close_value(Node::UInt(i)),
            Json::Int(i) => close_value(Node::Int(i)),
            Json::Real(x) => {
                proof {
                    use_type_invariant(&x);
                }
                close_value(Node::Real(x.number))
            },
            Json::Str(s) => close_value(Node::Str(s)),
            Json::Array(items) => {
                let ghost all = items@;
                proof {
                    lemma_array_tree(items);
                    assert(decreases_to!(this => items));
                    assert(decreases_to!(items => items@));
                }
                let mut out: Vec<Value> = Vec::new();
                for item in it: items
                    invariant
                        it.seq() == all,
                        this == self,
                        decreases_to!(this => all),
                        out@.len() == it.index(),
                        forall|i: int|
                            0 <= i < out@.len() ==> value_tree(#[trigger] out@[i]) == all[i].tree(),
                {
                    proof {
                        assert(decreases_to!(all => all[it.index() as int]));
                    }
                    out.push(item.to_value());
                }
                proof {
                    assert(Seq::new(out@.len(), |i: int| value_tree(out@[i])) =~= trees(all));
                }
                close_value(Node::Array(out))
            },
            Json::Object(entries) => {
                let ghost all = entries@;
                proof {
                    assert(decreases_to!(this => entries));
                    assert(decreases_to!(entries => entries@));
                }
                let mut out: Vec<(String, Value)> = Vec::new();
                for entry in it: entries
                    invariant
                        it.seq() == all,
                        this == self,
                        decreases_to!(this => all),
                        distinct_names(out@),
                        value_members(out@) == json_members(all.take(it.index() as int)),
                {
                    let ghost k = it.index() as int;
                    proof {
                        assert(decreases_to!(all => all[k]));
                        assert(decreases_to!(all[k] => all[k].1));
                    }
                    let (key, value) = entry;
                    put(&mut out, key, value.to_value());
                    proof {
                        assert(all.take(k + 1).drop_last() =~= all.take(k));
                    }
                }
                proof {
                    assert(all.take(all.len() as int) =~= all);
                }
                close_value(Node::Object(out))
            },
        }
    }

    /// Reads a JSON text.
    pub fn parse(data: &[u8]) -> (r: Result<Json, JsonError>)
        ensures
            match r {
                Ok(j) => json_parsed(data@) == Some(j.tree()),
                Err(_) => json_parsed(data@) is None,
            },
    {
        match parse_value(data) {
            Ok(v) => Ok(Json::from_value(v)),
            Err(_) => Err(JsonError),
        }
    }

    /// The bytes of the value's JSON text.
    pub fn to_bytes(self) -> (r: Vec<u8>)
        ensures
            r@ == encode_utf8(json_text(self.tree())),
    {
        let text = self.text();
        vstd::slice::slice_to_vec(text.as_str().as_bytes())
    }

    /// The value as JSON text.
    pub fn text(self) -> (r: String)
        ensures
            r@ == json_text(self.tree()),
    {
        let v = self.to_value();
        value_text(&v)
    }
}

/// An object is read by the names of its members: what was put under a name is found
/// there, whatever was there before, and nothing else moves. Values of other kinds have
/// no members.
pub proof fn law_members(m: Map<Seq<char>, JsonTree>, key: Seq<char>, other: Seq<char>, value: JsonTree)
    ensures
        JsonTree::Object(m).get(key) == (if m.contains_key(key) {
            Some(m[key])
        } else {
            None
        }),
        JsonTree::Object(m).with(key, value).get(key) == Some(value),
        JsonTree::Object(m).set(key, value).get(key) == Some(value),
        other != key ==> JsonTree::Object(m).with(key, value).get(other) == JsonTree::Object(m).get(
            other,
        ),
        other != key ==> JsonTree::Object(m).set(key, value).get(other) == JsonTree::Object(m).get(
            other,
        ),
        JsonTree::Null.set(key, value).get(key) == Some(value),
        other != key ==> JsonTree::Null.set(key, value).get(other) is None,
        empty_object().get(key) is None,
        !(value is Object) ==> value.get(key) is None,
{
}

/// A value is read as what it is and as nothing else.
pub proof fn law_values(b: bool, n: int, text: Seq<char>, lo: int, hi: int, value: JsonTree)
    ensures
        JsonTree::Str(text).as_str() == Some(text),
        !(value is Str) ==> value.as_str() is None,
        JsonTree::Bool(b).as_bool() == Some(b),
        !(value is Bool) ==> value.as_bool() is None,
        lo <= n <= hi ==> JsonTree::Int(n).as_int(lo, hi) == Some(n),
        !(lo <= n <= hi) ==> JsonTree::Int(n).as_int(lo, hi) is None,
        !(value is Int) ==> value.as_int(lo, hi) is None,
{
}

/// A member that is read as a text, a truth value or a number is the member of that name,
/// if it is one.
pub proof fn law_typed_members(value: JsonTree, key: Seq<char>, lo: int, hi: int)
    ensures
        value.get(key) is None ==> value.get_str(key) is None && value.get_bool(key) is None
            && value.get_int(key, lo, hi) is None,
        value.get(key) matches Some(t) ==> value.get_str(key) == t.as_str() && value.get_bool(key)
            == t.as_bool() && value.get_int(key, lo, hi) == t.as_int(lo, hi),
{
}

/// What a value stands for. Of two members with one name the later counts.
pub proof fn law_trees(b: bool, u: u64, n: i64, s: String, v: Vec<Json>, o: Vec<(String, Json)>, i: int)
    ensures
        Json::Null.tree() == JsonTree::Null,
        Json::Bool(b).tree() == JsonTree::Bool(b),
        Json::UInt(u).tree() == JsonTree::Int(u as int),
        Json::Int(n).tree() == JsonTree::Int(n as int),
        Json::Str(s).tree() == JsonTree::Str(s@),
        Json::Array(v).tree() matches JsonTree::Array(t) && t.len() == v@.len() && (0 <= i
            < v@.len() ==> t[i] == v@[i].tree()),
        Json::Object(o).tree() matches JsonTree::Object(m) && {
            &&& 0 <= i < o@.len() && (forall|j: int|
                i < j < o@.len() ==> (#[trigger] o@[j]).0@ != o@[i].0@) ==> m.contains_key(
                o@[i].0@,
            ) && m[o@[i].0@] == o@[i].1.tree()
            &&& (forall|j: int| 0 <= j < o@.len() ==> (#[trigger] o@[j]).0@ != s@)
                ==> !m.contains_key(s@)
        },
{
    lemma_array_tree(v);
    if 0 <= i < o@.len() && (forall|j: int| i < j < o@.len() ==> (#[trigger] o@[j]).0@ != o@[i].0@)
    {
        lemma_members_last(o@, o@[i].0@, i + 1);
    }
    if forall|j: int| 0 <= j < o@.len() ==> (#[trigger] o@[j]).0@ != s@ {
        lemma_members_last(o@, s@, 0);
    }
}

} // verus!
