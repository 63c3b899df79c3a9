//! JSON values.
//!
//! `Json` is the tree that the crate reads and builds. Reading a text and
//! writing one is the work of `serde_json`.
use crate::text::{is_white_space, same};
use vstd::prelude::*;

verus! {

// ---------------------------------------------------------------------------
// The tree
// ---------------------------------------------------------------------------
/// A JSON value. The entries of an object stand in the order in which they are
/// written.
pub ghost enum JsonV {
    Null,
    Bool(bool),
    /// A number that is a non-negative integer below 2^64.
    Number(u64),
    /// Any other number, by its text.
    OtherNumber(Seq<char>),
    Text(Seq<char>),
    Array(Seq<JsonV>),
    Object(Seq<(Seq<char>, JsonV)>),
}

/// The value of the first entry with the key.
pub open spec fn lookup(entries: Seq<(Seq<char>, JsonV)>, key: Seq<char>) -> Option<JsonV>
    decreases entries.len(),
{
    if entries.len() == 0 {
        None
    } else if entries[0].0 == key {
        Some(entries[0].1)
    } else {
        lookup(entries.subrange(1, entries.len() as int), key)
    }
}

/// No key occurs twice.
pub open spec fn distinct_keys(entries: Seq<(Seq<char>, JsonV)>) -> bool {
    forall|i: int, j: int|
        0 <= i < j < entries.len() ==> (#[trigger] entries[i]).0 != (#[trigger] entries[j]).0
}

impl JsonV {
    /// The value under a key of an object.
    pub open spec fn get(self, key: Seq<char>) -> Option<JsonV> {
        match self {
            JsonV::Object(entries) => lookup(entries, key),
            _ => None,
        }
    }

    /// The first item of an array.
    pub open spec fn first(self) -> Option<JsonV> {
        match self {
            JsonV::Array(items) => if items.len() > 0 {
                Some(items[0])
            } else {
                None
            },
            _ => None,
        }
    }

    /// What a string holds.
    pub open spec fn text(self) -> Option<Seq<char>> {
        match self {
            JsonV::Text(s) => Some(s),
            _ => None,
        }
    }

    /// What a number holds that is a non-negative integer below 2^64.
    pub open spec fn number(self) -> Option<u64> {
        match self {
            JsonV::Number(n) => Some(n),
            _ => None,
        }
    }
}

/// The value can be written: it holds no object with a key that occurs twice.
pub open spec fn writable(j: JsonV) -> bool
    decreases j,
{
    match j {
        JsonV::Array(items) => forall|i: int|
            0 <= i < items.len() ==> writable(#[trigger] items[i]),
        JsonV::Object(entries) => distinct_keys(entries) && forall|i: int|
            0 <= i < entries.len() ==> writable((#[trigger] entries[i]).1),
        _ => true,
    }
}

/// The value can be written, and every number in it is a non-negative integer
/// below 2^64.
pub open spec fn exact(j: JsonV) -> bool
    decreases j,
{
    match j {
        JsonV::OtherNumber(_) => false,
        JsonV::Array(items) => forall|i: int| 0 <= i < items.len() ==> exact(#[trigger] items[i]),
        JsonV::Object(entries) => distinct_keys(entries) && forall|i: int|
            0 <= i < entries.len() ==> exact((#[trigger] entries[i]).1),
        _ => true,
    }
}

/// A value whose numbers are all integers below 2^64 can be written.
pub proof fn lemma_exact_writable(j: JsonV)
    requires
        exact(j),
    ensures
        writable(j),
    decreases j,
{
    match j {
        JsonV::Array(items) => {
            assert forall|i: int| 0 <= i < items.len() implies writable(#[trigger] items[i]) by {
                assert(decreases_to!(j => j->Array_0));
                assert(decreases_to!(items => items[i]));
                assert(exact(items[i]));
                lemma_exact_writable(items[i]);
            }
        },
        JsonV::Object(entries) => {
            assert forall|i: int| 0 <= i < entries.len() implies writable(
                (#[trigger] entries[i]).1,
            ) by {
                assert(decreases_to!(j => j->Object_0));
                assert(decreases_to!(entries => entries[i]));
                assert(decreases_to!(entries[i] => entries[i].1));
                assert(exact(entries[i].1));
                lemma_exact_writable(entries[i].1);
            }
        },
        _ => {},
    }
}

/// An array is writable where each of its items is.
pub proof fn lemma_writable_array(items: Seq<JsonV>)
    ensures
        writable(JsonV::Array(items)) == (forall|i: int|
            0 <= i < items.len() ==> writable(#[trigger] items[i])),
{
    let j = JsonV::Array(items);
    if writable(j) {
        match j {
            JsonV::Array(inner) => {
                assert(forall|i: int|
                    0 <= i < inner.len() ==> writable(#[trigger] inner[i]));
            },
            _ => {},
        }
    }
}

/// An object is writable where its keys are distinct and each value is.
pub proof fn lemma_writable_object(entries: Seq<(Seq<char>, JsonV)>)
    requires
        distinct_keys(entries),
        forall|i: int| 0 <= i < entries.len() ==> writable((#[trigger] entries[i]).1),
    ensures
        writable(JsonV::Object(entries)),
{
}

/// Arrays and objects are nested at most `n` levels deep.
pub open spec fn fits(j: JsonV, n: nat) -> bool
    decreases n,
{
    match j {
        JsonV::Array(items) => n > 0 && forall|i: int|
            0 <= i < items.len() ==> fits(#[trigger] items[i], (n - 1) as nat),
        JsonV::Object(entries) => n > 0 && forall|i: int|
            0 <= i < entries.len() ==> fits((#[trigger] entries[i]).1, (n - 1) as nat),
        _ => true,
    }
}

/// A value nested at most `a` levels deep is nested at most `b` levels deep
/// for every `b` from `a` on.
pub proof fn lemma_fits_more(j: JsonV, a: nat, b: nat)
    requires
        fits(j, a),
        a <= b,
    ensures
        fits(j, b),
    decreases a,
{
    match j {
        JsonV::Array(items) => {
            assert forall|i: int| 0 <= i < items.len() implies fits(
                #[trigger] items[i],
                (b - 1) as nat,
            ) by {
                lemma_fits_more(items[i], (a - 1) as nat, (b - 1) as nat);
            }
        },
        JsonV::Object(entries) => {
            assert forall|i: int| 0 <= i < entries.len() implies fits(
                (#[trigger] entries[i]).1,
                (b - 1) as nat,
            ) by {
                lemma_fits_more(entries[i].1, (a - 1) as nat, (b - 1) as nat);
            }
        },
        _ => {},
    }
}

/// The value can be written, its numbers are all integers below 2^64, and it
/// is nested at most `n` levels deep.
pub open spec fn plain(j: JsonV, n: nat) -> bool {
    exact(j) && fits(j, n)
}

/// An array of plain values is plain, one level deeper.
pub proof fn lemma_array_plain(items: Seq<JsonV>, n: nat)
    requires
        forall|i: int| 0 <= i < items.len() ==> plain(#[trigger] items[i], n),
    ensures
        plain(JsonV::Array(items), n + 1),
{
    assert forall|i: int| 0 <= i < items.len() implies exact(#[trigger] items[i]) by {
        assert(plain(items[i], n));
    }
    assert forall|i: int| 0 <= i < items.len() implies fits(#[trigger] items[i], n) by {
        assert(plain(items[i], n));
    }
}

/// An object of plain values with distinct keys is plain, one level deeper.
pub proof fn lemma_object_plain(entries: Seq<(Seq<char>, JsonV)>, n: nat)
    requires
        distinct_keys(entries),
        forall|i: int| 0 <= i < entries.len() ==> plain((#[trigger] entries[i]).1, n),
    ensures
        plain(JsonV::Object(entries), n + 1),
{
}

/// A plain value stays plain where a deeper nesting is allowed.
pub proof fn lemma_plain_more(j: JsonV, a: nat, b: nat)
    requires
        plain(j, a),
        a <= b,
    ensures
        plain(j, b),
{
    lemma_fits_more(j, a, b);
}

/// A JSON value.
#[derive(Debug)]
pub enum Json {
    Null,
    Bool(bool),
    /// A number that is a non-negative integer below 2^64.
    Number(u64),
    /// Any other number.
    OtherNumber(OtherNumber),
    Text(String),
    Array(Vec<Json>),
    Object(Vec<(String, Json)>),
}

/// A number that is negative, has a fraction or is 2^64 or more: as
/// `serde_json` holds it, so that it is written as it was read, and its text.
#[derive(Debug)]
pub struct OtherNumber {
    value: serde_json::Value,
    text: String,
}

impl View for OtherNumber {
    type V = Seq<char>;

    closed spec fn view(&self) -> Seq<char> {
        self.text@
    }
}

impl OtherNumber {
    /// The value is the number with the text.
    #[verifier::type_invariant]
    spec fn inv(self) -> bool {
        json_tree(self.value) == JsonV::OtherNumber(self.text@)
    }

    /// The text of the number.
    pub fn text(&self) -> (r: &str)
        ensures
            r@ == self@,
    {
        self.text.as_str()
    }

    /// The number as `serde_json` holds it.
    fn to_value(&self) -> (r: serde_json::Value)
        ensures
            json_tree(r) == JsonV::OtherNumber(self@),
    {
        proof {
            use_type_invariant(self);
        }
        clone_value(&self.value)
    }
}

impl Clone for OtherNumber {
    fn clone(&self) -> (r: OtherNumber)
        ensures
            r@ == self@,
    {
        OtherNumber { value: self.to_value(), text: self.text.clone() }
    }
}

impl Json {
    /// The tree that the value stands for.
    pub open spec fn tree(&self) -> JsonV
        decreases self,
    {
        match self {
            Json::Null => JsonV::Null,
            Json::Bool(b) => JsonV::Bool(*b),
            Json::Number(n) => JsonV::Number(*n),
            Json::OtherNumber(s) => JsonV::OtherNumber(s@),
            Json::Text(s) => JsonV::Text(s@),
            Json::Array(v) => JsonV::Array(
                Seq::new(
                    v@.len(),
                    |i: int|
                        if 0 <= i < v@.len() {
                            v@[i].tree()
                        } else {
                            JsonV::Null
                        },
                ),
            ),
            Json::Object(v) => JsonV::Object(
                Seq::new(
                    v@.len(),
                    |i: int|
                        if 0 <= i < v@.len() {
                            (v@[i].0@, v@[i].1.tree())
                        } else {
                            (seq![], JsonV::Null)
                        },
                ),
            ),
        }
    }
}

impl View for Json {
    type V = JsonV;

    open spec fn view(&self) -> JsonV {
        self.tree()
    }
}

/// The trees of a sequence of values.
pub open spec fn trees(s: Seq<Json>) -> Seq<JsonV> {
    Seq::new(s.len(), |i: int| s[i]@)
}

/// The keys and trees of a sequence of entries.
pub open spec fn entry_trees(s: Seq<(String, Json)>) -> Seq<(Seq<char>, JsonV)> {
    Seq::new(s.len(), |i: int| (s[i].0@, s[i].1@))
}

/// The tree of an array is made of the trees of its items.
pub broadcast proof fn lemma_array_tree(v: Vec<Json>)
    ensures
        #[trigger] Json::Array(v)@ == JsonV::Array(trees(v@)),
{
    assert(Json::Array(v).tree()->Array_0 =~= trees(v@));
}

/// The tree of an object is made of its keys and the trees of its values.
pub broadcast proof fn lemma_object_tree(v: Vec<(String, Json)>)
    ensures
        #[trigger] Json::Object(v)@ == JsonV::Object(entry_trees(v@)),
{
    assert(Json::Object(v).tree()->Object_0 =~= entry_trees(v@));
}

impl Json {
    /// The value under a key of an object: that of the first entry with it.
    pub fn get(&self, key: &str) -> (r: Option<&Json>)
        ensures
            crate::text::view_opt(r) == self@.get(key@),
    {
        broadcast use lemma_object_tree;

        match self {
            Json::Object(v) => {
                let mut i: usize = 0;
                let ghost all = entry_trees(v@);
                assert(all.subrange(0, all.len() as int) =~= all);
                while i < v.len()
                    invariant
                        i <= v@.len(),
                        all == entry_trees(v@),
                        self@ == JsonV::Object(all),
                        lookup(all, key@) == lookup(
                            all.subrange(i as int, all.len() as int),
                            key@,
                        ),
                    decreases v@.len() - i,
                {
                    let ghost rest = all.subrange(i as int, all.len() as int);
                    assert(rest[0] == all[i as int]);
                    if same(v[i].0.as_str(), key) {
                        return Some(&v[i].1);
                    }
                    assert(rest.subrange(1, rest.len() as int) =~= all.subrange(
                        i + 1,
                        all.len() as int,
                    ));
                    i = i + 1;
                }
                None
            },
            _ => None,
        }
    }

    /// The first item of an array.
    pub fn first(&self) -> (r: Option<&Json>)
        ensures
            crate::text::view_opt(r) == self@.first(),
    {
        broadcast use lemma_array_tree;

        match self {
            Json::Array(v) => if v.len() > 0 {
                assert(trees(v@)[0] == v@[0]@);
                Some(&v[0])
            } else {
                None
            },
            _ => None,
        }
    }

    /// What a string holds.
    pub fn as_text(&self) -> (r: Option<&String>)
        ensures
            crate::text::view_opt(r) == self@.text(),
    {
        match self {
            Json::Text(s) => Some(s),
            _ => None,
        }
    }

    /// What a number holds that is a non-negative integer below 2^64.
    pub fn as_number(&self) -> (r: Option<u64>)
        ensures
            r == self@.number(),
    {
        match self {
            Json::Number(n) => Some(*n),
            _ => None,
        }
    }

    /// Whether the value is `null`.
    pub fn is_null(&self) -> (r: bool)
        ensures
            r == (self@ == JsonV::Null),
    {
        matches!(self, Json::Null)
    }
}

impl Clone for Json {
    fn clone(&self) -> (r: Json)
        ensures
            r@ == self@,
        decreases self,
    {
        broadcast use {lemma_array_tree, lemma_object_tree};

        match self {
            Json::Null => Json::Null,
            Json::Bool(b) => Json::Bool(*b),
            Json::Number(n) => Json::Number(*n),
            Json::OtherNumber(s) => Json::OtherNumber(s.clone()),
            Json::Text(s) => Json::Text(s.clone()),
            Json::Array(v) => {
                let mut out: Vec<Json> = Vec::new();
                let mut i: usize = 0;
                while i < v.len()
                    invariant
                        i <= v@.len(),
                        self == Json::Array(*v),
                        out@.len() == i,
                        forall|j: int| 0 <= j < i ==> (#[trigger] out@[j])@ == v@[j]@,
                    decreases v@.len() - i,
                {
                    proof {
                        assert(decreases_to!(self => self->Array_0));
                        assert(decreases_to!(v@ => v@[i as int]));
                    }
                    let x = v[i].clone();
                    out.push(x);
                    i = i + 1;
                }
                assert(trees(out@) =~= trees(v@));
                Json::Array(out)
            },
            Json::Object(v) => {
                let mut out: Vec<(String, Json)> = Vec::new();
                let mut i: usize = 0;
                while i < v.len()
                    invariant
                        i <= v@.len(),
                        self == Json::Object(*v),
                        out@.len() == i,
                        forall|j: int|
                            0 <= j < i ==> (#[trigger] out@[j]).0@ == v@[j].0@ && out@[j].1@
                                == v@[j].1@,
                    decreases v@.len() - i,
                {
                    proof {
                        assert(decreases_to!(self => self->Object_0));
                        assert(decreases_to!(v@ => v@[i as int]));
                        assert(decreases_to!(v@[i as int] => v@[i as int].1));
                    }
                    let x = v[i].1.clone();
                    out.push((v[i].0.clone(), x));
                    i = i + 1;
                }
                assert(entry_trees(out@) =~= entry_trees(v@));
                Json::Object(out)
            },
        }
    }
}

// ---------------------------------------------------------------------------
// serde_json
// ---------------------------------------------------------------------------
/// `serde_json::Value`.
#[verifier::external_type_specification]
#[verifier::external_body]
pub struct ExValue(serde_json::Value);

/// The tree that a `serde_json::Value` holds.
pub uninterp spec fn json_tree(v: serde_json::Value) -> JsonV;

/// What `serde_json` reads from a text: the tree, or the text of the error.
pub uninterp spec fn json_parse(text: Seq<char>) -> Result<JsonV, Seq<char>>;

/// Reading the text gives the tree.
pub open spec fn reads_as(text: Seq<char>, j: JsonV) -> bool {
    json_parse(text) is Ok && json_parse(text)->Ok_0 == j
}

/// The compact text that `serde_json` writes for a tree.
pub uninterp spec fn json_text(j: JsonV) -> Seq<char>;

/// The outermost layer of a `serde_json::Value`: what it is, with the values
/// below it as they are.
pub enum Layer {
    Null,
    Bool(bool),
    /// The number where it is a non-negative integer below 2^64, its text, and
    /// the value itself.
    Number(Option<u64>, String, serde_json::Value),
    Text(String),
    Array(Vec<serde_json::Value>),
    Object(Vec<(String, serde_json::Value)>),
}

/// The tree that a layer stands for.
pub open spec fn layer_tree(l: Layer) -> JsonV {
    match l {
        Layer::Null => JsonV::Null,
        Layer::Bool(b) => JsonV::Bool(b),
        Layer::Number(Some(n), _, _) => JsonV::Number(n),
        Layer::Number(None, s, _) => JsonV::OtherNumber(s@),
        Layer::Text(s) => JsonV::Text(s@),
        Layer::Array(v) => JsonV::Array(Seq::new(v@.len(), |i: int| json_tree(v@[i]))),
        Layer::Object(v) => JsonV::Object(
            Seq::new(v@.len(), |i: int| (v@[i].0@, json_tree(v@[i].1))),
        ),
    }
}

/// `serde_json::from_str::<serde_json::Value>`: the value whose tree, or the
/// error whose text, `json_parse` names.
#[verifier::external_body]
fn read_value(text: &str) -> (r: Result<serde_json::Value, String>)
    ensures
        match r {
            Ok(v) => reads_as(text@, json_tree(v)),
            Err(e) => json_parse(text@) is Err && json_parse(text@)->Err_0 == e@,
        },
{
    serde_json::from_str::<serde_json::Value>(text).map_err(|e| e.to_string())
}

/// Tells the variants of `serde_json::Value` apart. `Number::as_u64` gives the
/// number where it is a non-negative integer below 2^64; a number is handed on
/// as it is beside that; the entries of an object come in the order of its map,
/// which holds no key twice.
#[verifier::external_body]
fn value_layer(v: serde_json::Value) -> (r: Layer)
    ensures
        layer_tree(r) == json_tree(v),
        r matches Layer::Number(_, _, same) ==> same == v,
        layer_tree(r) matches JsonV::Object(entries) ==> distinct_keys(entries),
{
    match v {
        serde_json::Value::Null => Layer::Null,
        serde_json::Value::Bool(b) => Layer::Bool(b),
        serde_json::Value::Number(n) => {
            Layer::Number(n.as_u64(), n.to_string(), serde_json::Value::Number(n))
        },
        serde_json::Value::String(s) => Layer::Text(s),
        serde_json::Value::Array(a) => Layer::Array(a),
        serde_json::Value::Object(m) => Layer::Object(m.into_iter().collect()),
    }
}

/// Builds a `serde_json::Value` from its outermost layer, where that is no
/// number. The map of an object keeps the entries, whose keys are distinct, in
/// their order.
#[verifier::external_body]
fn layer_value(l: Layer) -> (v: serde_json::Value)
    requires
        !(l is Number),
        layer_tree(l) matches JsonV::Object(entries) ==> distinct_keys(entries),
    ensures
        json_tree(v) == layer_tree(l),
{
    match l {
        Layer::Null => serde_json::Value::Null,
        Layer::Bool(b) => serde_json::Value::Bool(b),
        Layer::Number(_, _, v) => v,
        Layer::Text(s) => serde_json::Value::String(s),
        Layer::Array(a) => serde_json::Value::Array(a),
        Layer::Object(e) => serde_json::Value::Object(e.into_iter().collect()),
    }
}

/// `serde_json::Value::from` a `u64`: the number.
#[verifier::external_body]
fn number_value(n: u64) -> (v: serde_json::Value)
    ensures
        json_tree(v) == JsonV::Number(n),
{
    serde_json::Value::from(n)
}

/// `serde_json::Value::clone`: a value with the same tree.
#[verifier::external_body]
fn clone_value(v: &serde_json::Value) -> (r: serde_json::Value)
    ensures
        json_tree(r) == json_tree(*v),
{
    v.clone()
}

/// `serde_json::Value::to_string`: the compact text of the tree. It holds no
/// newline, for `serde_json` escapes the control characters of a string, and
/// it neither begins nor ends with white space. Read again, the text of a
/// value whose keys are distinct and whose numbers are integers below 2^64 gives
/// back the value; `serde_json` refuses to read what is nested 128 levels deep or
/// more, and does not promise to read a fraction back to its last digit.
#[verifier::external_body]
fn value_text(v: &serde_json::Value) -> (r: String)
    ensures
        r@ == json_text(json_tree(*v)),
        r@.len() > 0,
        !is_white_space(r@[0]),
        !is_white_space(r@.last()),
        forall|i: int| 0 <= i < r@.len() ==> r@[i] != '\n',
        plain(json_tree(*v), 100) ==> reads_as(r@, json_tree(*v)),
{
    v.to_string()
}

/// The indented text that `serde_json` writes for a tree.
pub uninterp spec fn json_pretty(j: JsonV) -> Seq<char>;

/// `serde_json::to_string_pretty` of a value, or the text of its error. A value
/// whose keys are all strings is written without an error.
#[verifier::external_body]
fn value_pretty(v: &serde_json::Value) -> (r: Result<String, String>)
    ensures
        r is Ok && r->Ok_0@ == json_pretty(json_tree(*v)),
{
    serde_json::to_string_pretty(v).map_err(|e| e.to_string())
}

/// The tree of a `serde_json::Value`, built layer by layer.
fn from_value(v: serde_json::Value) -> (r: Json)
    ensures
        r@ == json_tree(v),
        writable(r@),
    decreases json_tree(v),
{
    broadcast use {lemma_array_tree, lemma_object_tree};

    let ghost tree = json_tree(v);
    match value_layer(v) {
        Layer::Null => Json::Null,
        Layer::Bool(b) => Json::Bool(b),
        Layer::Number(n, text, value) => match n {
            Some(n) => Json::Number(n),
            None => Json::OtherNumber(OtherNumber { value, text }),
        },
        Layer::Text(s) => Json::Text(s),
        Layer::Array(a) => {
            let mut out: Vec<Json> = Vec::new();
            let ghost all = a@;
            for x in iter: a
                invariant
                    iter.seq() == all,
                    tree == JsonV::Array(Seq::new(all.len(), |i: int| json_tree(all[i]))),
                    tree == json_tree(v),
                    out@.len() == iter.index(),
                    forall|j: int|
                        0 <= j < iter.index() ==> (#[trigger] out@[j])@ == json_tree(all[j])
                            && writable(out@[j]@),
            {
                proof {
                    let s = tree->Array_0;
                    let k = iter.index();
                    assert(s[k] == json_tree(x));
                    assert(decreases_to!(tree => tree->Array_0));
                    assert(decreases_to!(s => s[k]));
                }
                let j = from_value(x);
                out.push(j);
            }
            assert(trees(out@) =~= tree->Array_0);
            proof {
                lemma_writable_array(trees(out@));
            }
            Json::Array(out)
        },
        Layer::Object(m) => {
            let mut out: Vec<(String, Json)> = Vec::new();
            let ghost all = m@;
            for x in iter: m
                invariant
                    iter.seq() == all,
                    tree == JsonV::Object(
                        Seq::new(all.len(), |i: int| (all[i].0@, json_tree(all[i].1))),
                    ),
                    tree == json_tree(v),
                    out@.len() == iter.index(),
                    forall|j: int|
                        0 <= j < iter.index() ==> (#[trigger] out@[j]).0@ == all[j].0@ && out@[j].1@
                            == json_tree(all[j].1) && writable(out@[j].1@),
            {
                proof {
                    let s = tree->Object_0;
                    let k = iter.index();
                    assert(s[k] == (x.0@, json_tree(x.1)));
                    assert(decreases_to!(tree => tree->Object_0));
                    assert(decreases_to!(s => s[k]));
                    assert(decreases_to!(s[k] => s[k].1));
                }
                let (key, value) = x;
                let j = from_value(value);
                out.push((key, j));
            }
            assert(entry_trees(out@) =~= tree->Object_0);
            proof {
                lemma_writable_object(entry_trees(out@));
            }
            Json::Object(out)
        },
    }
}

/// Decides whether the key of an entry occurs among the entries before it.
fn key_seen(v: &Vec<(String, Json)>, k: usize) -> (r: bool)
    requires
        k < v@.len(),
    ensures
        r == exists|i: int| 0 <= i < k && (#[trigger] v@[i]).0@ == v@[k as int].0@,
{
    let mut i: usize = 0;
    while i < k
        invariant
            i <= k < v@.len(),
            forall|j: int| 0 <= j < i ==> (#[trigger] v@[j]).0@ != v@[k as int].0@,
        decreases k - i,
    {
        if v[i].0 == v[k].0 {
            return true;
        }
        i = i + 1;
    }
    false
}

/// The `serde_json::Value` with the tree of a value, where it is writable.
fn to_value(j: &Json) -> (r: Option<serde_json::Value>)
    ensures
        match r {
            Some(v) => writable(j@) && json_tree(v) == j@,
            None => !writable(j@),
        },
    decreases j,
{
    broadcast use {lemma_array_tree, lemma_object_tree};

    match j {
        Json::Null => Some(layer_value(Layer::Null)),
        Json::Bool(b) => Some(layer_value(Layer::Bool(*b))),
        Json::Number(n) => Some(number_value(*n)),
        Json::OtherNumber(n) => Some(n.to_value()),
        Json::Text(s) => Some(layer_value(Layer::Text(s.clone()))),
        Json::Array(items) => {
            let mut out: Vec<serde_json::Value> = Vec::new();
            let mut i: usize = 0;
            while i < items.len()
                invariant
                    i <= items@.len(),
                    j == Json::Array(*items),
                    j@ == JsonV::Array(trees(items@)),
                    out@.len() == i,
                    forall|k: int|
                        0 <= k < i ==> json_tree(#[trigger] out@[k]) == items@[k]@ && writable(
                            items@[k]@,
                        ),
                decreases items@.len() - i,
            {
                assert(trees(items@)[i as int] == items@[i as int]@);
                match to_value(&items[i]) {
                    Some(v) => out.push(v),
                    None => {
                        proof {
                            lemma_writable_array(trees(items@));
                            assert(!writable(trees(items@)[i as int]));
                        }
                        return None;
                    },
                }
                i = i + 1;
            }
            let l = Layer::Array(out);
            proof {
                lemma_writable_array(trees(items@));
                assert(layer_tree(l)->Array_0 =~= trees(items@));
            }
            Some(layer_value(l))
        },
        Json::Object(entries) => {
            let mut out: Vec<(String, serde_json::Value)> = Vec::new();
            let mut i: usize = 0;
            let ghost all = entry_trees(entries@);
            while i < entries.len()
                invariant
                    i <= entries@.len(),
                    j == Json::Object(*entries),
                    all == entry_trees(entries@),
                    j@ == JsonV::Object(all),
                    out@.len() == i,
                    forall|k: int|
                        0 <= k < i ==> (#[trigger] out@[k]).0@ == entries@[k].0@ && json_tree(
                            out@[k].1,
                        ) == entries@[k].1@ && writable(entries@[k].1@),
                    forall|a: int, b: int|
                        0 <= a < b < i ==> (#[trigger] all[a]).0 != (#[trigger] all[b]).0,
                decreases entries@.len() - i,
            {
                assert(all[i as int] == (entries@[i as int].0@, entries@[i as int].1@));
                if key_seen(entries, i) {
                    proof {
                        let k = choose|k: int|
                            0 <= k < i && (#[trigger] entries@[k]).0@ == entries@[i as int].0@;
                        assert(all[k].0 == all[i as int].0);
                    }
                    return None;
                }
                proof {
                    assert forall|a: int| 0 <= a < i implies (#[trigger] all[a]).0
                        != all[i as int].0 by {
                        assert(all[a].0 == entries@[a].0@);
                    }
                }
                match to_value(&entries[i].1) {
                    Some(v) => out.push((entries[i].0.clone(), v)),
                    None => {
                        assert(!writable(all[i as int].1));
                        return None;
                    },
                }
                i = i + 1;
            }
            let l = Layer::Object(out);
            assert(layer_tree(l)->Object_0 =~= all);
            Some(layer_value(l))
        },
    }
}

impl Json {
    /// The tree of a `serde_json::Value`, which can be written again.
    pub fn from_value(v: serde_json::Value) -> (r: Json)
        ensures
            r@ == json_tree(v),
            writable(r@),
    {
        from_value(v)
    }

    /// Reads a value from its text; the error is the text of the error that
    /// `serde_json` reports. Where an object has a key twice, the last value
    /// under it counts. What has been read can be written again.
    pub fn parse(text: &str) -> (r: Result<Json, String>)
        ensures
            match r {
                Ok(j) => reads_as(text@, j@) && writable(j@),
                Err(e) => json_parse(text@) is Err && json_parse(text@)->Err_0 == e@,
            },
    {
        match read_value(text) {
            Ok(v) => Ok(from_value(v)),
            Err(e) => Err(e),
        }
    }

    /// Writes a value as compact text, where it is writable. The text is a
    /// single line without white space at its ends, and reading it gives the
    /// value back where its numbers are all integers below 2^64 and it is nested
    /// at most 100 levels deep.
    pub fn to_text(&self) -> (r: Option<String>)
        ensures
            match r {
                Some(s) => {
                    &&& writable(self@)
                    &&& s@ == json_text(self@)
                    &&& is_single_line(s@)
                    &&& plain(self@, 100) ==> reads_as(s@, self@)
                },
                None => !writable(self@),
            },
    {
        match to_value(self) {
            Some(v) => Some(value_text(&v)),
            None => None,
        }
    }
}

impl Json {
    /// Writes a value as indented text, where it is writable.
    pub fn to_pretty(&self) -> (r: Option<String>)
        ensures
            match r {
                Some(s) => writable(self@) && s@ == json_pretty(self@),
                None => !writable(self@),
            },
    {
        match to_value(self) {
            Some(v) => match value_pretty(&v) {
                Ok(s) => Some(s),
                Err(_) => None,
            },
            None => None,
        }
    }
}

/// The text is not empty, holds no newline, and neither begins nor ends with
/// white space.
pub open spec fn is_single_line(s: Seq<char>) -> bool {
    &&& s.len() > 0
    &&& !is_white_space(s[0])
    &&& !is_white_space(s.last())
    &&& forall|i: int| 0 <= i < s.len() ==> s[i] != '\n'
}

// ---------------------------------------------------------------------------
// What holds of values
// ---------------------------------------------------------------------------
proof fn lemma_lookup_at(entries: Seq<(Seq<char>, JsonV)>, key: Seq<char>, i: int)
    requires
        0 <= i <= entries.len(),
        forall|k: int| 0 <= k < i ==> (#[trigger] entries[k]).0 != key,
        i < entries.len() ==> entries[i].0 == key,
    ensures
        lookup(entries, key) == (if i < entries.len() {
            Some(entries[i].1)
        } else {
            None
        }),
    decreases entries.len(),
{
    if entries.len() > 0 && i > 0 {
        assert(entries[0].0 != key);
        let rest = entries.subrange(1, entries.len() as int);
        assert forall|k: int| 0 <= k < i - 1 implies (#[trigger] rest[k]).0 != key by {
            assert(rest[k] == entries[k + 1]);
        }
        lemma_lookup_at(rest, key, i - 1);
    }
}

/// The value under a key is that of the first entry with the key; where no entry
/// has it there is none, nor in anything but an object.
pub proof fn law_entries_are_found_by_key(j: JsonV, key: Seq<char>, i: int)
    ensures
        j matches JsonV::Object(entries) ==> {
            &&& 0 <= i < entries.len() && entries[i].0 == key && (forall|k: int|
                0 <= k < i ==> (#[trigger] entries[k]).0 != key) ==> j.get(key) == Some(
                entries[i].1,
            )
            &&& (forall|k: int| 0 <= k < entries.len() ==> (#[trigger] entries[k]).0 != key)
                ==> j.get(key) is None
        },
        !(j is Object) ==> j.get(key) is None,
{
    match j {
        JsonV::Object(entries) => {
            if 0 <= i < entries.len() && entries[i].0 == key && (forall|k: int|
                0 <= k < i ==> (#[trigger] entries[k]).0 != key) {
                lemma_lookup_at(entries, key, i);
            }
            if forall|k: int| 0 <= k < entries.len() ==> (#[trigger] entries[k]).0 != key {
                lemma_lookup_at(entries, key, entries.len() as int);
            }
        },
        _ => {},
    }
}

/// The value of an entry whose key no earlier entry has.
pub proof fn lemma_entry(entries: Seq<(Seq<char>, JsonV)>, i: int)
    requires
        0 <= i < entries.len(),
        forall|k: int| 0 <= k < i ==> (#[trigger] entries[k]).0 != entries[i].0,
    ensures
        JsonV::Object(entries).get(entries[i].0) == Some(entries[i].1),
{
    lemma_lookup_at(entries, entries[i].0, i);
}

/// The entries of one object behind those of another: the first ones win.
pub proof fn lemma_lookup_in_sum(
    a: Seq<(Seq<char>, JsonV)>,
    b: Seq<(Seq<char>, JsonV)>,
    key: Seq<char>,
)
    ensures
        lookup(a + b, key) == (match lookup(a, key) {
            Some(v) => Some(v),
            None => lookup(b, key),
        }),
    decreases a.len(),
{
    if a.len() == 0 {
        assert(a + b =~= b);
    } else if a[0].0 != key {
        let rest = a.subrange(1, a.len() as int);
        assert((a + b).subrange(1, (a + b).len() as int) =~= rest + b);
        assert((a + b)[0] == a[0]);
        lemma_lookup_in_sum(rest, b, key);
    } else {
        assert((a + b)[0] == a[0]);
    }
}

/// The first item is that of an array that has one; a text and a number are what
/// a string and a number hold, and nothing else has them.
pub proof fn law_values_are_what_they_hold(j: JsonV, items: Seq<JsonV>, s: Seq<char>, n: u64)
    ensures
        items.len() > 0 ==> JsonV::Array(items).first() == Some(items[0]),
        items.len() == 0 ==> JsonV::Array(items).first() is None,
        !(j is Array) ==> j.first() is None,
        JsonV::Text(s).text() == Some(s),
        !(j is Text) ==> j.text() is None,
        JsonV::Number(n).number() == Some(n),
        !(j is Number) ==> j.number() is None,
{
}

} // verus!
