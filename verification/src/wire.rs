//! Building JSON objects entry by entry, and reading the fields of an object.
use crate::json::{
    entry_trees, law_entries_are_found_by_key, lemma_array_tree, lemma_object_tree, trees, Json,
    JsonV,
};
use crate::text::{join3, view_opt, view_res, views};
use vstd::prelude::*;

verus! {

// ---------------------------------------------------------------------------
// Building
// ---------------------------------------------------------------------------
/// Adds an entry at the end of an object.
pub fn put(v: &mut Vec<(String, Json)>, key: &str, value: Json)
    ensures
        entry_trees(final(v)@) == entry_trees(old(v)@).push((key@, value@)),
{
    let ghost before = entry_trees(v@);
    v.push((key.to_owned(), value));
    assert(entry_trees(v@) =~= before.push((key@, value@)));
}

/// Adds an item at the end of an array.
pub fn put_item(v: &mut Vec<Json>, value: Json)
    ensures
        trees(final(v)@) == trees(old(v)@).push(value@),
{
    let ghost before = trees(v@);
    v.push(value);
    assert(trees(v@) =~= before.push(value@));
}

/// No entries yet.
pub fn no_entries() -> (v: Vec<(String, Json)>)
    ensures
        entry_trees(v@) == Seq::<(Seq<char>, JsonV)>::empty(),
{
    let v: Vec<(String, Json)> = Vec::new();
    assert(entry_trees(v@) =~= Seq::<(Seq<char>, JsonV)>::empty());
    v
}

/// No items yet.
pub fn no_items() -> (v: Vec<Json>)
    ensures
        trees(v@) == Seq::<JsonV>::empty(),
{
    let v: Vec<Json> = Vec::new();
    assert(trees(v@) =~= Seq::<JsonV>::empty());
    v
}

/// The object with the entries.
pub fn object(v: Vec<(String, Json)>) -> (r: Json)
    ensures
        r@ == JsonV::Object(entry_trees(v@)),
{
    broadcast use lemma_object_tree;

    Json::Object(v)
}

/// The array with the items.
pub fn array(v: Vec<Json>) -> (r: Json)
    ensures
        r@ == JsonV::Array(trees(v@)),
{
    broadcast use lemma_array_tree;

    Json::Array(v)
}

/// A JSON string.
pub fn text_json(s: &str) -> (r: Json)
    ensures
        r@ == JsonV::Text(s@),
{
    Json::Text(s.to_owned())
}

/// A string, or `null` where there is none.
pub open spec fn opt_text_json(o: Option<Seq<char>>) -> JsonV {
    match o {
        Some(s) => JsonV::Text(s),
        None => JsonV::Null,
    }
}

/// A JSON string, or `null` where there is none.
pub fn opt_json(o: &Option<String>) -> (r: Json)
    ensures
        r@ == opt_text_json(view_opt(*o)),
{
    match o {
        Some(s) => Json::Text(s.clone()),
        None => Json::Null,
    }
}

// ---------------------------------------------------------------------------
// Reading
// ---------------------------------------------------------------------------
/// The message for a field that an object lacks.
pub open spec fn missing(key: Seq<char>) -> Seq<char> {
    "missing field `"@ + key + "`"@
}

/// The message for a field that holds a value of another kind.
pub open spec fn mistyped(key: Seq<char>) -> Seq<char> {
    "invalid type for field `"@ + key + "`"@
}

fn missing_text(key: &str) -> (r: String)
    ensures
        r@ == missing(key@),
{
    join3("missing field `", key, "`")
}

/// The message for a field that holds a value of another kind.
pub fn mistyped_text(key: &str) -> (r: String)
    ensures
        r@ == mistyped(key@),
{
    join3("invalid type for field `", key, "`")
}

/// The message for a tag of no known kind.
pub open spec fn unknown_variant(tag: Seq<char>) -> Seq<char> {
    "unknown variant `"@ + tag + "`"@
}

/// The message for a tag of no known kind.
pub fn unknown_variant_text(tag: &str) -> (r: String)
    ensures
        r@ == unknown_variant(tag@),
{
    join3("unknown variant `", tag, "`")
}

/// A field that must be there.
pub open spec fn field(j: JsonV, key: Seq<char>) -> Result<JsonV, Seq<char>> {
    match j.get(key) {
        Some(v) => Ok(v),
        None => Err(missing(key)),
    }
}

/// A field that must hold a string.
pub open spec fn text_field(j: JsonV, key: Seq<char>) -> Result<Seq<char>, Seq<char>> {
    match j.get(key) {
        Some(JsonV::Text(s)) => Ok(s),
        Some(_) => Err(mistyped(key)),
        None => Err(missing(key)),
    }
}

/// A field that may hold a string, may be `null` and may be absent.
pub open spec fn opt_text_field(j: JsonV, key: Seq<char>) -> Result<Option<Seq<char>>, Seq<char>> {
    match j.get(key) {
        Some(JsonV::Text(s)) => Ok(Some(s)),
        Some(JsonV::Null) => Ok(None),
        Some(_) => Err(mistyped(key)),
        None => Ok(None),
    }
}

/// A field that must hold a number that fits in 32 bits.
pub open spec fn u32_field(j: JsonV, key: Seq<char>) -> Result<u32, Seq<char>> {
    match j.get(key) {
        Some(JsonV::Number(n)) => if n <= u32::MAX {
            Ok(n as u32)
        } else {
            Err(mistyped(key))
        },
        Some(_) => Err(mistyped(key)),
        None => Err(missing(key)),
    }
}

/// A field that must hold an array.
pub open spec fn array_field(j: JsonV, key: Seq<char>) -> Result<Seq<JsonV>, Seq<char>> {
    match j.get(key) {
        Some(JsonV::Array(items)) => Ok(items),
        Some(_) => Err(mistyped(key)),
        None => Err(missing(key)),
    }
}

/// The entries of an object of which the values stand in an array, in the order
/// of the keys.
pub open spec fn keyed(keys: Seq<Seq<char>>, items: Seq<JsonV>) -> Seq<(Seq<char>, JsonV)> {
    Seq::new(items.len(), |i: int| (keys[i], items[i]))
}

/// The object that stands for something with the given fields. An array may
/// stand in place of the object, with the values in the order of the fields; it
/// holds at least the first `least` of them.
pub open spec fn shaped(j: JsonV, keys: Seq<Seq<char>>, least: nat) -> Result<JsonV, Seq<char>> {
    match j {
        JsonV::Array(items) => if least <= items.len() <= keys.len() {
            Ok(JsonV::Object(keyed(keys, items)))
        } else {
            Err("invalid length"@)
        },
        _ => Ok(j),
    }
}

/// The field that tells of what kind something is: in an array, the first item.
pub open spec fn tag_field(j: JsonV, key: Seq<char>) -> Result<Seq<char>, Seq<char>> {
    match j {
        JsonV::Array(items) => if items.len() == 0 {
            Err(missing(key))
        } else {
            match items[0] {
                JsonV::Text(s) => Ok(s),
                _ => Err(mistyped(key)),
            }
        },
        _ => text_field(j, key),
    }
}

/// The object that stands for something with the given fields, where an array
/// stands in its place.
pub fn shape(j: &Json, keys: &Vec<&str>, least: usize) -> (r: Result<Option<Json>, String>)
    ensures
        match r {
            Ok(Some(o)) => shaped(j@, views(keys@), least as nat) == Ok::<JsonV, Seq<char>>(o@),
            Ok(None) => shaped(j@, views(keys@), least as nat) == Ok::<JsonV, Seq<char>>(j@),
            Err(e) => shaped(j@, views(keys@), least as nat) == Err::<JsonV, Seq<char>>(e@),
        },
{
    broadcast use {lemma_array_tree, lemma_object_tree};

    match j {
        Json::Array(items) => {
            if items.len() < least || keys.len() < items.len() {
                return Err("invalid length".to_owned());
            }
            let mut v = no_entries();
            let ghost all = keyed(views(keys@), trees(items@));
            let mut i: usize = 0;
            assert(all.subrange(0, 0) =~= Seq::<(Seq<char>, JsonV)>::empty());
            while i < items.len()
                invariant
                    i <= items@.len() <= keys@.len(),
                    all == keyed(views(keys@), trees(items@)),
                    entry_trees(v@) == all.subrange(0, i as int),
                decreases items@.len() - i,
            {
                put(&mut v, keys[i], items[i].clone());
                assert(all[i as int] == (keys@[i as int]@, items@[i as int]@));
                assert(all.subrange(0, i + 1) =~= all.subrange(0, i as int).push(all[i as int]));
                i = i + 1;
            }
            assert(all.subrange(0, i as int) =~= all);
            Ok(Some(object(v)))
        },
        _ => Ok(None),
    }
}

/// Reads the field that tells of what kind something is.
pub fn read_tag(j: &Json, key: &str) -> (r: Result<String, String>)
    ensures
        view_res(r) == tag_field(j@, key@),
{
    broadcast use lemma_array_tree;

    match j {
        Json::Array(items) => {
            if items.len() == 0 {
                return Err(missing_text(key));
            }
            assert(trees(items@)[0] == items@[0]@);
            match &items[0] {
                Json::Text(s) => Ok(s.clone()),
                _ => Err(mistyped_text(key)),
            }
        },
        _ => read_text(j, key),
    }
}

/// Reads a field that must be there.
pub fn read_field<'a>(j: &'a Json, key: &str) -> (r: Result<&'a Json, String>)
    ensures
        view_res(r) == field(j@, key@),
{
    match j.get(key) {
        Some(v) => Ok(v),
        None => Err(missing_text(key)),
    }
}

/// Reads a field that must hold a string.
pub fn read_text(j: &Json, key: &str) -> (r: Result<String, String>)
    ensures
        view_res(r) == text_field(j@, key@),
{
    match j.get(key) {
        Some(Json::Text(s)) => Ok(s.clone()),
        Some(_) => Err(mistyped_text(key)),
        None => Err(missing_text(key)),
    }
}

/// Reads a field that may hold a string.
pub fn read_opt_text(j: &Json, key: &str) -> (r: Result<Option<String>, String>)
    ensures
        match r {
            Ok(o) => opt_text_field(j@, key@) == Ok::<Option<Seq<char>>, Seq<char>>(view_opt(o)),
            Err(e) => opt_text_field(j@, key@) == Err::<Option<Seq<char>>, Seq<char>>(e@),
        },
{
    match j.get(key) {
        Some(Json::Text(s)) => Ok(Some(s.clone())),
        Some(Json::Null) => Ok(None),
        Some(_) => Err(mistyped_text(key)),
        None => Ok(None),
    }
}

/// Reads a field that must hold a number that fits in 32 bits.
pub fn read_u32(j: &Json, key: &str) -> (r: Result<u32, String>)
    ensures
        match r {
            Ok(n) => u32_field(j@, key@) == Ok::<u32, Seq<char>>(n),
            Err(e) => u32_field(j@, key@) == Err::<u32, Seq<char>>(e@),
        },
{
    match j.get(key) {
        Some(Json::Number(n)) => if *n <= u32::MAX as u64 {
            Ok(*n as u32)
        } else {
            Err(mistyped_text(key))
        },
        Some(_) => Err(mistyped_text(key)),
        None => Err(missing_text(key)),
    }
}

/// Reads a field that must hold an array.
pub fn read_array<'a>(j: &'a Json, key: &str) -> (r: Result<&'a Vec<Json>, String>)
    ensures
        match r {
            Ok(v) => array_field(j@, key@) == Ok::<Seq<JsonV>, Seq<char>>(trees(v@)),
            Err(e) => array_field(j@, key@) == Err::<Seq<JsonV>, Seq<char>>(e@),
        },
{
    broadcast use lemma_array_tree;

    match j.get(key) {
        Some(Json::Array(v)) => Ok(v),
        Some(_) => Err(mistyped_text(key)),
        None => Err(missing_text(key)),
    }
}

// ---------------------------------------------------------------------------
// What holds of fields
// ---------------------------------------------------------------------------
/// In an array that stands for an object, the values stand under the keys in
/// order, and those at the end may be missing; an array with too few or too many
/// values stands for nothing. Anything else stands for itself.
pub proof fn law_arrays_stand_for_objects(j: JsonV, keys: Seq<Seq<char>>, least: nat, i: int)
    requires
        forall|a: int, b: int|
            0 <= a < b < keys.len() ==> #[trigger] keys[a] != #[trigger] keys[b],
        0 <= i < keys.len(),
    ensures
        !(j is Array) ==> shaped(j, keys, least) == Ok::<JsonV, Seq<char>>(j),
        j matches JsonV::Array(items) ==> {
            &&& least <= items.len() <= keys.len() ==> (shaped(j, keys, least) matches Ok(o) && o
                is Object && o.get(keys[i]) == (if i < items.len() {
                Some(items[i])
            } else {
                None
            }))
            &&& !(least <= items.len() <= keys.len()) ==> shaped(j, keys, least) is Err
        },
{
    match j {
        JsonV::Array(items) => {
            if least <= items.len() <= keys.len() {
                let o = JsonV::Object(keyed(keys, items));
                law_entries_are_found_by_key(o, keys[i], i);
                assert forall|k: int| 0 <= k < items.len() && k != i implies (#[trigger] keyed(
                    keys,
                    items,
                )[k]).0 != keys[i] by {
                    assert(keyed(keys, items)[k].0 == keys[k]);
                    if k < i {
                        assert(keys[k] != keys[i]);
                    } else {
                        assert(keys[i] != keys[k]);
                    }
                }
            }
        },
        _ => {},
    }
}

/// A field holds what stands under its key. Where a string, a number of 32 bits
/// or an array is needed, anything else is refused, and so is a field that is not
/// there; where a string is optional, a field that is `null` or is not there gives
/// none. The message names the field.
pub proof fn law_fields_are_what_stands_under_the_key(j: JsonV, key: Seq<char>)
    ensures
        match j.get(key) {
            Some(v) => field(j, key) == Ok::<JsonV, Seq<char>>(v),
            None => field(j, key) == Err::<JsonV, Seq<char>>("missing field `"@ + key + "`"@),
        },
        match j.get(key) {
            Some(JsonV::Text(s)) => text_field(j, key) == Ok::<Seq<char>, Seq<char>>(s),
            Some(_) => text_field(j, key) == Err::<Seq<char>, Seq<char>>(
                "invalid type for field `"@ + key + "`"@,
            ),
            None => text_field(j, key) == Err::<Seq<char>, Seq<char>>(
                "missing field `"@ + key + "`"@,
            ),
        },
        match j.get(key) {
            Some(JsonV::Text(s)) => opt_text_field(j, key) == Ok::<
                Option<Seq<char>>,
                Seq<char>,
            >(Some(s)),
            Some(JsonV::Null) => opt_text_field(j, key) == Ok::<Option<Seq<char>>, Seq<char>>(None),
            Some(_) => opt_text_field(j, key) == Err::<Option<Seq<char>>, Seq<char>>(
                "invalid type for field `"@ + key + "`"@,
            ),
            None => opt_text_field(j, key) == Ok::<Option<Seq<char>>, Seq<char>>(None),
        },
        match j.get(key) {
            Some(JsonV::Number(n)) if n <= 0xffff_ffff => u32_field(j, key) == Ok::<u32, Seq<char>>(
                n as u32,
            ),
            Some(_) => u32_field(j, key) == Err::<u32, Seq<char>>(
                "invalid type for field `"@ + key + "`"@,
            ),
            None => u32_field(j, key) == Err::<u32, Seq<char>>("missing field `"@ + key + "`"@),
        },
        match j.get(key) {
            Some(JsonV::Array(items)) => array_field(j, key) == Ok::<Seq<JsonV>, Seq<char>>(items),
            Some(_) => array_field(j, key) == Err::<Seq<JsonV>, Seq<char>>(
                "invalid type for field `"@ + key + "`"@,
            ),
            None => array_field(j, key) == Err::<Seq<JsonV>, Seq<char>>(
                "missing field `"@ + key + "`"@,
            ),
        },
{
}

/// What something is stands in its tag: under the key in an object, and first in
/// an array.
pub proof fn law_tags_tell_the_kind(j: JsonV, key: Seq<char>, items: Seq<JsonV>, s: Seq<char>)
    ensures
        j is Object && j.get(key) == Some(JsonV::Text(s)) ==> tag_field(j, key) == Ok::<
            Seq<char>,
            Seq<char>,
        >(s),
        j is Object && !(j.get(key) matches Some(JsonV::Text(_))) ==> tag_field(j, key) is Err,
        items.len() > 0 && items[0] == JsonV::Text(s) ==> tag_field(JsonV::Array(items), key)
            == Ok::<Seq<char>, Seq<char>>(s),
        items.len() == 0 || !(items[0] is Text) ==> tag_field(JsonV::Array(items), key) is Err,
        !(j is Object) && !(j is Array) ==> tag_field(j, key) is Err,
        unknown_variant(s) == "unknown variant `"@ + s + "`"@,
{
}

/// The value stands in the field with the given place among the keys: under its
/// key in an object, and at its place in an array, which holds at least the first
/// fields and not more than there are keys.
pub open spec fn stands(j: JsonV, keys: Seq<Seq<char>>, least: nat, i: int, v: JsonV) -> bool {
    match j {
        JsonV::Object(_) => j.get(keys[i]) == Some(v),
        JsonV::Array(items) => least <= items.len() <= keys.len() && i < items.len() && items[i]
            == v,
        _ => false,
    }
}

/// Nothing, or `null`, stands in the field with the given place among the keys.
pub open spec fn is_blank(j: JsonV, keys: Seq<Seq<char>>, least: nat, i: int) -> bool {
    match j {
        JsonV::Object(_) => j.get(keys[i]) is None || j.get(keys[i]) == Some(JsonV::Null),
        JsonV::Array(items) => least <= items.len() <= keys.len() && (i >= items.len() || items[i]
            == JsonV::Null),
        _ => false,
    }
}

/// What stands in a field stands under its key in the object that is read.
pub proof fn lemma_stands(j: JsonV, keys: Seq<Seq<char>>, least: nat, i: int, v: JsonV)
    requires
        forall|a: int, b: int|
            0 <= a < b < keys.len() ==> #[trigger] keys[a] != #[trigger] keys[b],
        0 <= i < keys.len(),
    ensures
        stands(j, keys, least, i, v) ==> (shaped(j, keys, least) matches Ok(o) && o.get(keys[i])
            == Some(v)),
        is_blank(j, keys, least, i) ==> (shaped(j, keys, least) matches Ok(o) && (o.get(keys[i])
            is None || o.get(keys[i]) == Some(JsonV::Null))),
        j is Object ==> shaped(j, keys, least) == Ok::<JsonV, Seq<char>>(j),
{
    law_arrays_stand_for_objects(j, keys, least, i);
}

} // verus!
