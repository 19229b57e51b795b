//! JSON texts of plain values, read and written by `serde_json`.

use crate::text::{opt_text, texts};
use vstd::prelude::*;

verus! {

/// The list of texts that a JSON text writes.
pub uninterp spec fn texts_of_json(json: Seq<char>) -> Option<Seq<Seq<char>>>;

/// The JSON text of a list of texts.
pub uninterp spec fn json_of_texts(list: Seq<Seq<char>>) -> Seq<char>;

/// The list of numbered texts that a JSON text writes.
pub uninterp spec fn pairs_of_json(json: Seq<char>) -> Option<Seq<(i64, Seq<char>)>>;

/// The JSON text of a list of numbered texts.
pub uninterp spec fn json_of_pairs(list: Seq<(i64, Seq<char>)>) -> Seq<char>;

/// The list of texts with unsigned numbers that a JSON text writes.
pub uninterp spec fn unsigned_pairs_of_json(json: Seq<char>) -> Option<Seq<(u64, Seq<char>)>>;

/// The JSON text of a list of texts with unsigned numbers.
pub uninterp spec fn json_of_unsigned_pairs(list: Seq<(u64, Seq<char>)>) -> Seq<char>;

/// The text that a JSON object holds under `key`: `None` where the text is no JSON, `Some(None)` where
/// it holds no text there.
pub uninterp spec fn json_field(json: Seq<char>, key: Seq<char>) -> Option<Option<Seq<char>>>;

/// The texts of a list of numbered strings.
pub open spec fn pairs(v: Seq<(i64, String)>) -> Seq<(i64, Seq<char>)> {
    Seq::new(v.len(), |i: int| (v[i].0, v[i].1@))
}

/// The texts of a list of strings with unsigned numbers.
pub open spec fn unsigned_pairs(v: Seq<(u64, String)>) -> Seq<(u64, Seq<char>)> {
    Seq::new(v.len(), |i: int| (v[i].0, v[i].1@))
}

/// The same list with its numbers taken as unsigned.
pub open spec fn as_unsigned(v: Seq<(i64, Seq<char>)>) -> Seq<(u64, Seq<char>)> {
    Seq::new(v.len(), |i: int| (v[i].0 as u64, v[i].1))
}

/// Calls `serde_json::from_str` for a list of strings. The result is named.
#[verifier::external_body]
pub(crate) fn read_texts(json: &str) -> (r: Option<Vec<String>>)
    ensures
        match r {
            Some(v) => texts_of_json(json@) == Some(texts(v@)),
            None => texts_of_json(json@) is None,
        },
{
    serde_json::from_str::<Vec<String>>(json).ok()
}

/// Calls `serde_json::to_string` on a list of strings, which has a JSON form whatever it holds. The
/// text is named, and reads back as the same list.
#[verifier::external_body]
pub(crate) fn write_texts(list: &Vec<String>) -> (r: String)
    ensures
        r@ == json_of_texts(texts(list@)),
        texts_of_json(r@) == Some(texts(list@)),
{
    serde_json::to_string(list).unwrap_or_default()
}

/// Calls `serde_json::from_str` for a list of numbered strings. The result is named.
#[verifier::external_body]
pub(crate) fn read_pairs(json: &str) -> (r: Option<Vec<(i64, String)>>)
    ensures
        match r {
            Some(v) => pairs_of_json(json@) == Some(pairs(v@)),
            None => pairs_of_json(json@) is None,
        },
{
    serde_json::from_str::<Vec<(i64, String)>>(json).ok()
}

/// Calls `serde_json::to_string` on a list of numbered strings, which has a JSON form whatever it
/// holds. The text is named, and reads back as the same list; where no number is negative, also as
/// a list with unsigned numbers.
#[verifier::external_body]
pub(crate) fn write_pairs(list: &Vec<(i64, String)>) -> (r: String)
    ensures
        r@ == json_of_pairs(pairs(list@)),
        pairs_of_json(r@) == Some(pairs(list@)),
        (forall|i: int| 0 <= i < list@.len() ==> (#[trigger] list@[i]).0 >= 0)
            ==> unsigned_pairs_of_json(r@) == Some(as_unsigned(pairs(list@))),
{
    serde_json::to_string(list).unwrap_or_default()
}

/// Calls `serde_json::from_str` for a list of strings with unsigned numbers. The result is named.
#[verifier::external_body]
pub(crate) fn read_unsigned_pairs(json: &str) -> (r: Option<Vec<(u64, String)>>)
    ensures
        match r {
            Some(v) => unsigned_pairs_of_json(json@) == Some(unsigned_pairs(v@)),
            None => unsigned_pairs_of_json(json@) is None,
        },
{
    serde_json::from_str::<Vec<(u64, String)>>(json).ok()
}

/// Calls `serde_json::to_string` on a list of strings with unsigned numbers, which has a JSON form
/// whatever it holds. The text is named, and reads back as the same list.
#[verifier::external_body]
pub(crate) fn write_unsigned_pairs(list: &Vec<(u64, String)>) -> (r: String)
    ensures
        r@ == json_of_unsigned_pairs(unsigned_pairs(list@)),
        unsigned_pairs_of_json(r@) == Some(unsigned_pairs(list@)),
{
    serde_json::to_string(list).unwrap_or_default()
}

/// Calls `serde_json::from_str` for any JSON value and takes the text under one key of it. The result
/// is named.
#[verifier::external_body]
pub(crate) fn read_field(json: &str, key: &str) -> (r: Option<Option<String>>)
    ensures
        match r {
            Some(f) => json_field(json@, key@) == Some(opt_text(f)),
            None => json_field(json@, key@) is None,
        },
{
    let value = serde_json::from_str::<serde_json::Value>(json).ok()?;
    Some(value.get(key).and_then(|v| v.as_str()).map(|s| s.to_string()))
}

/// The texts of optional texts.
pub open spec fn opt_texts(list: Seq<Option<String>>) -> Seq<Option<Seq<char>>> {
    Seq::new(list.len(), |i: int| opt_text(list[i]))
}

/// The texts of rows of optional texts.
pub open spec fn row_texts(rows: Seq<Vec<Option<String>>>) -> Seq<Seq<Option<Seq<char>>>> {
    Seq::new(rows.len(), |i: int| opt_texts(rows[i]@))
}

/// The items of the array under one key of a JSON value, each with its text if it is one. `None`
/// where the text is no JSON or holds no array there.
pub uninterp spec fn json_array(json: Seq<char>, key: Seq<char>) -> Option<Seq<Option<Seq<char>>>>;

/// Calls `serde_json::from_str` for any JSON value and takes the array under one key of it. The
/// result is named.
#[verifier::external_body]
pub(crate) fn read_array(json: &str, key: &str) -> (r: Option<Vec<Option<String>>>)
    ensures
        match r {
            Some(list) => json_array(json@, key@) == Some(opt_texts(list@)),
            None => json_array(json@, key@) is None,
        },
{
    let value = serde_json::from_str::<serde_json::Value>(json).ok()?;
    let list = value.get(key)?.as_array()?;
    Some(list.iter().map(|v| v.as_str().map(|s| s.to_string())).collect())
}

/// For each item of the array under one key of a JSON value, the texts under the given fields.
/// `None` where the text is no JSON or holds no array there.
pub uninterp spec fn json_rows(
    json: Seq<char>,
    key: Seq<char>,
    fields: Seq<Seq<char>>,
) -> Option<Seq<Seq<Option<Seq<char>>>>>;

/// Calls `serde_json::from_str` for any JSON value and takes the texts under the given fields of
/// each item of the array under one key of it. The result is named; each row has as many texts as
/// there are fields.
#[verifier::external_body]
pub(crate) fn read_rows(json: &str, key: &str, fields: &Vec<String>) -> (r: Option<
    Vec<Vec<Option<String>>>,
>)
    ensures
        match r {
            Some(rows) => {
                &&& json_rows(json@, key@, texts(fields@)) == Some(row_texts(rows@))
                &&& forall|i: int|
                    0 <= i < rows@.len() ==> (#[trigger] rows@[i])@.len() == fields@.len()
            },
            None => json_rows(json@, key@, texts(fields@)) is None,
        },
{
    let value = serde_json::from_str::<serde_json::Value>(json).ok()?;
    let list = value.get(key)?.as_array()?;
    let text = |v: &serde_json::Value, f: &String| {
        v.get(f.as_str()).and_then(|x| x.as_str()).map(|s| s.to_string())
    };
    Some(list.iter().map(|v| fields.iter().map(|f| text(v, f)).collect()).collect())
}

/// For each item of the array under one key of a JSON value, the bits of the number under a field,
/// as a 64-bit floating-point number. Empty where the text is no JSON or holds no array there.
pub uninterp spec fn json_numbers(json: Seq<char>, key: Seq<char>, field: Seq<char>) -> Seq<
    Option<u64>,
>;

/// Calls `serde_json::from_str` for any JSON value and takes the number under a field of each item
/// of the array under one key of it. The result is named.
#[verifier::external_body]
pub(crate) fn read_numbers(json: &str, key: &str, field: &str) -> (r: Vec<Option<u64>>)
    ensures
        r@ == json_numbers(json@, key@, field@),
{
    let value = serde_json::from_str::<serde_json::Value>(json).unwrap_or_default();
    let list = value.get(key).and_then(|v| v.as_array()).cloned().unwrap_or_default();
    list.iter().map(|v| v.get(field).and_then(|x| x.as_f64()).map(|x| x.to_bits())).collect()
}

/// The JSON text of an object with the given texts and lists of texts.
pub uninterp spec fn json_object(
    fields: Seq<(Seq<char>, Seq<char>)>,
    lists: Seq<(Seq<char>, Seq<Seq<char>>)>,
) -> Seq<char>;

/// Keys with a text each.
pub open spec fn field_texts(fields: Seq<(String, String)>) -> Seq<(Seq<char>, Seq<char>)> {
    Seq::new(fields.len(), |i: int| (fields[i].0@, fields[i].1@))
}

/// Keys with a list of texts each.
pub open spec fn list_texts(lists: Seq<(String, Vec<String>)>) -> Seq<(Seq<char>, Seq<Seq<char>>)> {
    Seq::new(lists.len(), |i: int| (lists[i].0@, texts(lists[i].1@)))
}

/// Whether no key of an object comes twice.
pub open spec fn distinct_fields(
    fields: Seq<(Seq<char>, Seq<char>)>,
    lists: Seq<(Seq<char>, Seq<Seq<char>>)>,
) -> bool {
    &&& forall|i: int, j: int|
        0 <= i < j < fields.len() ==> (#[trigger] fields[i]).0 != (#[trigger] fields[j]).0
    &&& forall|i: int, j: int|
        0 <= i < j < lists.len() ==> (#[trigger] lists[i]).0 != (#[trigger] lists[j]).0
    &&& forall|i: int, j: int|
        0 <= i < fields.len() && 0 <= j < lists.len() ==> (#[trigger] fields[i]).0 != (
        #[trigger] lists[j]).0
}

/// Calls `serde_json::Value::to_string` on an object with the given texts and lists of texts. The
/// text is named. Where no key comes twice, each text and each list reads back under its key, and
/// under another key there is nothing.
#[verifier::external_body]
pub(crate) fn write_object(
    fields: &Vec<(String, String)>,
    lists: &Vec<(String, Vec<String>)>,
) -> (r: String)
    ensures
        r@ == json_object(field_texts(fields@), list_texts(lists@)),
        distinct_fields(field_texts(fields@), list_texts(lists@)) ==> {
            &&& forall|i: int|
                0 <= i < fields@.len() ==> json_field(r@, (#[trigger] fields@[i]).0@) == Some(
                    Some(fields@[i].1@),
                )
            &&& forall|i: int|
                0 <= i < lists@.len() ==> json_array(r@, (#[trigger] lists@[i]).0@) == Some(
                    texts(lists@[i].1@).map_values(|t: Seq<char>| Some(t)),
                )
            &&& forall|k: Seq<char>|
                (forall|i: int| 0 <= i < fields@.len() ==> (#[trigger] fields@[i]).0@ != k) && (forall|
                    i: int,
                | 0 <= i < lists@.len() ==> (#[trigger] lists@[i]).0@ != k)
                    ==> #[trigger] json_field(r@, k) == Some(None::<Seq<char>>)
        },
{
    let text = |(k, v): &(String, String)| (k.clone(), serde_json::Value::from(v.clone()));
    let list = |(k, v): &(String, Vec<String>)| (k.clone(), serde_json::Value::from(v.clone()));
    let map = fields.iter().map(text).chain(lists.iter().map(list)).collect();
    serde_json::Value::Object(map).to_string()
}

/// The list of texts that an optional JSON text writes, empty where it writes none.
pub open spec fn texts_or_empty(json: Option<Seq<char>>) -> Seq<Seq<char>> {
    match json {
        Some(j) => match texts_of_json(j) {
            Some(v) => v,
            None => Seq::empty(),
        },
        None => Seq::empty(),
    }
}

/// The list of texts that an optional JSON text writes, empty where it writes none.
pub fn list_or_empty(json: &Option<String>) -> (r: Vec<String>)
    ensures
        texts(r@) == texts_or_empty(opt_text(*json)),
{
    match json {
        Some(j) => match read_texts(j.as_str()) {
            Some(v) => v,
            None => {
                let v: Vec<String> = Vec::new();
                assert(texts(v@) =~= Seq::<Seq<char>>::empty());
                v
            },
        },
        None => {
            let v: Vec<String> = Vec::new();
            assert(texts(v@) =~= Seq::<Seq<char>>::empty());
            v
        },
    }
}

/// The numbered texts that an optional JSON text writes, empty where it writes none.
pub open spec fn pairs_or_empty(json: Option<Seq<char>>) -> Seq<(i64, Seq<char>)> {
    match json {
        Some(j) => match pairs_of_json(j) {
            Some(v) => v,
            None => Seq::empty(),
        },
        None => Seq::empty(),
    }
}

/// The numbered texts that an optional JSON text writes, empty where it writes none.
pub fn pair_list_or_empty(json: &Option<String>) -> (r: Vec<(i64, String)>)
    ensures
        pairs(r@) == pairs_or_empty(opt_text(*json)),
{
    match json {
        Some(j) => match read_pairs(j.as_str()) {
            Some(v) => v,
            None => {
                let v: Vec<(i64, String)> = Vec::new();
                assert(pairs(v@) =~= Seq::<(i64, Seq<char>)>::empty());
                v
            },
        },
        None => {
            let v: Vec<(i64, String)> = Vec::new();
            assert(pairs(v@) =~= Seq::<(i64, Seq<char>)>::empty());
            v
        },
    }
}

/// The texts with unsigned numbers that an optional JSON text writes, empty where it writes none.
pub open spec fn unsigned_pairs_or_empty(json: Option<Seq<char>>) -> Seq<(u64, Seq<char>)> {
    match json {
        Some(j) => match unsigned_pairs_of_json(j) {
            Some(v) => v,
            None => Seq::empty(),
        },
        None => Seq::empty(),
    }
}

/// The texts with unsigned numbers that an optional JSON text writes, empty where it writes none.
pub fn unsigned_pair_list_or_empty(json: &Option<String>) -> (r: Vec<(u64, String)>)
    ensures
        unsigned_pairs(r@) == unsigned_pairs_or_empty(opt_text(*json)),
{
    match json {
        Some(j) => match read_unsigned_pairs(j.as_str()) {
            Some(v) => v,
            None => {
                let v: Vec<(u64, String)> = Vec::new();
                assert(unsigned_pairs(v@) =~= Seq::<(u64, Seq<char>)>::empty());
                v
            },
        },
        None => {
            let v: Vec<(u64, String)> = Vec::new();
            assert(unsigned_pairs(v@) =~= Seq::<(u64, Seq<char>)>::empty());
            v
        },
    }
}

} // verus!
