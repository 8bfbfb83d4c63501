//! The JSON value model that the payload parser reads, and typed field access.
use vstd::prelude::*;
use crate::error::opt_view;
use crate::text::{decimal_of, parse_decimal, str_eq};

verus! {

/// A JSON value. Numbers keep their decimal text; object members are held in
/// the order the parser hands them over (serde_json sorts keys unless its
/// `preserve_order` feature is on), and lookups take the first member of a name.
#[derive(Debug)]
pub enum Json {
    Null,
    Bool(bool),
    Number(String),
    Str(String),
    Array(Vec<Json>),
    Object(Vec<(String, Json)>),
}

/// The value that serde_json reads from a JSON text, if the text is valid JSON.
pub uninterp spec fn json_of_text(s: Seq<char>) -> Option<Json>;

/// Relies on `serde_json::from_str` (into `serde_json::Value`): it parses a JSON
/// text, and the value depends on the text alone.
#[verifier::external_body]
pub(crate) fn parse_json(text: &str) -> (r: Option<Json>)
    ensures
        r == json_of_text(text@),
{
    match serde_json::from_str::<serde_json::Value>(text) {
        Ok(v) => Some(json_from_value(v)),
        Err(_) => None,
    }
}

/// A value as serde_json holds it.
#[verifier::external_type_specification]
#[verifier::external_body]
pub struct ExValue(serde_json::Value);

/// Turns a `serde_json::Value` into the library's model, variant for variant;
/// the conversion that `parse_json` applies to what serde_json returns.
#[verifier::external_body]
fn json_from_value(v: serde_json::Value) -> Json {
    match v {
        serde_json::Value::Null => Json::Null,
        serde_json::Value::Bool(b) => Json::Bool(b),
        serde_json::Value::Number(n) => Json::Number(n.to_string()),
        serde_json::Value::String(s) => Json::Str(s),
        serde_json::Value::Array(a) => Json::Array(a.into_iter().map(json_from_value).collect()),
        serde_json::Value::Object(o) => Json::Object(
            o.into_iter().map(|(k, x)| (k, json_from_value(x))).collect(),
        ),
    }
}

/// The first member named `key`.
pub open spec fn member(fields: Seq<(String, Json)>, key: Seq<char>) -> Option<Json>
    decreases fields.len(),
{
    if fields.len() == 0 {
        None
    } else if fields[0].0@ == key {
        Some(fields[0].1)
    } else {
        member(fields.drop_first(), key)
    }
}

/// The member `key` of an object; `None` for a missing member or a non-object.
pub open spec fn get(j: Json, key: Seq<char>) -> Option<Json> {
    match j {
        Json::Object(fields) => member(fields@, key),
        _ => None,
    }
}

/// Indexing by a key: `Null` where `get` finds nothing.
pub open spec fn index(j: Json, key: Seq<char>) -> Json {
    match get(j, key) {
        Some(v) => v,
        None => Json::Null,
    }
}

pub open spec fn or_null(o: Option<&Json>) -> Json {
    match o {
        Some(v) => *v,
        None => Json::Null,
    }
}

pub open spec fn as_text(j: Json) -> Option<Seq<char>> {
    match j {
        Json::Str(s) => Some(s@),
        _ => None,
    }
}

pub open spec fn is_text(j: Json, s: Seq<char>) -> bool {
    as_text(j) == Some(s)
}

pub open spec fn as_u64(j: Json) -> Option<u64> {
    match j {
        Json::Number(t) => decimal_of(t@),
        _ => None,
    }
}

pub open spec fn as_bool(j: Json) -> Option<bool> {
    match j {
        Json::Bool(b) => Some(b),
        _ => None,
    }
}

/// A required string member.
pub open spec fn req_text(j: Json, key: Seq<char>) -> Option<Seq<char>> {
    match get(j, key) {
        Some(v) => as_text(v),
        None => None,
    }
}

/// A required unsigned member.
pub open spec fn req_u64(j: Json, key: Seq<char>) -> Option<u64> {
    match get(j, key) {
        Some(v) => as_u64(v),
        None => None,
    }
}

/// A required boolean member.
pub open spec fn req_bool(j: Json, key: Seq<char>) -> Option<bool> {
    match get(j, key) {
        Some(v) => as_bool(v),
        None => None,
    }
}

/// A member that may be missing or null.
pub open spec fn present(j: Json, key: Seq<char>) -> Option<Json> {
    match get(j, key) {
        Some(Json::Null) => None,
        Some(v) => Some(v),
        None => None,
    }
}

/// An optional string member: `Some(None)` when missing or null, `None` when
/// it holds something other than a string.
pub open spec fn opt_text(j: Json, key: Seq<char>) -> Option<Option<Seq<char>>> {
    match present(j, key) {
        None => Some(None),
        Some(v) => match as_text(v) {
            Some(s) => Some(Some(s)),
            None => None,
        },
    }
}

/// An optional boolean member, read as `opt_text` reads strings.
pub open spec fn opt_bool(j: Json, key: Seq<char>) -> Option<Option<bool>> {
    match present(j, key) {
        None => Some(None),
        Some(v) => match as_bool(v) {
            Some(b) => Some(Some(b)),
            None => None,
        },
    }
}

/// The numbers of an array of unsigned numbers.
pub open spec fn u64_items(items: Seq<Json>) -> Option<Seq<u64>>
    decreases items.len(),
{
    if items.len() == 0 {
        Some(Seq::empty())
    } else {
        match (u64_items(items.drop_last()), as_u64(items.last())) {
            (Some(s), Some(n)) => Some(s.push(n)),
            _ => None,
        }
    }
}

/// A required member holding an array of unsigned numbers.
pub open spec fn req_u64_list(j: Json, key: Seq<char>) -> Option<Seq<u64>> {
    match get(j, key) {
        Some(Json::Array(items)) => u64_items(items@),
        _ => None,
    }
}

/// The member `key` of `j`.
pub fn get_field<'a>(j: &'a Json, key: &str) -> (r: Option<&'a Json>)
    ensures
        match r {
            Some(v) => get(*j, key@) == Some(*v),
            None => get(*j, key@) is None,
        },
{
    match j {
        Json::Object(fields) => {
            let mut i: usize = 0;
            assert(fields@.subrange(0, fields@.len() as int) =~= fields@);
            while i < fields.len()
                invariant
                    get(*j, key@) == member(fields@, key@),
                    i <= fields@.len(),
                    member(fields@, key@) == member(fields@.subrange(i as int, fields@.len() as int), key@),
                decreases fields.len() - i,
            {
                let ghost rest = fields@.subrange(i as int, fields@.len() as int);
                assert(rest.drop_first() =~= fields@.subrange(i + 1, fields@.len() as int));
                assert(rest[0] == fields@[i as int]);
                if str_eq(fields[i].0.as_str(), key) {
                    return Some(&fields[i].1);
                }
                i = i + 1;
            }
            None
        },
        _ => None,
    }
}

/// Indexing by a key, where `None` stands for `Null` both ways.
pub fn step<'a>(j: Option<&'a Json>, key: &str) -> (r: Option<&'a Json>)
    ensures
        or_null(r) == index(or_null(j), key@),
{
    match j {
        Some(v) => get_field(v, key),
        None => None,
    }
}

/// Whether the value is the string `s`.
pub fn text_is(j: Option<&Json>, s: &str) -> (r: bool)
    ensures
        r == is_text(or_null(j), s@),
{
    match j {
        Some(Json::Str(t)) => str_eq(t.as_str(), s),
        _ => false,
    }
}

/// The string a value holds.
pub fn text_of<'a>(j: Option<&'a Json>) -> (r: Option<&'a String>)
    ensures
        match r {
            Some(t) => as_text(or_null(j)) == Some(t@),
            None => as_text(or_null(j)) is None,
        },
{
    match j {
        Some(Json::Str(t)) => Some(t),
        _ => None,
    }
}

/// The unsigned number a value holds.
pub fn u64_of(j: &Json) -> (r: Option<u64>)
    ensures
        r == as_u64(*j),
{
    match j {
        Json::Number(t) => {
            let n = t.as_str().unicode_len();
            let r = parse_decimal(t.as_str(), 0, n);
            assert(t@.subrange(0, n as int) =~= t@);
            r
        },
        _ => None,
    }
}

/// A required string member, copied out.
pub fn req_text_field(j: &Json, key: &str) -> (r: Option<String>)
    ensures
        opt_view(r) == req_text(*j, key@),
{
    match get_field(j, key) {
        Some(Json::Str(t)) => Some(t.clone()),
        _ => None,
    }
}

/// A required unsigned member.
pub fn req_u64_field(j: &Json, key: &str) -> (r: Option<u64>)
    ensures
        r == req_u64(*j, key@),
{
    match get_field(j, key) {
        Some(v) => u64_of(v),
        None => None,
    }
}

/// A required boolean member.
pub fn req_bool_field(j: &Json, key: &str) -> (r: Option<bool>)
    ensures
        r == req_bool(*j, key@),
{
    match get_field(j, key) {
        Some(Json::Bool(b)) => Some(*b),
        _ => None,
    }
}

/// A member that may be missing or null.
pub fn present_field<'a>(j: &'a Json, key: &str) -> (r: Option<&'a Json>)
    ensures
        match r {
            Some(v) => present(*j, key@) == Some(*v),
            None => present(*j, key@) is None,
        },
{
    match get_field(j, key) {
        Some(Json::Null) => None,
        Some(v) => Some(v),
        None => None,
    }
}

/// An optional string member; `Err` when it holds something else.
pub fn opt_text_field(j: &Json, key: &str) -> (r: Result<Option<String>, ()>)
    ensures
        match r {
            Ok(o) => opt_text(*j, key@) == Some(opt_view(o)),
            Err(_) => opt_text(*j, key@) is None,
        },
{
    match present_field(j, key) {
        None => Ok(None),
        Some(Json::Str(t)) => Ok(Some(t.clone())),
        Some(_) => Err(()),
    }
}

/// An optional boolean member; `Err` when it holds something else.
pub fn opt_bool_field(j: &Json, key: &str) -> (r: Result<Option<bool>, ()>)
    ensures
        match r {
            Ok(o) => opt_bool(*j, key@) == Some(o),
            Err(_) => opt_bool(*j, key@) is None,
        },
{
    match present_field(j, key) {
        None => Ok(None),
        Some(Json::Bool(b)) => Ok(Some(*b)),
        Some(_) => Err(()),
    }
}

/// A required member holding an array of unsigned numbers.
pub fn req_u64_list_field(j: &Json, key: &str) -> (r: Option<Vec<u64>>)
    ensures
        match r {
            Some(v) => req_u64_list(*j, key@) == Some(v@),
            None => req_u64_list(*j, key@) is None,
        },
{
    match get_field(j, key) {
        Some(Json::Array(items)) => {
            let mut out: Vec<u64> = Vec::new();
            let mut i: usize = 0;
            while i < items.len()
                invariant
                    get(*j, key@) == Some(Json::Array(*items)),
                    i <= items@.len(),
                    u64_items(items@.subrange(0, i as int)) == Some(out@),
                decreases items.len() - i,
            {
                let ghost pre = items@.subrange(0, i as int + 1);
                assert(pre.drop_last() =~= items@.subrange(0, i as int));
                assert(pre.last() == items@[i as int]);
                match u64_of(&items[i]) {
                    Some(n) => out.push(n),
                    None => {
                        proof {
                            assert(u64_items(pre) is None);
                            lemma_u64_items_prefix(items@, i as int + 1);
                            assert(u64_items(items@) is None);
                        }
                        return None;
                    },
                }
                i = i + 1;
            }
            assert(items@.subrange(0, items@.len() as int) =~= items@);
            Some(out)
        },
        _ => None,
    }
}

/// A list that does not read as numbers in a prefix does not read as numbers.
pub proof fn lemma_u64_items_prefix(items: Seq<Json>, k: int)
    requires
        0 <= k <= items.len(),
        u64_items(items.subrange(0, k)) is None,
    ensures
        u64_items(items) is None,
    decreases items.len(),
{
    if k < items.len() {
        assert(items.drop_last().subrange(0, k) =~= items.subrange(0, k));
        lemma_u64_items_prefix(items.drop_last(), k);
    } else {
        assert(items.subrange(0, k) =~= items);
    }
}

} // verus!
