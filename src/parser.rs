//! Post graph parser: from one timeline payload to the post items it holds,
//! or to the classified reason why it holds none.
use vstd::prelude::*;
use std::collections::HashMap;
use crate::error::{Error, Fault};
use crate::json::{
    as_text, get, get_field, index, is_text, json_of_text, or_null, parse_json, req_text, step, text_is, text_of, Json,
};
use crate::post::TweetItem;
use crate::text::{contains_seq, decimal_digits, decimal_of, digit_char, str_contains, parse_decimal};

verus! {

broadcast use vstd::std_specs::hash::group_hash_axioms;

pub open spec fn suspended_phrase() -> Seq<char> {
    "这条推文来自一个已冻结的账号"@
}

pub open spec fn not_existed_phrase() -> Seq<char> {
    "这条推文来自一个已不存在的账号。"@
}

pub open spec fn adult_phrase() -> Seq<char> {
    "受年龄限制的成人内容。这些内容可能不适合 18 岁以下的用户。"@
}

pub open spec fn restricted_phrase() -> Seq<char> {
    "该账号所有者限制了可以查看其推文的用户。"@
}

pub open spec fn illegal_phrase() -> Seq<char> {
    "这条推文违反了当地法律，已被隐藏。"@
}

pub open spec fn unavailable_phrase() -> Seq<char> {
    "这条推文不可用。"@
}

pub open spec fn deleted_marker() -> Seq<char> {
    "_Missing: No status found with that ID."@
}

/// The terminal reason that a tombstone's text announces.
pub open spec fn tombstone_fault(text: Seq<char>) -> Fault {
    if contains_seq(text, suspended_phrase()) {
        Fault::AccountSuspended
    } else if contains_seq(text, adult_phrase()) {
        Fault::AdultContent
    } else if contains_seq(text, restricted_phrase()) {
        Fault::Restricted
    } else if contains_seq(text, not_existed_phrase()) {
        Fault::AccountNotExisted
    } else if contains_seq(text, illegal_phrase()) {
        Fault::IllegalBan
    } else if contains_seq(text, unavailable_phrase()) {
        Fault::NotExists
    } else {
        Fault::Unknown(text)
    }
}

pub open spec fn text_or_empty(j: Json) -> Seq<char> {
    match as_text(j) {
        Some(s) => s,
        None => Seq::empty(),
    }
}

pub open spec fn kind_is(j: Json, name: Seq<char>) -> bool {
    is_text(index(j, "__typename"@), name)
}

pub open spec fn is_upper(c: char) -> bool {
    'A' <= c && c <= 'Z'
}

pub open spec fn same_ignoring_case(a: char, b: char) -> bool {
    a == b || (is_upper(a) && (a as u32) + 32 == (b as u32)) || (is_upper(b) && (b as u32) + 32
        == (a as u32))
}

pub open spec fn equal_ignoring_case(a: Seq<char>, b: Seq<char>) -> bool {
    a.len() == b.len() && forall|i: int| 0 <= i < a.len() ==> same_ignoring_case(#[trigger] a[i], b[i])
}

/// The entry id names the requested post: `tweet-<id>`, ignoring ASCII case.
pub open spec fn names_post(entry_id: Json, id: u64) -> bool {
    match entry_id {
        Json::Str(s) => equal_ignoring_case(s@, "tweet-"@ + decimal_digits(id as nat)),
        _ => false,
    }
}

/// A tweet result, with one level of visibility wrapping removed, and whether
/// it was wrapped.
pub open spec fn unwrap_visibility(r: Json) -> (Json, bool) {
    if kind_is(r, "TweetWithVisibilityResults"@) {
        (index(r, "tweet"@), true)
    } else {
        (r, false)
    }
}

/// A post item: its numeric id and the item itself.
pub open spec fn tweet_pair(t: Json) -> Result<Seq<(u64, Json)>, Fault> {
    if !TweetItem::decodable(t) {
        Err(Fault::SchemaInvalid)
    } else {
        match decimal_of(req_text(t, "rest_id"@).unwrap()) {
            Some(n) => Ok(seq![(n, t)]),
            None => Err(Fault::SchemaInvalid),
        }
    }
}

pub open spec fn tweet_result(content: Json) -> Json {
    index(index(index(content, "itemContent"@), "tweet_results"@), "result"@)
}

/// What a single-item entry contributes: a tweet is kept; a tombstone for the
/// requested post fails with the reason its text names; any other item is
/// skipped unless it was visibility-wrapped, which is a schema error.
pub open spec fn single_outcome(id: u64, entry: Json, content: Json) -> Result<
    Seq<(u64, Json)>,
    Fault,
> {
    let (t, nested) = unwrap_visibility(tweet_result(content));
    if kind_is(t, "Tweet"@) {
        tweet_pair(t)
    } else if kind_is(t, "TweetTombstone"@) && names_post(index(entry, "entryId"@), id) {
        let ts = index(t, "tombstone"@);
        if !(ts is Object) {
            Err(Fault::SchemaInvalid)
        } else if !kind_is(ts, "TextTombstone"@) {
            Err(Fault::Unknown("Tombstone type unknown."@))
        } else {
            Err(tombstone_fault(text_or_empty(index(index(ts, "text"@), "text"@))))
        }
    } else if nested {
        Err(Fault::SchemaInvalid)
    } else {
        Ok(Seq::empty())
    }
}

/// What one item of a module entry contributes.
pub open spec fn module_item_outcome(item: Json) -> Result<Seq<(u64, Json)>, Fault> {
    let (t, nested) = unwrap_visibility(tweet_result(index(item, "item"@)));
    if kind_is(t, "Tweet"@) {
        tweet_pair(t)
    } else if nested {
        Err(Fault::SchemaInvalid)
    } else {
        Ok(Seq::empty())
    }
}

pub open spec fn items_outcome(items: Seq<Json>) -> Result<Seq<(u64, Json)>, Fault>
    decreases items.len(),
{
    if items.len() == 0 {
        Ok(Seq::empty())
    } else {
        match items_outcome(items.drop_last()) {
            Err(f) => Err(f),
            Ok(acc) => match module_item_outcome(items.last()) {
                Err(f) => Err(f),
                Ok(x) => Ok(acc + x),
            },
        }
    }
}

pub open spec fn unimplemented_text(entry_type: Json) -> Seq<char> {
    "Entry Type handler for "@ + match as_text(entry_type) {
        Some(s) => s,
        None => "unknown"@,
    }
}

/// What one timeline entry contributes.
pub open spec fn entry_outcome(id: u64, entry: Json) -> Result<Seq<(u64, Json)>, Fault> {
    if !(entry is Object) {
        Err(Fault::SchemaInvalid)
    } else {
        let content = index(entry, "content"@);
        if !(content is Object) {
            Err(Fault::SchemaInvalid)
        } else {
            let et = index(content, "entryType"@);
            if is_text(et, "TimelineTimelineItem"@) {
                single_outcome(id, entry, content)
            } else if is_text(et, "TimelineTimelineModule"@) {
                match index(content, "items"@) {
                    Json::Array(items) => items_outcome(items@),
                    _ => Ok(Seq::empty()),
                }
            } else {
                Err(Fault::Unimplemented(unimplemented_text(et)))
            }
        }
    }
}

pub open spec fn entries_outcome(id: u64, entries: Seq<Json>) -> Result<Seq<(u64, Json)>, Fault>
    decreases entries.len(),
{
    if entries.len() == 0 {
        Ok(Seq::empty())
    } else {
        match entries_outcome(id, entries.drop_last()) {
            Err(f) => Err(f),
            Ok(acc) => match entry_outcome(id, entries.last()) {
                Err(f) => Err(f),
                Ok(x) => Ok(acc + x),
            },
        }
    }
}

/// The items keyed by id; a later item replaces an earlier one with the same id.
pub open spec fn map_of(pairs: Seq<(u64, Json)>) -> Map<u64, Json>
    decreases pairs.len(),
{
    if pairs.len() == 0 {
        Map::empty()
    } else {
        map_of(pairs.drop_last()).insert(pairs.last().0, pairs.last().1)
    }
}

pub open spec fn message_text(e: Json) -> Seq<char> {
    text_or_empty(index(e, "message"@))
}

pub open spec fn reports_deleted(errors: Seq<Json>) -> bool {
    exists|i: int| 0 <= i < errors.len() && contains_seq(message_text(#[trigger] errors[i]), deleted_marker())
}

pub open spec fn instructions_of(root: Json) -> Json {
    index(index(index(root, "data"@), "threaded_conversation_with_injections_v2"@), "instructions"@)
}

pub open spec fn is_add_entries(i: Json) -> bool {
    i is Object && is_text(index(i, "type"@), "TimelineAddEntries"@)
}

/// The instructions that add timeline entries.
pub open spec fn add_entries(instrs: Seq<Json>) -> Seq<Json>
    decreases instrs.len(),
{
    if instrs.len() == 0 {
        Seq::empty()
    } else if is_add_entries(instrs.last()) {
        add_entries(instrs.drop_last()).push(instrs.last())
    } else {
        add_entries(instrs.drop_last())
    }
}

/// The items keyed by id, provided the requested post is among them.
pub open spec fn keyed_outcome(id: u64, o: Result<Seq<(u64, Json)>, Fault>) -> Result<Map<u64, Json>, Fault> {
    match o {
        Err(f) => Err(f),
        Ok(pairs) => if map_of(pairs).contains_key(id) {
            Ok(map_of(pairs))
        } else {
            Err(Fault::SchemaInvalid)
        },
    }
}

/// The post items of a payload fetched for post `id`, keyed by their ids, or
/// the classified reason why the payload yields none.
pub open spec fn payload_outcome(id: u64, root: Json) -> Result<Map<u64, Json>, Fault> {
    if !(root is Object) {
        Err(Fault::SchemaInvalid)
    } else if get(root, "errors"@) is Some && !(index(root, "errors"@) is Array) {
        Err(Fault::SchemaInvalid)
    } else if index(root, "errors"@) matches Json::Array(errs) && reports_deleted(errs@) {
        Err(Fault::NotExists)
    } else {
        match instructions_of(root) {
            Json::Array(instrs) => {
                let adds = add_entries(instrs@);
                if adds.len() == 0 {
                    Err(Fault::SchemaInvalid)
                } else if adds.len() > 1 {
                    Err(Fault::Todo("Timelime Add Entries more than once."@))
                } else {
                    match index(adds[0], "entries"@) {
                        Json::Array(entries) => keyed_outcome(id, entries_outcome(id, entries@)),
                        _ => Err(Fault::SchemaInvalid),
                    }
                }
            },
            _ => Err(Fault::SchemaInvalid),
        }
    }
}

/// The parsed items stand for the JSON items with the same ids.
pub open spec fn maps_agree(m: Map<u64, TweetItem>, mj: Map<u64, Json>) -> bool {
    &&& m.dom() == mj.dom()
    &&& forall|k: u64| #[trigger] mj.contains_key(k) ==> m[k].decoded_from(mj[k])
    &&& forall|k: u64| #[trigger] m.contains_key(k) ==> decimal_of(m[k].rest_id@) == Some(k)
}

fn schema_error() -> (e: Error)
    ensures
        e.fault() == Fault::SchemaInvalid,
{
    Error::TweetJsonSchemaInvalid
}

/// The error a tombstone's text announces.
pub fn tombstone_error(text: &str) -> (e: Error)
    ensures
        e.fault() == tombstone_fault(text@),
{
    if str_contains(text, "这条推文来自一个已冻结的账号") {
        Error::TwitterAccountSuspended
    } else if str_contains(text, "受年龄限制的成人内容。这些内容可能不适合 18 岁以下的用户。") {
        Error::TweetAdultContent
    } else if str_contains(text, "该账号所有者限制了可以查看其推文的用户。") {
        Error::TweetRestricted
    } else if str_contains(text, "这条推文来自一个已不存在的账号。") {
        Error::TwitterAccountNotExisted
    } else if str_contains(text, "这条推文违反了当地法律，已被隐藏。") {
        Error::TweetIllegalBan
    } else if str_contains(text, "这条推文不可用。") {
        Error::TweetNotExists
    } else {
        Error::TweetUnknownError(String::from_str(text))
    }
}

fn digit(n: u64) -> (c: char)
    requires
        n < 10,
    ensures
        c == digit_char(n as nat),
{
    if n == 0 {
        '0'
    } else if n == 1 {
        '1'
    } else if n == 2 {
        '2'
    } else if n == 3 {
        '3'
    } else if n == 4 {
        '4'
    } else if n == 5 {
        '5'
    } else if n == 6 {
        '6'
    } else if n == 7 {
        '7'
    } else if n == 8 {
        '8'
    } else {
        '9'
    }
}

/// The decimal digits of `n`.
pub fn decimal_chars(n: u64) -> (r: Vec<char>)
    ensures
        r@ == decimal_digits(n as nat),
    decreases n,
{
    if n < 10 {
        let v = vec![digit(n)];
        assert(v@ =~= seq![digit_char(n as nat)]);
        v
    } else {
        let mut v = decimal_chars(n / 10);
        v.push(digit(n % 10));
        v
    }
}

fn same_char_ignoring_case(a: char, b: char) -> (r: bool)
    ensures
        r == same_ignoring_case(a, b),
{
    a == b || ('A' <= a && a <= 'Z' && (a as u32) + 32 == (b as u32)) || ('A' <= b && b <= 'Z' && (
    b as u32) + 32 == (a as u32))
}

/// Whether an entry id names post `id`.
pub fn entry_names_post(entry_id: Option<&Json>, id: u64) -> (r: bool)
    ensures
        r == names_post(or_null(entry_id), id),
{
    match entry_id {
        Some(Json::Str(s)) => {
            let s = s.as_str();
            let prefix = "tweet-";
            let digits = decimal_chars(id);
            let plen = prefix.unicode_len();
            let slen = s.unicode_len();
            let ghost target = prefix@ + digits@;
            assert(prefix@ == "tweet-"@);
            assert(target.len() == plen + digits@.len());
            if slen < plen || slen - plen != digits.len() {
                return false;
            }
            let mut k: usize = 0;
            assert(names_post(or_null(entry_id), id) == equal_ignoring_case(s@, target));
            while k < slen
                invariant
                    names_post(or_null(entry_id), id) == equal_ignoring_case(s@, target),
                    slen == s@.len(),
                    plen == prefix@.len(),
                    target == prefix@ + digits@,
                    slen == target.len(),
                    k <= slen,
                    forall|i: int| 0 <= i < k ==> same_ignoring_case(#[trigger] s@[i], target[i]),
                decreases slen - k,
            {
                let c = if k < plen {
                    prefix.get_char(k)
                } else {
                    digits[k - plen]
                };
                assert(c == target[k as int]);
                if !same_char_ignoring_case(s.get_char(k), c) {
                    assert(!same_ignoring_case(s@[k as int], target[k as int]));
                    return false;
                }
                k = k + 1;
            }
            assert(equal_ignoring_case(s@, target));
            true
        },
        _ => false,
    }
}

/// Adds the post item `t` under its id.
fn take_tweet(t: Option<&Json>, tweets: &mut HashMap<u64, TweetItem>, Ghost(pairs): Ghost<
    Seq<(u64, Json)>,
>) -> (r: Result<(), Error>)
    requires
        maps_agree(old(tweets)@, map_of(pairs)),
    ensures
        match tweet_pair(or_null(t)) {
            Ok(x) => r is Ok && maps_agree(final(tweets)@, map_of(pairs + x)),
            Err(f) => r matches Err(e) && e.fault() == f,
        },
{
    let j = match t {
        Some(j) => j,
        None => return Err(schema_error()),
    };
    let item = match TweetItem::from_json(j) {
        Some(item) => item,
        None => return Err(schema_error()),
    };
    let n = {
        let rid = item.rest_id.as_str();
        let len = rid.unicode_len();
        let n = parse_decimal(rid, 0, len);
        assert(rid@.subrange(0, len as int) =~= rid@);
        assert(req_text(*j, "rest_id"@) == Some(rid@));
        match n {
            Some(n) => n,
            None => return Err(schema_error()),
        }
    };
    let ghost x = seq![(n, *j)];
    tweets.insert(n, item);
    proof {
        assert((pairs + x).drop_last() =~= pairs);
        assert(map_of(pairs + x) == map_of(pairs).insert(n, *j));
        assert(final(tweets)@.dom() =~= map_of(pairs + x).dom());
    }
    Ok(())
}

/// Handles a single-item entry.
fn single_entry(
    id: u64,
    entry: &Json,
    content: &Json,
    tweets: &mut HashMap<u64, TweetItem>,
    Ghost(pairs): Ghost<Seq<(u64, Json)>>,
) -> (r: Result<(), Error>)
    requires
        maps_agree(old(tweets)@, map_of(pairs)),
    ensures
        match single_outcome(id, *entry, *content) {
            Ok(x) => r is Ok && maps_agree(final(tweets)@, map_of(pairs + x)),
            Err(f) => r matches Err(e) && e.fault() == f,
        },
{
    let res = step(step(step(Some(content), "itemContent"), "tweet_results"), "result");
    let wrapped = text_is(step(res, "__typename"), "TweetWithVisibilityResults");
    let t = if wrapped {
        step(res, "tweet")
    } else {
        res
    };
    if text_is(step(t, "__typename"), "Tweet") {
        return take_tweet(t, tweets, Ghost(pairs));
    }
    if text_is(step(t, "__typename"), "TweetTombstone") && entry_names_post(step(Some(entry), "entryId"), id) {
        let ts = step(t, "tombstone");
        match ts {
            Some(Json::Object(_)) => {},
            _ => return Err(schema_error()),
        }
        if !text_is(step(ts, "__typename"), "TextTombstone") {
            return Err(Error::TweetUnknownError(String::from_str("Tombstone type unknown.")));
        }
        let err = match text_of(step(step(ts, "text"), "text")) {
            Some(s) => tombstone_error(s.as_str()),
            None => {
                let empty = String::new();
                tombstone_error(empty.as_str())
            },
        };
        return Err(err);
    }
    if wrapped {
        Err(schema_error())
    } else {
        assert(pairs + Seq::<(u64, Json)>::empty() =~= pairs);
        Ok(())
    }
}

/// Handles the items of a module entry.
fn module_entry(
    items: &Vec<Json>,
    tweets: &mut HashMap<u64, TweetItem>,
    Ghost(pairs): Ghost<Seq<(u64, Json)>>,
) -> (r: Result<(), Error>)
    requires
        maps_agree(old(tweets)@, map_of(pairs)),
    ensures
        match items_outcome(items@) {
            Ok(x) => r is Ok && maps_agree(final(tweets)@, map_of(pairs + x)),
            Err(f) => r matches Err(e) && e.fault() == f,
        },
{
    let ghost mut acc: Seq<(u64, Json)> = Seq::empty();
    let mut k: usize = 0;
    assert(pairs + acc =~= pairs);
    while k < items.len()
        invariant
            k <= items@.len(),
            items_outcome(items@.subrange(0, k as int)) == Ok::<Seq<(u64, Json)>, Fault>(acc),
            maps_agree(tweets@, map_of(pairs + acc)),
        decreases items.len() - k,
    {
        let ghost pre = items@.subrange(0, k as int + 1);
        assert(pre.drop_last() =~= items@.subrange(0, k as int));
        assert(pre.last() == items@[k as int]);
        let res = step(
            step(step(step(Some(&items[k]), "item"), "itemContent"), "tweet_results"),
            "result",
        );
        let wrapped = text_is(step(res, "__typename"), "TweetWithVisibilityResults");
        let t = if wrapped {
            step(res, "tweet")
        } else {
            res
        };
        if text_is(step(t, "__typename"), "Tweet") {
            let ghost before = pairs + acc;
            match take_tweet(t, tweets, Ghost(before)) {
                Ok(()) => {
                    proof {
                        let x = tweet_pair(or_null(t))->Ok_0;
                        assert(before + x =~= pairs + (acc + x));
                        acc = acc + x;
                    }
                },
                Err(e) => {
                    proof {
                        lemma_items_outcome_prefix(items@, k as int + 1);
                    }
                    return Err(e);
                },
            }
        } else if wrapped {
            proof {
                lemma_items_outcome_prefix(items@, k as int + 1);
            }
            return Err(schema_error());
        } else {
            assert(acc + Seq::<(u64, Json)>::empty() =~= acc);
        }
        k = k + 1;
    }
    assert(items@.subrange(0, items@.len() as int) =~= items@);
    Ok(())
}

/// A failure on a prefix of the items is the failure of all of them.
pub proof fn lemma_items_outcome_prefix(items: Seq<Json>, k: int)
    requires
        0 <= k <= items.len(),
        items_outcome(items.subrange(0, k)) is Err,
    ensures
        items_outcome(items) == items_outcome(items.subrange(0, k)),
    decreases items.len(),
{
    if k < items.len() {
        assert(items.drop_last().subrange(0, k) =~= items.subrange(0, k));
        lemma_items_outcome_prefix(items.drop_last(), k);
    } else {
        assert(items.subrange(0, k) =~= items);
    }
}

/// A failure on a prefix of the entries is the failure of all of them.
pub proof fn lemma_entries_outcome_prefix(id: u64, entries: Seq<Json>, k: int)
    requires
        0 <= k <= entries.len(),
        entries_outcome(id, entries.subrange(0, k)) is Err,
    ensures
        entries_outcome(id, entries) == entries_outcome(id, entries.subrange(0, k)),
    decreases entries.len(),
{
    if k < entries.len() {
        assert(entries.drop_last().subrange(0, k) =~= entries.subrange(0, k));
        lemma_entries_outcome_prefix(id, entries.drop_last(), k);
    } else {
        assert(entries.subrange(0, k) =~= entries);
    }
}

/// Handles one timeline entry.
fn take_entry(
    id: u64,
    entry: &Json,
    tweets: &mut HashMap<u64, TweetItem>,
    Ghost(pairs): Ghost<Seq<(u64, Json)>>,
) -> (r: Result<(), Error>)
    requires
        maps_agree(old(tweets)@, map_of(pairs)),
    ensures
        match entry_outcome(id, *entry) {
            Ok(x) => r is Ok && maps_agree(final(tweets)@, map_of(pairs + x)),
            Err(f) => r matches Err(e) && e.fault() == f,
        },
{
    match entry {
        Json::Object(_) => {},
        _ => return Err(schema_error()),
    }
    let content = match get_field_obj(entry, "content") {
        Some(c) => c,
        None => return Err(schema_error()),
    };
    let et = step(Some(content), "entryType");
    if text_is(et, "TimelineTimelineItem") {
        single_entry(id, entry, content, tweets, Ghost(pairs))
    } else if text_is(et, "TimelineTimelineModule") {
        match step(Some(content), "items") {
            Some(Json::Array(items)) => module_entry(items, tweets, Ghost(pairs)),
            _ => {
                assert(pairs + Seq::<(u64, Json)>::empty() =~= pairs);
                Ok(())
            },
        }
    } else {
        let mut msg = String::from_str("Entry Type handler for ");
        match text_of(et) {
            Some(s) => msg.append(s.as_str()),
            None => msg.append("unknown"),
        }
        Err(Error::Unimplemented(msg))
    }
}

/// The member `key` of `j` when it is an object.
fn get_field_obj<'a>(j: &'a Json, key: &str) -> (r: Option<&'a Json>)
    ensures
        match r {
            Some(v) => index(*j, key@) == *v && v is Object,
            None => !(index(*j, key@) is Object),
        },
{
    match step(Some(j), key) {
        Some(v) => match v {
            Json::Object(_) => Some(v),
            _ => None,
        },
        None => None,
    }
}

/// Whether any error message reports the post as deleted.
fn any_deleted(errors: &Vec<Json>) -> (r: bool)
    ensures
        r == reports_deleted(errors@),
{
    let mut i: usize = 0;
    while i < errors.len()
        invariant
            i <= errors@.len(),
            forall|k: int| 0 <= k < i ==> !contains_seq(message_text(#[trigger] errors@[k]), deleted_marker()),
        decreases errors.len() - i,
    {
        let found = match text_of(step(Some(&errors[i]), "message")) {
            Some(s) => str_contains(s.as_str(), "_Missing: No status found with that ID."),
            None => {
                let empty = String::new();
                str_contains(empty.as_str(), "_Missing: No status found with that ID.")
            },
        };
        if found {
            return true;
        }
        i = i + 1;
    }
    false
}

/// The only instruction that adds entries, or how many there are.
fn single_add_entries(instrs: &Vec<Json>) -> (r: Result<&Json, usize>)
    ensures
        match r {
            Ok(j) => add_entries(instrs@).len() == 1 && add_entries(instrs@)[0] == *j,
            Err(n) => n == add_entries(instrs@).len() && n != 1,
        },
{
    let mut count: usize = 0;
    let mut first: usize = 0;
    let mut i: usize = 0;
    while i < instrs.len()
        invariant
            i <= instrs@.len(),
            count == add_entries(instrs@.subrange(0, i as int)).len(),
            count <= i,
            count >= 1 ==> first < i && add_entries(instrs@.subrange(0, i as int))[0] == instrs@[first as int],
        decreases instrs.len() - i,
    {
        let ghost pre = instrs@.subrange(0, i as int + 1);
        assert(pre.drop_last() =~= instrs@.subrange(0, i as int));
        assert(pre.last() == instrs@[i as int]);
        let is_add = match &instrs[i] {
            Json::Object(_) => text_is(step(Some(&instrs[i]), "type"), "TimelineAddEntries"),
            _ => false,
        };
        if is_add {
            if count == 0 {
                first = i;
            }
            count = count + 1;
        }
        i = i + 1;
    }
    assert(instrs@.subrange(0, instrs@.len() as int) =~= instrs@);
    if count == 1 {
        Ok(&instrs[first])
    } else {
        Err(count)
    }
}

/// The JSON value of a payload text, if the text is valid JSON.
pub fn parse_payload(text: &str) -> (r: Option<Json>)
    ensures
        r == json_of_text(text@),
{
    parse_json(text)
}

/// The post items of a payload fetched for post `id`, keyed by id. Fails with
/// the classified reason when the payload reports the post deleted, when a
/// tombstone stands in for the requested post, when the payload's shape is
/// not the expected one, or when the requested post is not among the items.
#[verifier::rlimit(40)]
pub fn extract_all_tweets(id: u64, obj: &Json) -> (r: Result<HashMap<u64, TweetItem>, Error>)
    ensures
        match r {
            Ok(m) => payload_outcome(id, *obj) matches Ok(mj) && maps_agree(m@, mj),
            Err(e) => payload_outcome(id, *obj) == Err::<Map<u64, Json>, Fault>(e.fault()),
        },
{
    match obj {
        Json::Object(_) => {},
        _ => return Err(schema_error()),
    }
    match get_field(obj, "errors") {
        None => {},
        Some(Json::Array(errors)) => {
            if any_deleted(errors) {
                return Err(Error::TweetNotExists);
            }
        },
        Some(_) => return Err(schema_error()),
    }
    let instrs = match step(step(step(Some(obj), "data"), "threaded_conversation_with_injections_v2"), "instructions") {
        Some(Json::Array(instrs)) => instrs,
        _ => return Err(schema_error()),
    };
    let add = match single_add_entries(instrs) {
        Ok(a) => a,
        Err(n) => {
            if n == 0 {
                return Err(schema_error());
            } else {
                return Err(Error::Todo(String::from_str("Timelime Add Entries more than once.")));
            }
        },
    };
    let entries = match step(Some(add), "entries") {
        Some(Json::Array(entries)) => entries,
        _ => return Err(schema_error()),
    };
    let mut tweets: HashMap<u64, TweetItem> = HashMap::new();
    let ghost mut pairs: Seq<(u64, Json)> = Seq::empty();
    let mut i: usize = 0;
    assert(map_of(pairs) =~= Map::<u64, Json>::empty());
    assert(tweets@.dom() =~= map_of(pairs).dom());
    assert(payload_outcome(id, *obj) == keyed_outcome(id, entries_outcome(id, entries@)));
    while i < entries.len()
        invariant
            payload_outcome(id, *obj) == keyed_outcome(id, entries_outcome(id, entries@)),
            i <= entries@.len(),
            entries_outcome(id, entries@.subrange(0, i as int)) == Ok::<Seq<(u64, Json)>, Fault>(pairs),
            maps_agree(tweets@, map_of(pairs)),
        decreases entries.len() - i,
    {
        let ghost pre = entries@.subrange(0, i as int + 1);
        assert(pre.drop_last() =~= entries@.subrange(0, i as int));
        assert(pre.last() == entries@[i as int]);
        match take_entry(id, &entries[i], &mut tweets, Ghost(pairs)) {
            Ok(()) => {
                proof {
                    pairs = pairs + entry_outcome(id, entries@[i as int])->Ok_0;
                }
            },
            Err(e) => {
                proof {
                    lemma_entries_outcome_prefix(id, entries@, i as int + 1);
                }
                return Err(e);
            },
        }
        i = i + 1;
    }
    assert(entries@.subrange(0, entries@.len() as int) =~= entries@);
    if !tweets.contains_key(&id) {
        return Err(schema_error());
    }
    Ok(tweets)
}

/// A single-item entry holding one unwrapped, well-formed tweet with id `n`.
pub open spec fn tweet_entry(e: Json, n: u64) -> bool {
    let content = index(e, "content"@);
    let t = tweet_result(content);
    &&& e is Object
    &&& content is Object
    &&& is_text(index(content, "entryType"@), "TimelineTimelineItem"@)
    &&& !kind_is(t, "TweetWithVisibilityResults"@)
    &&& kind_is(t, "Tweet"@)
    &&& TweetItem::decodable(t)
    &&& decimal_of(req_text(t, "rest_id"@)->Some_0) == Some(n)
}

/// Entries that each hold one tweet give exactly those tweets' ids as keys:
/// N tweets with distinct ids give N items.
pub proof fn lemma_tweet_entries(id: u64, entries: Seq<Json>, ids: Seq<u64>)
    requires
        entries.len() == ids.len(),
        forall|i: int| 0 <= i < entries.len() ==> tweet_entry(#[trigger] entries[i], ids[i]),
    ensures
        entries_outcome(id, entries) is Ok,
        map_of(entries_outcome(id, entries)->Ok_0).dom() == ids.to_set(),
        ids.no_duplicates() ==> map_of(entries_outcome(id, entries)->Ok_0).dom().len() == ids.len(),
    decreases entries.len(),
{
    if entries.len() == 0 {
        assert(ids.to_set() =~= Set::<u64>::empty());
        assert(map_of(Seq::<(u64, Json)>::empty()).dom() =~= Set::<u64>::empty());
    } else {
        let init = entries.drop_last();
        let ids0 = ids.drop_last();
        assert forall|i: int| 0 <= i < init.len() implies tweet_entry(#[trigger] init[i], ids0[i]) by {
            assert(init[i] == entries[i]);
        }
        lemma_tweet_entries(id, init, ids0);
        let e = entries.last();
        let n = ids.last();
        assert(tweet_entry(entries[entries.len() - 1], ids[ids.len() - 1]));
        let t = tweet_result(index(e, "content"@));
        assert(entry_outcome(id, e) == Ok::<Seq<(u64, Json)>, Fault>(seq![(n, t)]));
        let prev = entries_outcome(id, init)->Ok_0;
        let pairs = prev + seq![(n, t)];
        assert(entries_outcome(id, entries) == Ok::<Seq<(u64, Json)>, Fault>(pairs));
        assert(pairs.drop_last() =~= prev);
        assert(map_of(pairs) == map_of(prev).insert(n, t));
        assert forall|x: u64| ids.to_set().contains(x) <==> ids0.to_set().contains(x) || x == n by {
            if ids.contains(x) && x != n {
                let w = choose|w: int| 0 <= w < ids.len() && ids[w] == x;
                assert(ids0[w] == x);
            }
            if ids0.contains(x) {
                let w = choose|w: int| 0 <= w < ids0.len() && ids0[w] == x;
                assert(ids[w] == x);
            }
            if x == n {
                assert(ids[ids.len() - 1] == x);
            }
        }
        assert(map_of(pairs).dom() =~= ids.to_set());
        if ids.no_duplicates() {
            ids.unique_seq_to_set();
        }
    }
}

} // verus!
