//! What the store keeps of a post item: its post row, thread edge and media
//! rows, and the self-thread that a requested post belongs to.
use vstd::prelude::*;
use std::collections::HashMap;
use crate::post::{TweetItem, TweetMedia, TweetVideoInfoVariant};
use crate::records::{Media, ThreadInfo, Tweet};
use crate::text::{decimal_of, parse_decimal, str_eq};

verus! {

broadcast use vstd::std_specs::hash::group_hash_axioms;

/// Seconds since the epoch that chrono reads from `s` in the format `fmt`.
pub uninterp spec fn parsed_timestamp(s: Seq<char>, fmt: Seq<char>) -> Option<i64>;

/// Relies on chrono's `DateTime::parse_from_str` and `DateTime::timestamp`:
/// the seconds since the epoch of the time that `s` writes in the format
/// `fmt`, which depend on the two texts alone.
#[verifier::external_body]
fn parse_timestamp(s: &str, fmt: &str) -> (r: Option<i64>)
    ensures
        r == parsed_timestamp(s@, fmt@),
{
    match chrono::DateTime::parse_from_str(s, fmt) {
        Ok(dt) => Some(dt.timestamp()),
        Err(_) => None,
    }
}

pub open spec fn created_at_format() -> Seq<char> {
    "%a %b %d %H:%M:%S %z %Y"@
}

/// A signed timestamp as an unsigned one, wrapping negative values.
pub open spec fn seconds_u64(t: i64) -> u64 {
    if t >= 0 {
        t as u64
    } else {
        (t + 18446744073709551616int) as u64
    }
}

/// The creation time of a post: 0 when the text does not parse.
pub open spec fn create_time_of(created_at: Seq<char>) -> u64 {
    match parsed_timestamp(created_at, created_at_format()) {
        Some(t) => seconds_u64(t),
        None => 0,
    }
}

pub open spec fn id_of(t: TweetItem) -> u64 {
    decimal_of(t.rest_id@)->Some_0
}

pub open spec fn has_numeric_id(t: TweetItem) -> bool {
    decimal_of(t.rest_id@) is Some
}

/// The thread edge of a post item: present when it carries a self-thread id
/// and an in-reply-to id, and all three ids are numbers.
pub open spec fn thread_of(t: TweetItem) -> Option<ThreadInfo> {
    match (t.legacy.self_thread, t.legacy.in_reply_to_status_id_str) {
        (Some(st), Some(rp)) => match (decimal_of(t.rest_id@), decimal_of(st.id_str@), decimal_of(rp@)) {
            (Some(a), Some(b), Some(c)) => Some(ThreadInfo { tweet_id: a, thread_id: b, reply_to: c }),
            _ => None,
        },
        _ => None,
    }
}

/// The media list of a post: the extended entities' when present, else the base ones'.
pub open spec fn media_list(t: TweetItem) -> Seq<TweetMedia> {
    let ents = match t.legacy.extended_entities {
        Some(e) => e,
        None => t.legacy.entities,
    };
    match ents.media {
        Some(v) => v@,
        None => Seq::empty(),
    }
}

/// The index of the variant with the highest bitrate; the last one among equals.
pub open spec fn best_variant(vs: Seq<TweetVideoInfoVariant>) -> int
    decreases vs.len(),
{
    if vs.len() <= 1 {
        0
    } else {
        let b = best_variant(vs.drop_last());
        if vs.last().bitrate >= vs[b].bitrate {
            vs.len() - 1
        } else {
            b
        }
    }
}

/// The chosen variant has the highest bitrate of all.
pub proof fn lemma_best_variant_is_max(vs: Seq<TweetVideoInfoVariant>)
    requires
        vs.len() > 0,
    ensures
        0 <= best_variant(vs) < vs.len(),
        forall|i: int| 0 <= i < vs.len() ==> (#[trigger] vs[i]).bitrate <= vs[best_variant(vs)].bitrate,
    decreases vs.len(),
{
    if vs.len() > 1 {
        let init = vs.drop_last();
        lemma_best_variant_is_max(init);
        assert forall|i: int| 0 <= i < vs.len() implies (#[trigger] vs[i]).bitrate <= vs[best_variant(vs)].bitrate by {
            if i < vs.len() - 1 {
                assert(vs[i] == init[i]);
                assert(init[best_variant(init)] == vs[best_variant(init)]);
            }
        }
    }
}

pub open spec fn is_motion(kind: Seq<char>) -> bool {
    kind == "animated_gif"@ || kind == "video"@
}

/// The URL to download for a media item: the best variant of a video or
/// animated GIF, else the image URL (also for a video without variants).
pub open spec fn media_url_of(m: TweetMedia) -> Seq<char> {
    match m.video_info {
        Some(vi) => if is_motion(m._type@) && vi.variants@.len() > 0 {
            vi.variants@[best_variant(vi.variants@)].url@
        } else {
            m.media_url_https@
        },
        None => m.media_url_https@,
    }
}

/// The media row for the `i`-th media item of post `id`.
pub open spec fn media_row(r: Media, m: TweetMedia, i: int, id: u64) -> bool {
    &&& r.id@ == m.id_str@
    &&& r.tweet_id == id
    &&& r.url@ == media_url_of(m)
    &&& r.width == m.original_info.width
    &&& r.height == m.original_info.height
    &&& r.no == (i + 1) as i32
    &&& r._type@ == m._type@
}

pub open spec fn thread_key(t: TweetItem) -> Option<Seq<char>> {
    match t.legacy.self_thread {
        Some(st) => Some(st.id_str@),
        None => None,
    }
}

/// Post `k` shares the self-thread id of post `id`.
pub open spec fn in_thread_of(m: Map<u64, TweetItem>, id: u64, k: u64) -> bool {
    &&& m.contains_key(k)
    &&& m.contains_key(id)
    &&& thread_key(m[id]) is Some
    &&& thread_key(m[k]) == thread_key(m[id])
}

fn parse_id(s: &String) -> (r: Option<u64>)
    ensures
        r == decimal_of(s@),
{
    let t = s.as_str();
    let len = t.unicode_len();
    assert(t@.subrange(0, len as int) =~= t@);
    parse_decimal(t, 0, len)
}

fn best_variant_index(vs: &Vec<TweetVideoInfoVariant>) -> (r: usize)
    requires
        vs@.len() > 0,
    ensures
        r == best_variant(vs@),
        r < vs@.len(),
{
    let mut b: usize = 0;
    let mut i: usize = 1;
    assert(vs@.subrange(0, 1).len() == 1);
    while i < vs.len()
        invariant
            1 <= i <= vs@.len(),
            b < i,
            b == best_variant(vs@.subrange(0, i as int)),
        decreases vs.len() - i,
    {
        let ghost pre = vs@.subrange(0, i as int + 1);
        assert(pre.drop_last() =~= vs@.subrange(0, i as int));
        assert(pre.last() == vs@[i as int]);
        assert(pre[b as int] == vs@[b as int]);
        if vs[i].bitrate >= vs[b].bitrate {
            b = i;
        }
        i = i + 1;
    }
    assert(vs@.subrange(0, vs@.len() as int) =~= vs@);
    b
}

fn is_motion_kind(kind: &String) -> (r: bool)
    ensures
        r == is_motion(kind@),
{
    str_eq(kind.as_str(), "animated_gif") || str_eq(kind.as_str(), "video")
}

fn select_url(m: &TweetMedia) -> (r: String)
    ensures
        r@ == media_url_of(*m),
{
    match &m.video_info {
        Some(vi) => {
            if is_motion_kind(&m._type) && vi.variants.len() > 0 {
                let b = best_variant_index(&vi.variants);
                vi.variants[b].url.clone()
            } else {
                m.media_url_https.clone()
            }
        },
        None => m.media_url_https.clone(),
    }
}

impl TweetItem {
    /// The post row of the item.
    pub fn as_tweet(&self) -> (r: Tweet)
        requires
            has_numeric_id(*self),
        ensures
            r.id == id_of(*self),
            r.author@ == self.core.user_results.result.legacy.screen_name@,
            r.content@ == self.legacy.full_text@,
            r.create_time == create_time_of(self.legacy.created_at@),
    {
        let id = parse_id(&self.rest_id).unwrap();
        let create_time = match parse_timestamp(
            self.legacy.created_at.as_str(),
            "%a %b %d %H:%M:%S %z %Y",
        ) {
            Some(t) => if t >= 0 {
                t as u64
            } else {
                (t as i128 + 18446744073709551616i128) as u64
            },
            None => 0,
        };
        Tweet {
            id,
            author: self.core.user_results.result.legacy.screen_name.clone(),
            content: self.legacy.full_text.clone(),
            create_time,
        }
    }

    /// The thread edge of the item, when it is part of a self-thread.
    pub fn as_thread(&self) -> (r: Option<ThreadInfo>)
        ensures
            r == thread_of(*self),
    {
        match (&self.legacy.self_thread, &self.legacy.in_reply_to_status_id_str) {
            (Some(st), Some(rp)) => match (parse_id(&self.rest_id), parse_id(&st.id_str), parse_id(rp)) {
                (Some(a), Some(b), Some(c)) => Some(ThreadInfo { tweet_id: a, thread_id: b, reply_to: c }),
                _ => None,
            },
            _ => None,
        }
    }

    /// The media rows of the item, numbered from 1 in list order.
    pub fn get_medias(&self) -> (r: Vec<Media>)
        requires
            has_numeric_id(*self),
        ensures
            r@.len() == media_list(*self).len(),
            forall|i: int| 0 <= i < r@.len() ==> media_row(#[trigger] r@[i], media_list(*self)[i], i, id_of(*self)),
    {
        let id = parse_id(&self.rest_id).unwrap();
        let ents = match &self.legacy.extended_entities {
            Some(e) => e,
            None => &self.legacy.entities,
        };
        let mut out: Vec<Media> = Vec::new();
        match &ents.media {
            None => {},
            Some(list) => {
                let mut i: usize = 0;
                while i < list.len()
                    invariant
                        list@ == media_list(*self),
                        id == id_of(*self),
                        i <= list@.len(),
                        out@.len() == i,
                        forall|k: int| 0 <= k < i ==> media_row(#[trigger] out@[k], list@[k], k, id),
                    decreases list.len() - i,
                {
                    let m = &list[i];
                    let url = select_url(m);
                    out.push(
                        Media {
                            id: m.id_str.clone(),
                            tweet_id: id,
                            url,
                            width: m.original_info.width,
                            height: m.original_info.height,
                            no: (i + 1) as i32,
                            _type: m._type.clone(),
                        },
                    );
                    i = i + 1;
                }
            },
        }
        out
    }
}

/// The ids of the posts that share the requested post's self-thread id, when
/// more than one post does; `None` for a post that is absent, carries no
/// self-thread id, or is alone in its thread.
pub fn get_thread(id: u64, tweets: &HashMap<u64, TweetItem>) -> (r: Option<Vec<u64>>)
    ensures
        match r {
            Some(v) => {
                &&& v@.no_duplicates()
                &&& v@.len() > 1
                &&& forall|k: u64| v@.contains(k) <==> in_thread_of(tweets@, id, k)
            },
            None => forall|k: u64| in_thread_of(tweets@, id, k) ==> k == id,
        },
{
    let t = match tweets.get(&id) {
        Some(t) => t,
        None => return None,
    };
    let tid = match &t.legacy.self_thread {
        Some(st) => st.id_str.as_str(),
        None => return None,
    };
    let ghost m = tweets@;
    let mut out: Vec<u64> = Vec::new();
    for (k, v) in it: tweets.iter()
        invariant
            m == tweets@,
            it.seq().no_duplicates(),
            it.seq().len() == m.dom().len(),
            forall|j: int| 0 <= j < it.seq().len() ==> m.contains_key(*(#[trigger] it.seq()[j]).0) && m[*it.seq()[j].0] == *it.seq()[j].1,
            forall|x: u64| #[trigger] m.contains_key(x) ==> it.seq().contains((&x, &m[x])),
            m.contains_key(id),
            thread_key(m[id]) == Some(tid@),
            out@.no_duplicates(),
            forall|x: u64| #[trigger] out@.contains(x) ==> in_thread_of(m, id, x),
            forall|j: int| 0 <= j < it.index() ==> (in_thread_of(m, id, *it.seq()[j].0) ==> out@.contains(*it.seq()[j].0)),
            forall|x: u64| #[trigger] out@.contains(x) ==> exists|j: int| 0 <= j < it.index() && *it.seq()[j].0 == x,
    {
        assert(it.seq()[it.index() as int] == (k, v));
        let ghost idx = it.index() as int;
        let ghost before = out@;
        let same = match &v.legacy.self_thread {
            Some(st) => str_eq(st.id_str.as_str(), tid),
            None => false,
        };
        proof {
            let idx = it.index() as int;
            assert(m.contains_key(*it.seq()[idx].0) && m[*it.seq()[idx].0] == *it.seq()[idx].1);
            if out@.contains(*k) {
                let j = choose|j: int| 0 <= j < it.index() && *it.seq()[j].0 == *k;
                assert(m.contains_key(*it.seq()[j].0) && m[*it.seq()[j].0] == *it.seq()[j].1);
                assert(it.seq()[j] == it.seq()[idx]);
            }
        }
        if same {
            out.push(*k);
        }
        proof {
            assert(thread_key(*v) == Some(tid@) ==> same);
            assert(same ==> thread_key(*v) == Some(tid@));
            assert forall|x: u64| before.contains(x) implies #[trigger] out@.contains(x) by {
                let w = choose|w: int| 0 <= w < before.len() && before[w] == x;
                assert(out@[w] == x);
            }
            if same {
                assert(out@[before.len() as int] == *k);
                assert(m[*k] == *v);
                assert(in_thread_of(m, id, *k));
            }
            assert forall|x: u64| #[trigger] out@.contains(x) implies in_thread_of(m, id, x) by {
                if !before.contains(x) {
                    let w = choose|w: int| 0 <= w < out@.len() && out@[w] == x;
                    if w < before.len() {
                        assert(before[w] == x);
                    }
                }
            }
            assert forall|j: int| 0 <= j < idx + 1 && in_thread_of(m, id, *it.seq()[j].0) implies
                out@.contains(*it.seq()[j].0) by {
                if j < idx {
                    assert(before.contains(*it.seq()[j].0));
                }
            }
            assert forall|x: u64| #[trigger] out@.contains(x) implies exists|j: int| 0 <= j < idx + 1 && *it.seq()[j].0 == x by {
                if before.contains(x) {
                    let j = choose|j: int| 0 <= j < idx && *it.seq()[j].0 == x;
                    assert(0 <= j < idx + 1 && *it.seq()[j].0 == x);
                } else {
                    assert(x == *k);
                    assert(*it.seq()[idx].0 == x);
                }
            }
        }
    }
    if out.len() == 1 {
        None
    } else {
        Some(out)
    }
}

} // verus!
