//! Fetch orchestration and per-post processing decisions. The caller performs
//! each fetch, sleep and disk write that a decision names, and hands back what
//! came of it.
use vstd::prelude::*;
use std::collections::HashMap;
use crate::error::{fail_reason_of, Error, Fault, TweetFailReason};
use crate::json::{get, parse_json, json_of_text, step, text_of, Json};
use crate::parser::{
    entries_outcome, entry_outcome, extract_all_tweets, lemma_entries_outcome_prefix, maps_agree, message_text,
    payload_outcome, suspended_phrase, tombstone_fault,
};
use crate::post::TweetItem;
use crate::records::{Media, ThreadInfo, Tweet};
use crate::store::{
    after_insert_fail, after_insert_media, after_insert_thread, after_insert_tweet, media_clashes, processed,
    raw_after_insert,
    raw_collides, TweetDB, TweetDBView, TweetDownloadDB,
};
use crate::summary::Tally;
use crate::text::{contains_seq, str_contains};
use crate::url::{extract_twitter_url, post_ref};
use crate::views::{
    create_time_of, get_thread, id_of, in_thread_of, media_list, media_row, thread_of,
};

verus! {

broadcast use vstd::std_specs::hash::group_hash_axioms;

/// Seconds to wait after every processed URL.
pub const PACE_SECS: u64 = 1;

/// Seconds to wait before every hundredth URL.
pub const BATCH_PAUSE_SECS: u64 = 10;

/// How many authenticated retry rounds a crawl runs at most.
pub const MAX_AUTH_ROUNDS: u32 = 5;

/// An error array reports rate limiting or lack of capacity.
pub open spec fn signals_rate_limit(errors: Seq<Json>) -> bool {
    exists|i: int|
        0 <= i < errors.len() && (contains_seq(message_text(#[trigger] errors[i]), "Rate limit exceeded"@)
            || contains_seq(message_text(errors[i]), "OverCapacity"@))
}

/// Whether a parsed fetch body is a usable payload.
pub open spec fn json_body_outcome(root: Json) -> Result<(), Fault> {
    if !(root is Object) {
        Err(Fault::SchemaInvalid)
    } else {
        match get(root, "errors"@) {
            None => Ok(()),
            Some(Json::Array(errs)) => if signals_rate_limit(errs@) {
                Err(Fault::RateLimitExceeded)
            } else {
                Ok(())
            },
            Some(_) => Err(Fault::SchemaInvalid),
        }
    }
}

/// Whether an intercepted fetch body is a usable payload.
pub open spec fn body_outcome(body: Seq<char>) -> Result<(), Fault> {
    if !(body.len() > 0 && body[0] == '{') {
        if contains_seq(body, "limit"@) {
            Err(Fault::RateLimitExceeded)
        } else {
            Err(Fault::Custom("Invalied TweetDetail return"@))
        }
    } else {
        match json_of_text(body) {
            None => Err(Fault::SchemaInvalid),
            Some(root) => json_body_outcome(root),
        }
    }
}

/// Classifies a parsed fetch body: rate limiting reported in its error array
/// is transient; other errors are left to the parser.
pub fn classify_fetch_json(root: &Json) -> (r: Result<(), Error>)
    ensures
        match r {
            Ok(()) => json_body_outcome(*root) is Ok,
            Err(e) => json_body_outcome(*root) == Err::<(), Fault>(e.fault()),
        },
{
    match root {
        Json::Object(_) => {},
        _ => return Err(Error::TweetJsonSchemaInvalid),
    }
    match get_field_ref(root, "errors") {
        None => Ok(()),
        Some(Json::Array(errs)) => {
            let mut i: usize = 0;
            while i < errs.len()
                invariant
                    *root is Object,
                    get(*root, "errors"@) == Some(Json::Array(*errs)),
                    i <= errs@.len(),
                    forall|k: int| 0 <= k < i ==> !(contains_seq(message_text(#[trigger] errs@[k]), "Rate limit exceeded"@)
                        || contains_seq(message_text(errs@[k]), "OverCapacity"@)),
                decreases errs.len() - i,
            {
                let hit = match text_of(step(Some(&errs[i]), "message")) {
                    Some(s) => str_contains(s.as_str(), "Rate limit exceeded") || str_contains(s.as_str(), "OverCapacity"),
                    None => {
                        let empty = String::new();
                        str_contains(empty.as_str(), "Rate limit exceeded") || str_contains(empty.as_str(), "OverCapacity")
                    },
                };
                if hit {
                    return Err(Error::RateLimitExceeded);
                }
                i = i + 1;
            }
            Ok(())
        },
        Some(_) => Err(Error::TweetJsonSchemaInvalid),
    }
}

fn get_field_ref<'a>(j: &'a Json, key: &str) -> (r: Option<&'a Json>)
    ensures
        match r {
            Some(v) => get(*j, key@) == Some(*v),
            None => get(*j, key@) is None,
        },
{
    crate::json::get_field(j, key)
}

/// Classifies an intercepted fetch body: a body that is not a JSON object
/// mentioning `limit` is rate limiting, any other such body is invalid.
pub fn classify_fetch_body(body: &str) -> (r: Result<(), Error>)
    ensures
        match r {
            Ok(()) => body_outcome(body@) is Ok,
            Err(e) => body_outcome(body@) == Err::<(), Fault>(e.fault()),
        },
{
    let len = body.unicode_len();
    if len == 0 || body.get_char(0) != '{' {
        if str_contains(body, "limit") {
            return Err(Error::RateLimitExceeded);
        } else {
            return Err(Error::CustomError { msg: String::from_str("Invalied TweetDetail return") });
        }
    }
    match parse_json(body) {
        None => Err(Error::TweetJsonSchemaInvalid),
        Some(root) => classify_fetch_json(&root),
    }
}

/// How long to wait after the `n`-th rate limit in a row (counting from 1).
pub open spec fn backoff_secs(n: u64) -> u64 {
    if n <= 1 {
        60
    } else if 600 + 120 * (n - 1) > u64::MAX {
        u64::MAX
    } else {
        (600 + 120 * (n - 1)) as u64
    }
}

/// How long to wait after the `n`-th rate limit in a row (counting from 1):
/// 60 seconds the first time, then `600 + 120 * (n - 1)`.
pub fn rate_limit_backoff(n: u64) -> (r: u64)
    ensures
        r == backoff_secs(n),
{
    if n <= 1 {
        60
    } else if n - 1 > (u64::MAX - 600) / 120 {
        assert(120 * (n - 1) > u64::MAX - 600) by (nonlinear_arith)
            requires
                n - 1 > (u64::MAX - 600) / 120,
        ;
        u64::MAX
    } else {
        assert(120 * (n - 1) <= u64::MAX - 600) by (nonlinear_arith)
            requires
                n - 1 <= (u64::MAX - 600) / 120,
        ;
        600 + 120 * (n - 1)
    }
}

/// The post id of a URL.
pub open spec fn url_id(u: Seq<char>) -> Option<u64> {
    match post_ref(u) {
        Some((_, id)) => Some(id),
        None => None,
    }
}

/// A URL needs no fetch: it names no post, or its payload is cached.
pub open spec fn settled(u: Seq<char>, cache: Map<u64, (Seq<char>, Seq<char>)>) -> bool {
    match url_id(u) {
        None => true,
        Some(id) => cache.contains_key(id),
    }
}

pub open spec fn views(s: Seq<String>) -> Seq<Seq<char>> {
    s.map_values(|x: String| x@)
}

/// The first URL at or after `from` that needs a fetch.
pub open spec fn next_open(urls: Seq<String>, from: int, cache: Map<u64, (Seq<char>, Seq<char>)>) -> int
    decreases urls.len() - from,
{
    if from < 0 || from >= urls.len() {
        urls.len() as int
    } else if settled(urls[from]@, cache) {
        next_open(urls, from + 1, cache)
    } else {
        from
    }
}

/// The URLs in `[from, to)` whose payload is cached.
pub open spec fn cached_in(urls: Seq<String>, from: int, to: int, cache: Map<u64, (Seq<char>, Seq<char>)>) -> Seq<Seq<char>>
    decreases to - from,
{
    if to <= from {
        Seq::empty()
    } else if url_id(urls[to - 1]@) is Some {
        cached_in(urls, from, to - 1, cache).push(urls[to - 1]@)
    } else {
        cached_in(urls, from, to - 1, cache)
    }
}

/// The URLs in `[from, to)` that name no post.
pub open spec fn invalid_in(urls: Seq<String>, from: int, to: int) -> Seq<Seq<char>>
    decreases to - from,
{
    if to <= from {
        Seq::empty()
    } else if url_id(urls[to - 1]@) is None {
        invalid_in(urls, from, to - 1).push(urls[to - 1]@)
    } else {
        invalid_in(urls, from, to - 1)
    }
}

/// The pause before fetching the URL at `pos`: longer before every hundredth.
pub open spec fn pause_before(pos: int) -> u64 {
    if (pos + 1) % 100 == 0 {
        BATCH_PAUSE_SECS
    } else {
        0
    }
}

/// One pass of the fetcher over a URL list.
pub struct FetchRound {
    pub urls: Vec<String>,
    /// The URL being worked on.
    pub pos: usize,
    /// Rate limits in a row on the current URL.
    pub streak: u64,
    pub succeed: Vec<String>,
    pub failed: Vec<String>,
}

/// What the fetcher does next.
pub enum FetchStep {
    /// Wait `pause_secs`, then fetch `url`, the URL of post `id`.
    Fetch { url: String, id: u64, pause_secs: u64 },
    /// The pass is over.
    Done,
}

/// What to do with a fetch result.
#[derive(PartialEq, Eq, Structural, Debug)]
pub enum FetchReply {
    /// Rate limited: wait, then fetch the same URL again.
    Retry { sleep_secs: u64 },
    /// The payload is cached; it should be written through to disk.
    Stored,
    /// The URL failed this pass.
    Failed,
}

impl FetchRound {
    pub open spec fn wf(&self) -> bool {
        self.pos <= self.urls@.len()
    }

    pub fn new(urls: Vec<String>) -> (r: Self)
        ensures
            r.wf(),
            r.urls@ == urls@,
            r.pos == 0,
            r.streak == 0,
            r.succeed@.len() == 0,
            r.failed@.len() == 0,
    {
        FetchRound { urls, pos: 0, streak: 0, succeed: Vec::new(), failed: Vec::new() }
    }

    /// Moves past the URLs that need no fetch (cached ones succeed, ones that
    /// name no post fail) and names the next fetch.
    pub fn next(&mut self, cache: &TweetDownloadDB) -> (r: FetchStep)
        requires
            old(self).wf(),
        ensures
            final(self).wf(),
            final(self).urls@ == old(self).urls@,
            final(self).streak == old(self).streak,
            final(self).pos == next_open(old(self).urls@, old(self).pos as int, cache@),
            views(final(self).succeed@) == views(old(self).succeed@) + cached_in(
                old(self).urls@,
                old(self).pos as int,
                final(self).pos as int,
                cache@,
            ),
            views(final(self).failed@) == views(old(self).failed@) + invalid_in(
                old(self).urls@,
                old(self).pos as int,
                final(self).pos as int,
            ),
            match r {
                FetchStep::Done => final(self).pos == final(self).urls@.len(),
                FetchStep::Fetch { url, id, pause_secs } => {
                    &&& final(self).pos < final(self).urls@.len()
                    &&& url@ == final(self).urls@[final(self).pos as int]@
                    &&& url_id(url@) == Some(id)
                    &&& !cache@.contains_key(id)
                    &&& pause_secs == pause_before(final(self).pos as int)
                },
            },
    {
        let ghost start = self.pos as int;
        let ghost s0 = self.succeed@;
        let ghost f0 = self.failed@;
        while self.pos < self.urls.len()
            invariant
                self.urls@ == old(self).urls@,
                self.streak == old(self).streak,
                start == old(self).pos,
                start <= self.pos <= self.urls@.len(),
                next_open(self.urls@, start, cache@) == next_open(self.urls@, self.pos as int, cache@),
                views(self.succeed@) == views(s0) + cached_in(self.urls@, start, self.pos as int, cache@),
                views(self.failed@) == views(f0) + invalid_in(self.urls@, start, self.pos as int),
                s0 == old(self).succeed@,
                f0 == old(self).failed@,
            decreases self.urls.len() - self.pos,
        {
            let p = self.pos;
            let found = extract_twitter_url(self.urls[p].as_str());
            let ghost vs = views(self.succeed@);
            let ghost vf = views(self.failed@);
            match found {
                None => {
                    let u = self.urls[p].clone();
                    self.failed.push(u);
                    assert(views(self.failed@) =~= vf.push(self.urls@[p as int]@));
                    assert(views(self.succeed@) == vs);
                },
                Some((_, id)) => {
                    if !cache.is_exist(id) {
                        let pause_secs = if (p + 1) % 100 == 0 {
                            BATCH_PAUSE_SECS
                        } else {
                            0
                        };
                        return FetchStep::Fetch { url: self.urls[p].clone(), id, pause_secs };
                    }
                    let u = self.urls[p].clone();
                    self.succeed.push(u);
                    assert(views(self.succeed@) =~= vs.push(self.urls@[p as int]@));
                    assert(views(self.failed@) == vf);
                },
            }
            self.pos = p + 1;
        }
        FetchStep::Done
    }

    /// Takes the result of fetching the current URL, the URL of post `id`. A
    /// rate limit keeps the URL and names the wait; a payload goes into the
    /// cache; anything else fails the URL.
    pub fn on_result(&mut self, cache: &mut TweetDownloadDB, id: u64, result: Result<String, Error>) -> (r: FetchReply)
        requires
            old(self).wf(),
            old(self).pos < old(self).urls@.len(),
            url_id(old(self).urls@[old(self).pos as int]@) == Some(id),
        ensures
            final(self).wf(),
            final(self).urls@ == old(self).urls@,
            ({
                let url = old(self).urls@[old(self).pos as int]@;
                match result {
                    Err(e) => if e.fault() == Fault::RateLimitExceeded {
                        let n = if old(self).streak < u64::MAX { (old(self).streak + 1) as u64 } else { old(self).streak };
                        &&& r == FetchReply::Retry { sleep_secs: backoff_secs(n) }
                        &&& final(self).streak == n
                        &&& final(self).pos == old(self).pos
                        &&& final(self).succeed@ == old(self).succeed@
                        &&& final(self).failed@ == old(self).failed@
                        &&& final(cache)@ == old(cache)@
                    } else {
                        &&& r == FetchReply::Failed
                        &&& final(self).streak == 0
                        &&& final(self).pos == old(self).pos + 1
                        &&& final(self).succeed@ == old(self).succeed@
                        &&& views(final(self).failed@) == views(old(self).failed@).push(url)
                        &&& final(cache)@ == old(cache)@
                    },
                    Ok(json) => {
                        &&& final(cache)@ == raw_after_insert(old(cache)@, id, url, json@)
                        &&& final(self).streak == 0
                        &&& final(self).pos == old(self).pos + 1
                        &&& if raw_collides(old(cache)@, id, url) {
                            &&& r == FetchReply::Failed
                            &&& final(self).succeed@ == old(self).succeed@
                            &&& views(final(self).failed@) == views(old(self).failed@).push(url)
                        } else {
                            &&& r == FetchReply::Stored
                            &&& views(final(self).succeed@) == views(old(self).succeed@).push(url)
                            &&& final(self).failed@ == old(self).failed@
                        }
                    },
                }
            }),
    {
        let p = self.pos;
        let _len = self.urls.len();
        let ghost vs = views(self.succeed@);
        let ghost vf = views(self.failed@);
        match result {
            Err(e) => {
                if let Error::RateLimitExceeded = e {
                    let n = if self.streak < u64::MAX {
                        self.streak + 1
                    } else {
                        self.streak
                    };
                    self.streak = n;
                    return FetchReply::Retry { sleep_secs: rate_limit_backoff(n) };
                }
                let u = self.urls[p].clone();
                self.failed.push(u);
                assert(views(self.failed@) =~= vf.push(self.urls@[p as int]@));
                self.pos = p + 1;
                self.streak = 0;
                FetchReply::Failed
            },
            Ok(json) => {
                let stored = cache.insert(id, self.urls[p].as_str(), json.as_str());
                let u = self.urls[p].clone();
                self.pos = p + 1;
                self.streak = 0;
                match stored {
                    Ok(()) => {
                        self.succeed.push(u);
                        assert(views(self.succeed@) =~= vs.push(self.urls@[p as int]@));
                        FetchReply::Stored
                    },
                    Err(_) => {
                        self.failed.push(u);
                        assert(views(self.failed@) =~= vf.push(self.urls@[p as int]@));
                        FetchReply::Failed
                    },
                }
            },
        }
    }
}

/// Whether the anonymous pass leaves restricted posts for a later round: only
/// when an authenticated tier will retry them; without one they are recorded.
pub fn anonymous_retry_restricted(has_auth_tier: bool) -> (r: bool)
    ensures
        r == has_auth_tier,
{
    has_auth_tier
}

/// Whether the authenticated tier runs another round.
pub fn run_auth_round(remaining: usize, rounds_done: u32) -> (r: bool)
    ensures
        r == (remaining > 0 && rounds_done < MAX_AUTH_ROUNDS),
{
    remaining > 0 && rounds_done < MAX_AUTH_ROUNDS
}

/// The rows that one parsed payload adds to the tweet store.
pub struct PostPlan {
    /// The posts stored together: the requested post's self-thread, or the
    /// requested post alone.
    pub ids: Vec<u64>,
    pub tweets: Vec<Tweet>,
    /// The media rows of each post, in the order of `ids`.
    pub medias: Vec<Vec<Media>>,
    /// The thread edge of each post, in the order of `ids`.
    pub threads: Vec<Option<ThreadInfo>>,
}

/// What becomes of one fetched post.
pub enum PostOutcome {
    Stored(PostPlan),
    /// Record a terminal failure.
    Terminal(TweetFailReason),
    /// Leave the URL for a later round.
    Retry,
}

/// The parse result is keyed by the numeric ids of its items.
pub open spec fn keyed(m: Map<u64, TweetItem>) -> bool {
    forall|k: u64| #[trigger] m.contains_key(k) ==> crate::text::decimal_of(m[k].rest_id@) == Some(k)
}

/// The post row that an item gives.
pub open spec fn tweet_row(r: Tweet, t: TweetItem) -> bool {
    &&& r.id == id_of(t)
    &&& r.author@ == t.core.user_results.result.legacy.screen_name@
    &&& r.content@ == t.legacy.full_text@
    &&& r.create_time == create_time_of(t.legacy.created_at@)
}

/// The media rows that an item gives.
pub open spec fn media_rows(rows: Seq<Media>, t: TweetItem) -> bool {
    rows.len() == media_list(t).len() && forall|i: int| 0 <= i < rows.len() ==> media_row(#[trigger] rows[i], media_list(t)[i], i, id_of(t))
}

/// The posts stored with post `id`: its self-thread when more than one post
/// shares the thread id, else the post alone.
pub open spec fn group_of(m: Map<u64, TweetItem>, id: u64) -> Set<u64> {
    if exists|k: u64| in_thread_of(m, id, k) && k != id {
        Set::new(|k: u64| in_thread_of(m, id, k))
    } else {
        set![id]
    }
}

pub open spec fn is_thread_group(m: Map<u64, TweetItem>, id: u64) -> bool {
    exists|k: u64| in_thread_of(m, id, k) && k != id
}

/// The plan stores exactly the group of post `id`, with each post's row,
/// media rows and, inside a thread, its thread edge.
pub open spec fn plans(p: PostPlan, m: Map<u64, TweetItem>, id: u64) -> bool {
    &&& p.ids@.no_duplicates()
    &&& p.ids@.to_set() == group_of(m, id)
    &&& p.tweets@.len() == p.ids@.len()
    &&& p.medias@.len() == p.ids@.len()
    &&& p.threads@.len() == p.ids@.len()
    &&& forall|i: int| 0 <= i < p.ids@.len() ==> {
        &&& m.contains_key(#[trigger] p.ids@[i])
        &&& tweet_row(p.tweets@[i], m[p.ids@[i]])
        &&& media_rows(p.medias@[i]@, m[p.ids@[i]])
        &&& p.threads@[i] == if is_thread_group(m, id) {
            thread_of(m[p.ids@[i]])
        } else {
            None
        }
    }
}

/// What becomes of a classified failure: terminal reasons are recorded,
/// except a restriction while an authenticated retry is still to come;
/// everything else is retried.
pub open spec fn failure_outcome(f: Fault, retry_restricted: bool) -> Option<TweetFailReason> {
    match fail_reason_of(f) {
        None => None,
        Some(TweetFailReason::Restricted) => if retry_restricted {
            None
        } else {
            Some(TweetFailReason::Restricted)
        },
        Some(reason) => Some(reason),
    }
}

fn plan_group(id: u64, m: &HashMap<u64, TweetItem>) -> (r: PostPlan)
    requires
        m@.contains_key(id),
        keyed(m@),
    ensures
        plans(r, m@, id),
{
    let thread = get_thread(id, m);
    let (ids, in_thread): (Vec<u64>, bool) = match thread {
        Some(v) => (v, true),
        None => (vec![id], false),
    };
    proof {
        if in_thread {
            let a = ids@[0];
            let b = ids@[1];
            assert(ids@.contains(a) && ids@.contains(b));
            assert(a != b);
            if a != id {
                assert(in_thread_of(m@, id, a));
            } else {
                assert(in_thread_of(m@, id, b));
            }
            assert(is_thread_group(m@, id));
            assert forall|k: u64| ids@.to_set().contains(k) <==> group_of(m@, id).contains(k) by {
                assert(ids@.to_set().contains(k) <==> ids@.contains(k));
            }
            assert(ids@.to_set() =~= group_of(m@, id));
        } else {
            assert(ids@ =~= seq![id]);
            assert(!is_thread_group(m@, id));
            assert forall|k: u64| ids@.to_set().contains(k) <==> group_of(m@, id).contains(k) by {
                assert(ids@.to_set().contains(k) <==> ids@.contains(k));
                assert(ids@.contains(k) <==> k == id) by {
                    if k == id {
                        assert(ids@[0] == id);
                    }
                }
            }
            assert(ids@.to_set() =~= group_of(m@, id));
            assert(ids@.no_duplicates());
        }
    }
    let mut tweets: Vec<Tweet> = Vec::new();
    let mut medias: Vec<Vec<Media>> = Vec::new();
    let mut threads: Vec<Option<ThreadInfo>> = Vec::new();
    let mut i: usize = 0;
    while i < ids.len()
        invariant
            m@.contains_key(id),
            keyed(m@),
            in_thread == is_thread_group(m@, id),
            ids@.to_set() == group_of(m@, id),
            i <= ids@.len(),
            tweets@.len() == i,
            medias@.len() == i,
            threads@.len() == i,
            forall|j: int| 0 <= j < i ==> {
                &&& m@.contains_key(#[trigger] ids@[j])
                &&& tweet_row(tweets@[j], m@[ids@[j]])
                &&& media_rows(medias@[j]@, m@[ids@[j]])
                &&& threads@[j] == if in_thread {
                    thread_of(m@[ids@[j]])
                } else {
                    None
                }
            },
        decreases ids.len() - i,
    {
        let k = ids[i];
        assert(ids@.to_set().contains(k));
        assert(m@.contains_key(k)) by {
            if is_thread_group(m@, id) {
                assert(in_thread_of(m@, id, k));
            }
        }
        let t = m.get(&k).unwrap();
        tweets.push(t.as_tweet());
        medias.push(t.get_medias());
        if in_thread {
            threads.push(t.as_thread());
        } else {
            threads.push(None);
        }
        i = i + 1;
    }
    PostPlan { ids, tweets, medias, threads }
}

/// Decides what becomes of a post from its parse result.
pub fn plan_post(id: u64, parsed: &Result<HashMap<u64, TweetItem>, Error>, retry_restricted: bool) -> (r: PostOutcome)
    requires
        parsed matches Ok(m) ==> keyed(m@),
    ensures
        match parsed {
            Ok(m) => if m@.contains_key(id) {
                r matches PostOutcome::Stored(p) && plans(p, m@, id)
            } else {
                r is Retry
            },
            Err(e) => match failure_outcome(e.fault(), retry_restricted) {
                Some(reason) => r == PostOutcome::Terminal(reason),
                None => r is Retry,
            },
        },
{
    match parsed {
        Ok(m) => {
            if m.contains_key(&id) {
                PostOutcome::Stored(plan_group(id, m))
            } else {
                PostOutcome::Retry
            }
        },
        Err(e) => match e.try_make_fail_reason() {
            None => PostOutcome::Retry,
            Some(TweetFailReason::Restricted) => {
                if retry_restricted {
                    PostOutcome::Retry
                } else {
                    PostOutcome::Terminal(TweetFailReason::Restricted)
                }
            },
            Some(reason) => PostOutcome::Terminal(reason),
        },
    }
}

/// Parses the cached payload of post `id` and decides what becomes of the post.
pub fn process_payload(id: u64, text: &str, retry_restricted: bool) -> (r: PostOutcome)
    ensures
        match json_of_text(text@) {
            None => r is Retry,
            Some(root) => match payload_outcome(id, root) {
                Ok(mj) => r matches PostOutcome::Stored(p) && exists|m: Map<u64, TweetItem>|
                    maps_agree(m, mj) && #[trigger] plans(p, m, id),
                Err(f) => match failure_outcome(f, retry_restricted) {
                    Some(reason) => r == PostOutcome::Terminal(reason),
                    None => r is Retry,
                },
            },
        },
{
    match parse_json(text) {
        None => PostOutcome::Retry,
        Some(root) => {
            let parsed = extract_all_tweets(id, &root);
            proof {
                if parsed is Ok {
                    let mj = payload_outcome(id, root)->Ok_0;
                    assert(maps_agree(parsed->Ok_0@, mj));
                    assert(mj.contains_key(id));
                }
            }
            let r = plan_post(id, &parsed, retry_restricted);
            proof {
                if parsed is Ok {
                    let m = parsed->Ok_0@;
                    let p = r->Stored_0;
                    assert(maps_agree(m, payload_outcome(id, root)->Ok_0) && plans(p, m, id));
                }
            }
            r
        },
    }
}

/// A post that the tweet store already holds needs no fetch.
pub open spec fn still_open(u: Seq<char>, db: TweetDBView) -> bool {
    match url_id(u) {
        Some(id) => !processed(db, id),
        None => true,
    }
}

pub open spec fn open_urls(urls: Seq<String>, db: TweetDBView) -> Seq<Seq<char>>
    decreases urls.len(),
{
    if urls.len() == 0 {
        Seq::empty()
    } else if still_open(urls.last()@, db) {
        open_urls(urls.drop_last(), db).push(urls.last()@)
    } else {
        open_urls(urls.drop_last(), db)
    }
}

/// The URLs whose posts the tweet store holds neither as a post nor as a
/// terminal failure, in list order.
pub fn filter_unprocessed(urls: &Vec<String>, db: &TweetDB) -> (r: Vec<String>)
    ensures
        views(r@) == open_urls(urls@, db@),
{
    let mut out: Vec<String> = Vec::new();
    let mut i: usize = 0;
    while i < urls.len()
        invariant
            i <= urls@.len(),
            views(out@) == open_urls(urls@.subrange(0, i as int), db@),
        decreases urls.len() - i,
    {
        let ghost pre = urls@.subrange(0, i as int + 1);
        assert(pre.drop_last() =~= urls@.subrange(0, i as int));
        assert(pre.last() == urls@[i as int]);
        let keep = match extract_twitter_url(urls[i].as_str()) {
            Some((_, id)) => !db.is_exist(id),
            None => true,
        };
        let ghost before = views(out@);
        if keep {
            out.push(urls[i].clone());
            assert(views(out@) =~= before.push(urls@[i as int]@));
        }
        i = i + 1;
    }
    assert(urls@.subrange(0, urls@.len() as int) =~= urls@);
    out
}

pub open spec fn after_tweets(v: TweetDBView, ts: Seq<Tweet>) -> TweetDBView
    decreases ts.len(),
{
    if ts.len() == 0 {
        v
    } else {
        after_insert_tweet(after_tweets(v, ts.drop_last()), ts.last())
    }
}

pub open spec fn after_media_list(v: TweetDBView, ms: Seq<Media>) -> TweetDBView
    decreases ms.len(),
{
    if ms.len() == 0 {
        v
    } else {
        after_insert_media(after_media_list(v, ms.drop_last()), ms.last())
    }
}

pub open spec fn after_medias(v: TweetDBView, ms: Seq<Vec<Media>>) -> TweetDBView
    decreases ms.len(),
{
    if ms.len() == 0 {
        v
    } else {
        after_media_list(after_medias(v, ms.drop_last()), ms.last()@)
    }
}

pub open spec fn after_threads(v: TweetDBView, ts: Seq<Option<ThreadInfo>>) -> TweetDBView
    decreases ts.len(),
{
    if ts.len() == 0 {
        v
    } else {
        match ts.last() {
            Some(t) => after_insert_thread(after_threads(v, ts.drop_last()), t),
            None => after_threads(v, ts.drop_last()),
        }
    }
}

/// The store after a plan: its posts, then their media, then their thread edges.
pub open spec fn after_plan(v: TweetDBView, p: PostPlan) -> TweetDBView {
    after_threads(after_medias(after_tweets(v, p.tweets@), p.medias@), p.threads@)
}

/// Stores the rows of a plan; rows already stored are left as they are.
pub fn store_plan(db: &mut TweetDB, plan: &PostPlan)
    requires
        old(db).wf(),
    ensures
        final(db).wf(),
        final(db)@ == after_plan(old(db)@, *plan),
{
    let ghost v0 = db@;
    let mut i: usize = 0;
    while i < plan.tweets.len()
        invariant
            db.wf(),
            i <= plan.tweets@.len(),
            db@ == after_tweets(v0, plan.tweets@.subrange(0, i as int)),
        decreases plan.tweets.len() - i,
    {
        let ghost pre = plan.tweets@.subrange(0, i as int + 1);
        assert(pre.drop_last() =~= plan.tweets@.subrange(0, i as int));
        db.insert_tweet(&plan.tweets[i]);
        i = i + 1;
    }
    assert(plan.tweets@.subrange(0, plan.tweets@.len() as int) =~= plan.tweets@);
    let ghost v1 = db@;
    let mut j: usize = 0;
    while j < plan.medias.len()
        invariant
            db.wf(),
            j <= plan.medias@.len(),
            db@ == after_medias(v1, plan.medias@.subrange(0, j as int)),
        decreases plan.medias.len() - j,
    {
        let ghost pre = plan.medias@.subrange(0, j as int + 1);
        assert(pre.drop_last() =~= plan.medias@.subrange(0, j as int));
        let list = &plan.medias[j];
        let ghost w = db@;
        let mut k: usize = 0;
        while k < list.len()
            invariant
                db.wf(),
                k <= list@.len(),
                db@ == after_media_list(w, list@.subrange(0, k as int)),
            decreases list.len() - k,
        {
            let ghost pre2 = list@.subrange(0, k as int + 1);
            assert(pre2.drop_last() =~= list@.subrange(0, k as int));
            db.insert_media(&list[k]);
            k = k + 1;
        }
        assert(list@.subrange(0, list@.len() as int) =~= list@);
        j = j + 1;
    }
    assert(plan.medias@.subrange(0, plan.medias@.len() as int) =~= plan.medias@);
    let ghost v2 = db@;
    let mut t: usize = 0;
    while t < plan.threads.len()
        invariant
            db.wf(),
            t <= plan.threads@.len(),
            db@ == after_threads(v2, plan.threads@.subrange(0, t as int)),
        decreases plan.threads.len() - t,
    {
        let ghost pre = plan.threads@.subrange(0, t as int + 1);
        assert(pre.drop_last() =~= plan.threads@.subrange(0, t as int));
        match &plan.threads[t] {
            Some(edge) => {
                db.insert_thread(edge);
            },
            None => {},
        }
        t = t + 1;
    }
    assert(plan.threads@.subrange(0, plan.threads@.len() as int) =~= plan.threads@);
}

/// A single-item entry holding a text tombstone for post `id`.
pub open spec fn tombstone_entry_for(id: u64, entry: Json, text: Seq<char>) -> bool {
    let content = crate::json::index(entry, "content"@);
    let t = crate::parser::unwrap_visibility(crate::parser::tweet_result(content)).0;
    let ts = crate::json::index(t, "tombstone"@);
    &&& entry is Object
    &&& content is Object
    &&& crate::json::is_text(crate::json::index(content, "entryType"@), "TimelineTimelineItem"@)
    &&& !crate::parser::kind_is(t, "Tweet"@)
    &&& crate::parser::kind_is(t, "TweetTombstone"@)
    &&& ts is Object
    &&& crate::parser::kind_is(ts, "TextTombstone"@)
    &&& crate::parser::names_post(crate::json::index(entry, "entryId"@), id)
    &&& crate::parser::text_or_empty(crate::json::index(crate::json::index(ts, "text"@), "text"@)) == text
}

/// A timeline entry that is a tombstone for the requested post, whose text
/// announces a suspended account, and that no earlier entry fails before,
/// makes the payload a terminal `AccountSuspended` failure, whichever tier
/// fetched it, and stores no post.
pub proof fn lemma_suspended_tombstone(id: u64, entries: Seq<Json>, k: int, text: Seq<char>, retry_restricted: bool)
    requires
        0 <= k < entries.len(),
        entries_outcome(id, entries.subrange(0, k)) is Ok,
        tombstone_entry_for(id, entries[k], text),
        contains_seq(text, suspended_phrase()),
    ensures
        entries_outcome(id, entries) == Err::<Seq<(u64, Json)>, Fault>(Fault::AccountSuspended),
        failure_outcome(Fault::AccountSuspended, retry_restricted) == Some(TweetFailReason::AccountSuspended),
{
    assert(tombstone_fault(text) == Fault::AccountSuspended);
    assert(entry_outcome(id, entries[k]) == Err::<Seq<(u64, Json)>, Fault>(Fault::AccountSuspended));
    let upto = entries.subrange(0, k + 1);
    assert(upto.drop_last() =~= entries.subrange(0, k));
    assert(upto.last() == entries[k]);
    assert(entries_outcome(id, upto) == Err::<Seq<(u64, Json)>, Fault>(Fault::AccountSuspended));
    lemma_entries_outcome_prefix(id, entries, k + 1);
}

/// The post ids of the URLs that name a post, in list order.
pub open spec fn ids_of(urls: Seq<String>) -> Seq<u64>
    decreases urls.len(),
{
    if urls.len() == 0 {
        Seq::empty()
    } else {
        match url_id(urls.last()@) {
            Some(id) => ids_of(urls.drop_last()).push(id),
            None => ids_of(urls.drop_last()),
        }
    }
}

/// Evicts the cached payloads of the URLs about to be fetched again, so that
/// a stale payload is not taken for a fresh one. Returns the ids evicted.
pub fn evict_cached(cache: &mut TweetDownloadDB, urls: &Vec<String>) -> (r: Vec<u64>)
    ensures
        r@ == ids_of(urls@),
        forall|k: u64| #[trigger] final(cache)@.contains_key(k) <==> (old(cache)@.contains_key(k) && !r@.contains(k)),
        forall|k: u64| #[trigger] final(cache)@.contains_key(k) ==> final(cache)@[k] == old(cache)@[k],
{
    let mut out: Vec<u64> = Vec::new();
    let mut i: usize = 0;
    while i < urls.len()
        invariant
            i <= urls@.len(),
            out@ == ids_of(urls@.subrange(0, i as int)),
            forall|k: u64| #[trigger] cache@.contains_key(k) <==> (old(cache)@.contains_key(k) && !out@.contains(k)),
            forall|k: u64| #[trigger] cache@.contains_key(k) ==> cache@[k] == old(cache)@[k],
        decreases urls.len() - i,
    {
        let ghost pre = urls@.subrange(0, i as int + 1);
        assert(pre.drop_last() =~= urls@.subrange(0, i as int));
        assert(pre.last() == urls@[i as int]);
        match extract_twitter_url(urls[i].as_str()) {
            Some((_, id)) => {
                let ghost cb = cache@;
                let _ = cache.remove(id);
                let ghost before = out@;
                out.push(id);
                assert forall|k: u64| out@.contains(k) <==> (before.contains(k) || k == id) by {
                    if before.contains(k) {
                        let w = choose|w: int| 0 <= w < before.len() && before[w] == k;
                        assert(out@[w] == k);
                    }
                    if k == id {
                        assert(out@[before.len() as int] == k);
                    }
                    if out@.contains(k) && k != id {
                        let w = choose|w: int| 0 <= w < out@.len() && out@[w] == k;
                        assert(before[w] == k);
                    }
                }
                assert forall|k: u64| #[trigger] cache@.contains_key(k) <==> (old(cache)@.contains_key(k)
                    && !out@.contains(k)) by {
                    assert(cache@.contains_key(k) <==> (cb.contains_key(k) && k != id));
                    assert(out@.contains(k) <==> (before.contains(k) || k == id));
                }
            },
            None => {},
        }
        i = i + 1;
    }
    assert(urls@.subrange(0, urls@.len() as int) =~= urls@);
    out
}

/// Some post of the plan has media.
pub open spec fn plan_has_media(p: PostPlan) -> bool {
    exists|i: int| 0 <= i < p.medias@.len() && (#[trigger] p.medias@[i])@.len() > 0
}

fn has_media(p: &PostPlan) -> (r: bool)
    ensures
        r == plan_has_media(*p),
{
    let mut i: usize = 0;
    while i < p.medias.len()
        invariant
            i <= p.medias@.len(),
            forall|k: int| 0 <= k < i ==> (#[trigger] p.medias@[k])@.len() == 0,
        decreases p.medias.len() - i,
    {
        if p.medias[i].len() > 0 {
            return true;
        }
        i = i + 1;
    }
    false
}

/// What the caller writes to disk after an outcome is applied.
pub enum Persist {
    /// The rows of a stored plan.
    Rows(PostPlan),
    /// A newly recorded terminal failure of post `id`.
    Failure { id: u64, reason: TweetFailReason },
    Nothing,
}

/// The running state of a crawl: counts, URLs left for a later round, and
/// stored posts without media.
pub struct CrawlState {
    pub tally: Tally,
    pub remaining: Vec<String>,
    pub no_media: Vec<String>,
}

impl CrawlState {
    pub fn new() -> (r: Self)
        ensures
            r.tally == Tally::zero(),
            r.remaining@.len() == 0,
            r.no_media@.len() == 0,
    {
        CrawlState { tally: Tally::new(), remaining: Vec::new(), no_media: Vec::new() }
    }

    /// Applies the outcome of the post that `url` names: a plan is stored, a
    /// terminal failure recorded, a retry left for a later round; the tally
    /// counts it.
    pub fn apply(&mut self, db: &mut TweetDB, url: String, outcome: PostOutcome) -> (r: Persist)
        requires
            old(db).wf(),
        ensures
            final(db).wf(),
            final(self).tally == old(self).tally.counted(outcome),
            match outcome {
                PostOutcome::Stored(p) => {
                    &&& final(db)@ == after_plan(old(db)@, p)
                    &&& r == Persist::Rows(p)
                    &&& final(self).remaining@ == old(self).remaining@
                    &&& views(final(self).no_media@) == if plan_has_media(p) {
                        views(old(self).no_media@)
                    } else {
                        views(old(self).no_media@).push(url@)
                    }
                },
                PostOutcome::Terminal(reason) => {
                    &&& final(self).remaining@ == old(self).remaining@
                    &&& final(self).no_media@ == old(self).no_media@
                    &&& match url_id(url@) {
                        Some(id) => {
                            &&& final(db)@ == after_insert_fail(old(db)@, id, url@, reason)
                            &&& r == if processed(old(db)@, id) {
                                Persist::Nothing
                            } else {
                                Persist::Failure { id, reason }
                            }
                        },
                        None => final(db)@ == old(db)@ && r == Persist::Nothing,
                    }
                },
                PostOutcome::Retry => {
                    &&& final(db)@ == old(db)@
                    &&& r == Persist::Nothing
                    &&& views(final(self).remaining@) == views(old(self).remaining@).push(url@)
                    &&& final(self).no_media@ == old(self).no_media@
                },
            },
    {
        self.tally.record(&outcome);
        match outcome {
            PostOutcome::Stored(p) => {
                if !has_media(&p) {
                    let ghost before = views(self.no_media@);
                    self.no_media.push(url);
                    assert(views(self.no_media@) =~= before.push(url@));
                }
                store_plan(db, &p);
                Persist::Rows(p)
            },
            PostOutcome::Terminal(reason) => {
                let id = match extract_twitter_url(url.as_str()) {
                    Some((_, id)) => id,
                    None => {
                        return Persist::Nothing;
                    },
                };
                match db.insert_fail(url.as_str(), reason) {
                    Ok(true) => Persist::Failure { id, reason },
                    _ => Persist::Nothing,
                }
            },
            PostOutcome::Retry => {
                let ghost before = views(self.remaining@);
                self.remaining.push(url);
                assert(views(self.remaining@) =~= before.push(url@));
                Persist::Nothing
            },
        }
    }
}

proof fn lemma_after_tweets(v: TweetDBView, ts: Seq<Tweet>)
    ensures
        forall|i: int| 0 <= i < ts.len() ==> processed(after_tweets(v, ts), (#[trigger] ts[i]).id),
        forall|k: u64| processed(v, k) ==> processed(after_tweets(v, ts), k),
        after_tweets(v, ts).medias == v.medias,
        after_tweets(v, ts).threads == v.threads,
    decreases ts.len(),
{
    if ts.len() > 0 {
        lemma_after_tweets(v, ts.drop_last());
        assert forall|i: int| 0 <= i < ts.len() implies processed(after_tweets(v, ts), (#[trigger] ts[i]).id) by {
            if i < ts.len() - 1 {
                assert(ts[i] == ts.drop_last()[i]);
            }
        }
    }
}

proof fn lemma_after_media_list(v: TweetDBView, ms: Seq<Media>)
    ensures
        forall|j: int| 0 <= j < ms.len() ==> media_clashes(after_media_list(v, ms).medias, #[trigger] ms[j]),
        forall|x: Media| media_clashes(v.medias, x) ==> media_clashes(after_media_list(v, ms).medias, x),
        after_media_list(v, ms).tweets == v.tweets,
        after_media_list(v, ms).fails == v.fails,
        after_media_list(v, ms).threads == v.threads,
    decreases ms.len(),
{
    if ms.len() > 0 {
        let w = after_media_list(v, ms.drop_last());
        lemma_after_media_list(v, ms.drop_last());
        let m = ms.last();
        let r = after_insert_media(w, m);
        assert forall|x: Media| media_clashes(w.medias, x) implies media_clashes(r.medias, x) by {
            if !media_clashes(w.medias, m) {
                let i = choose|i: int| 0 <= i < w.medias.len() && ((#[trigger] w.medias[i]).id@ == x.id@
                    || w.medias[i].url@ == x.url@);
                assert(r.medias[i] == w.medias[i]);
            }
        }
        if !media_clashes(w.medias, m) {
            assert(r.medias[w.medias.len() as int] == m);
        }
        assert forall|j: int| 0 <= j < ms.len() implies media_clashes(r.medias, #[trigger] ms[j]) by {
            if j < ms.len() - 1 {
                assert(ms[j] == ms.drop_last()[j]);
            }
        }
    }
}

proof fn lemma_after_medias(v: TweetDBView, mss: Seq<Vec<Media>>)
    ensures
        forall|i: int, j: int| 0 <= i < mss.len() && 0 <= j < mss[i]@.len() ==> media_clashes(
            after_medias(v, mss).medias,
            #[trigger] mss[i]@[j],
        ),
        after_medias(v, mss).tweets == v.tweets,
        after_medias(v, mss).fails == v.fails,
        after_medias(v, mss).threads == v.threads,
    decreases mss.len(),
{
    if mss.len() > 0 {
        let w = after_medias(v, mss.drop_last());
        lemma_after_medias(v, mss.drop_last());
        lemma_after_media_list(w, mss.last()@);
        assert forall|i: int, j: int| 0 <= i < mss.len() && 0 <= j < mss[i]@.len() implies media_clashes(
            after_medias(v, mss).medias,
            #[trigger] mss[i]@[j],
        ) by {
            if i < mss.len() - 1 {
                assert(mss[i] == mss.drop_last()[i]);
                assert(media_clashes(w.medias, mss.drop_last()[i]@[j]));
            }
        }
    }
}

proof fn lemma_after_threads(v: TweetDBView, ts: Seq<Option<ThreadInfo>>)
    ensures
        forall|i: int| 0 <= i < ts.len() && (#[trigger] ts[i]) is Some ==> after_threads(v, ts).threads.contains_key(
            ts[i]->Some_0.tweet_id,
        ),
        forall|k: u64| v.threads.contains_key(k) ==> after_threads(v, ts).threads.contains_key(k),
        after_threads(v, ts).tweets == v.tweets,
        after_threads(v, ts).fails == v.fails,
        after_threads(v, ts).medias == v.medias,
    decreases ts.len(),
{
    if ts.len() > 0 {
        lemma_after_threads(v, ts.drop_last());
        assert forall|i: int| 0 <= i < ts.len() && (#[trigger] ts[i]) is Some implies after_threads(
            v,
            ts,
        ).threads.contains_key(ts[i]->Some_0.tweet_id) by {
            if i < ts.len() - 1 {
                assert(ts[i] == ts.drop_last()[i]);
            }
        }
    }
}

/// After a plan is stored, every post of the plan is processed, every thread
/// edge of the plan is recorded for its post, and every media row of the plan
/// is stored (or a row with its id or URL already was); posts processed
/// before stay processed.
pub proof fn lemma_plan_stored(v: TweetDBView, p: PostPlan)
    ensures
        forall|i: int| 0 <= i < p.tweets@.len() ==> processed(after_plan(v, p), (#[trigger] p.tweets@[i]).id),
        forall|i: int| 0 <= i < p.threads@.len() && (#[trigger] p.threads@[i]) is Some
            ==> after_plan(v, p).threads.contains_key(p.threads@[i]->Some_0.tweet_id),
        forall|i: int, j: int| 0 <= i < p.medias@.len() && 0 <= j < p.medias@[i]@.len() ==> media_clashes(
            after_plan(v, p).medias,
            #[trigger] p.medias@[i]@[j],
        ),
        forall|k: u64| processed(v, k) ==> processed(after_plan(v, p), k),
{
    let v1 = after_tweets(v, p.tweets@);
    let v2 = after_medias(v1, p.medias@);
    lemma_after_tweets(v, p.tweets@);
    lemma_after_medias(v1, p.medias@);
    lemma_after_threads(v2, p.threads@);
    assert forall|i: int| 0 <= i < p.tweets@.len() implies processed(after_plan(v, p), (#[trigger] p.tweets@[i]).id) by {
        assert(processed(v1, p.tweets@[i].id));
    }
    assert forall|k: u64| processed(v, k) implies processed(after_plan(v, p), k) by {
        assert(processed(v1, k));
    }
}

} // verus!
