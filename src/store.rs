//! The two stores of the pipeline: the raw payload cache, keyed by post id,
//! and the tweet store of posts, media, thread edges and terminal failures.
//! Both are the authoritative in-memory state; a caller that keeps them on
//! disk writes through what each operation reports as changed.
use vstd::prelude::*;
use std::collections::HashMap;
use crate::error::{Error, Fault, TweetFailReason};
use crate::records::{Media, ThreadInfo, Tweet};
use crate::text::str_eq;
use crate::url::{extract_twitter_url, post_ref};

verus! {

broadcast use vstd::std_specs::hash::group_hash_axioms;

/// One cached payload.
pub struct RawEntry {
    pub url: String,
    pub json: String,
}

/// The raw payload cache: at most one payload per post id and per URL.
pub struct TweetDownloadDB {
    rows: HashMap<u64, RawEntry>,
}

/// What the cache holds: for each post id, its source URL and payload.
pub type RawCacheView = Map<u64, (Seq<char>, Seq<char>)>;

pub open spec fn url_taken(v: RawCacheView, url: Seq<char>) -> bool {
    exists|k: u64| #[trigger] v.contains_key(k) && v[k].0 == url
}

/// Whether an insert of `(id, url)` collides with what the cache holds.
pub open spec fn raw_collides(v: RawCacheView, id: u64, url: Seq<char>) -> bool {
    v.contains_key(id) || url_taken(v, url)
}

/// The cache after an insert.
pub open spec fn raw_after_insert(v: RawCacheView, id: u64, url: Seq<char>, json: Seq<char>) -> RawCacheView {
    if raw_collides(v, id, url) {
        v
    } else {
        v.insert(id, (url, json))
    }
}

impl View for TweetDownloadDB {
    type V = RawCacheView;

    closed spec fn view(&self) -> RawCacheView {
        Map::new(|k: u64| self.rows@.contains_key(k), |k: u64| (self.rows@[k].url@, self.rows@[k].json@))
    }
}

impl TweetDownloadDB {
    pub fn new() -> (r: Self)
        ensures
            r@ == Map::<u64, (Seq<char>, Seq<char>)>::empty(),
    {
        let r = TweetDownloadDB { rows: HashMap::new() };
        assert(r@ =~= Map::<u64, (Seq<char>, Seq<char>)>::empty());
        r
    }

    /// Whether a payload for post `id` is cached.
    pub fn is_exist(&self, id: u64) -> (r: bool)
        ensures
            r == self@.contains_key(id),
    {
        self.rows.contains_key(&id)
    }

    fn holds_url(&self, url: &str) -> (r: bool)
        ensures
            r == url_taken(self@, url@),
    {
        let ghost m = self.rows@;
        let mut found = false;
        for (k, e) in it: self.rows.iter()
            invariant
                m == self.rows@,
                it.seq().no_duplicates(),
                forall|j: int| 0 <= j < it.seq().len() ==> m.contains_key(*(#[trigger] it.seq()[j]).0) && m[*it.seq()[j].0] == *it.seq()[j].1,
                forall|x: u64| #[trigger] m.contains_key(x) ==> it.seq().contains((&x, &m[x])),
                found ==> url_taken(self@, url@),
                !found ==> forall|j: int| 0 <= j < it.index() ==> (#[trigger] it.seq()[j]).1.url@ != url@,
                (!found && it.index() == it.seq().len()) ==> !url_taken(self@, url@),
        {
            let ghost idx = it.index() as int;
            assert(it.seq()[idx] == (k, e));
            assert(m.contains_key(*it.seq()[idx].0) && m[*it.seq()[idx].0] == *it.seq()[idx].1);
            if str_eq(e.url.as_str(), url) {
                assert(self@.contains_key(*k) && self@[*k].0 == url@);
                found = true;
            }
            assert forall|k: u64| !found && idx + 1 == it.seq().len() && #[trigger] self@.contains_key(k)
                implies self@[k].0 != url@ by {
                assert(it.seq().contains((&k, &m[k])));
                let j = choose|j: int| 0 <= j < it.seq().len() && it.seq()[j] == (&k, &m[k]);
                if j < idx {
                    assert(it.seq()[j].1.url@ != url@);
                }
            }
        }
        found
    }

    /// Caches the payload of post `id`; fails with `DuplicateKey` when the id
    /// or the URL is already cached.
    pub fn insert(&mut self, id: u64, url: &str, json: &str) -> (r: Result<(), Error>)
        ensures
            final(self)@ == raw_after_insert(old(self)@, id, url@, json@),
            match r {
                Ok(()) => !raw_collides(old(self)@, id, url@),
                Err(e) => raw_collides(old(self)@, id, url@) && e.fault() == Fault::DuplicateKey,
            },
    {
        if self.rows.contains_key(&id) || self.holds_url(url) {
            return Err(Error::DuplicateKey);
        }
        self.rows.insert(id, RawEntry { url: String::from_str(url), json: String::from_str(json) });
        assert(self@ =~= old(self)@.insert(id, (url@, json@)));
        Ok(())
    }

    /// The cached payload of post `id`; fails with `NotFound` when there is none.
    pub fn get_json(&self, id: u64) -> (r: Result<String, Error>)
        ensures
            match r {
                Ok(j) => self@.contains_key(id) && j@ == self@[id].1,
                Err(e) => !self@.contains_key(id) && e.fault() == Fault::NotFound,
            },
    {
        match self.rows.get(&id) {
            Some(e) => Ok(e.json.clone()),
            None => Err(Error::NotFound),
        }
    }

    /// Evicts the payload of post `id`, if any.
    pub fn remove(&mut self, id: u64) -> (r: Result<(), Error>)
        ensures
            final(self)@ == old(self)@.remove(id),
            r is Ok,
    {
        self.rows.remove(&id);
        assert(self@ =~= old(self)@.remove(id));
        Ok(())
    }
}

/// A payload that was cached (its id and URL were free) is found again, a
/// second insert of the same id fails
/// without changing the cache, and after an eviction it is gone.
pub proof fn lemma_raw_cache_laws(v: RawCacheView, id: u64, url: Seq<char>, json: Seq<char>, url2: Seq<char>, json2: Seq<char>)
    requires
        !raw_collides(v, id, url),
    ensures
        raw_after_insert(v, id, url, json).contains_key(id),
        raw_collides(raw_after_insert(v, id, url, json), id, url2),
        raw_after_insert(raw_after_insert(v, id, url, json), id, url2, json2) == raw_after_insert(v, id, url, json),
        !raw_after_insert(v, id, url, json).remove(id).contains_key(id),
{
    assert(v.insert(id, (url, json)).contains_key(id));
}

/// The terminal failure recorded for a post.
pub struct FailRow {
    pub url: String,
    pub reason: TweetFailReason,
}

/// The tweet store. A post id has a post row or a failure row, never both;
/// media ids and media URLs are unique.
pub struct TweetDB {
    tweets: HashMap<u64, Tweet>,
    medias: Vec<Media>,
    threads: HashMap<u64, ThreadInfo>,
    fails: HashMap<u64, FailRow>,
}

/// What the tweet store holds.
pub struct TweetDBView {
    pub tweets: Map<u64, Tweet>,
    pub medias: Seq<Media>,
    pub threads: Map<u64, ThreadInfo>,
    pub fails: Map<u64, (Seq<char>, TweetFailReason)>,
}

pub open spec fn media_clashes(medias: Seq<Media>, m: Media) -> bool {
    exists|i: int| 0 <= i < medias.len() && ((#[trigger] medias[i]).id@ == m.id@ || medias[i].url@ == m.url@)
}

/// The media rows of post `id`, in the order they were stored.
pub open spec fn medias_of(medias: Seq<Media>, id: u64) -> Seq<Media>
    decreases medias.len(),
{
    if medias.len() == 0 {
        Seq::empty()
    } else if medias.last().tweet_id == id {
        medias_of(medias.drop_last(), id).push(medias.last())
    } else {
        medias_of(medias.drop_last(), id)
    }
}

/// Post `id` is already processed: it has a post row or a failure row.
pub open spec fn processed(v: TweetDBView, id: u64) -> bool {
    v.tweets.contains_key(id) || v.fails.contains_key(id)
}

pub open spec fn after_insert_tweet(v: TweetDBView, t: Tweet) -> TweetDBView {
    if processed(v, t.id) {
        v
    } else {
        TweetDBView { tweets: v.tweets.insert(t.id, t), ..v }
    }
}

pub open spec fn after_insert_media(v: TweetDBView, m: Media) -> TweetDBView {
    if media_clashes(v.medias, m) {
        v
    } else {
        TweetDBView { medias: v.medias.push(m), ..v }
    }
}

pub open spec fn after_insert_thread(v: TweetDBView, t: ThreadInfo) -> TweetDBView {
    if v.threads.contains_key(t.tweet_id) {
        v
    } else {
        TweetDBView { threads: v.threads.insert(t.tweet_id, t), ..v }
    }
}

pub open spec fn after_insert_fail(v: TweetDBView, id: u64, url: Seq<char>, reason: TweetFailReason) -> TweetDBView {
    if processed(v, id) {
        v
    } else {
        TweetDBView { fails: v.fails.insert(id, (url, reason)), ..v }
    }
}

pub open spec fn db_wf(v: TweetDBView) -> bool {
    &&& forall|k: u64| #[trigger] v.tweets.contains_key(k) ==> !v.fails.contains_key(k) && v.tweets[k].id == k
    &&& forall|i: int, j: int| 0 <= i < j < v.medias.len() ==> (#[trigger] v.medias[i]).id@ != (#[trigger] v.medias[j]).id@
        && v.medias[i].url@ != v.medias[j].url@
}

fn copy_tweet(t: &Tweet) -> (r: Tweet)
    ensures
        r == *t,
{
    Tweet { id: t.id, author: t.author.clone(), content: t.content.clone(), create_time: t.create_time }
}

fn copy_media(m: &Media) -> (r: Media)
    ensures
        r == *m,
{
    Media {
        id: m.id.clone(),
        tweet_id: m.tweet_id,
        url: m.url.clone(),
        width: m.width,
        height: m.height,
        no: m.no,
        _type: m._type.clone(),
    }
}

impl View for TweetDB {
    type V = TweetDBView;

    closed spec fn view(&self) -> TweetDBView {
        TweetDBView {
            tweets: self.tweets@,
            medias: self.medias@,
            threads: self.threads@,
            fails: Map::new(|k: u64| self.fails@.contains_key(k), |k: u64| (self.fails@[k].url@, self.fails@[k].reason)),
        }
    }
}

impl TweetDB {
    pub open spec fn wf(&self) -> bool {
        db_wf(self@)
    }

    pub fn new() -> (r: Self)
        ensures
            r.wf(),
            r@.tweets == Map::<u64, Tweet>::empty(),
            r@.medias == Seq::<Media>::empty(),
            r@.threads == Map::<u64, ThreadInfo>::empty(),
            r@.fails == Map::<u64, (Seq<char>, TweetFailReason)>::empty(),
    {
        let r = TweetDB { tweets: HashMap::new(), medias: Vec::new(), threads: HashMap::new(), fails: HashMap::new() };
        assert(r@.fails =~= Map::<u64, (Seq<char>, TweetFailReason)>::empty());
        r
    }

    /// Whether post `id` has a post row or a failure row.
    pub fn is_exist(&self, id: u64) -> (r: bool)
        ensures
            r == processed(self@, id),
    {
        self.tweets.contains_key(&id) || self.fails.contains_key(&id)
    }

    /// Stores a post row; an already processed id is left as it is. Returns
    /// whether a row was added.
    pub fn insert_tweet(&mut self, tweet: &Tweet) -> (r: bool)
        requires
            old(self).wf(),
        ensures
            final(self).wf(),
            final(self)@ == after_insert_tweet(old(self)@, *tweet),
            r == !processed(old(self)@, tweet.id),
    {
        if self.is_exist(tweet.id) {
            return false;
        }
        self.tweets.insert(tweet.id, copy_tweet(tweet));
        assert(self@.fails =~= old(self)@.fails);
        assert(self@.medias == old(self)@.medias);
        assert forall|k: u64| #[trigger] self@.tweets.contains_key(k) implies !self@.fails.contains_key(k)
            && self@.tweets[k].id == k by {
            if k != tweet.id {
                assert(old(self)@.tweets.contains_key(k));
            }
        }
        true
    }

    /// The post row of post `id`; for a post recorded as a terminal failure,
    /// the error of that failure; otherwise a `CustomError`.
    pub fn get_tweet(&self, id: u64) -> (r: Result<Tweet, Error>)
        ensures
            match r {
                Ok(t) => self@.tweets.contains_key(id) && t == self@.tweets[id],
                Err(e) => !self@.tweets.contains_key(id) && if self@.fails.contains_key(id) {
                    e.fault() == self@.fails[id].1.error_fault()
                } else {
                    e.fault() == Fault::Custom("Not exists in TwDB."@)
                },
            },
    {
        match self.tweets.get(&id) {
            Some(t) => Ok(copy_tweet(t)),
            None => match self.fails.get(&id) {
                Some(f) => Err(Error::from(f.reason)),
                None => Err(Error::CustomError { msg: String::from_str("Not exists in TwDB.") }),
            },
        }
    }

    /// Stores a media row unless its id or URL is already stored. Returns
    /// whether a row was added.
    pub fn insert_media(&mut self, media: &Media) -> (r: bool)
        requires
            old(self).wf(),
        ensures
            final(self).wf(),
            final(self)@ == after_insert_media(old(self)@, *media),
            r == !media_clashes(old(self)@.medias, *media),
    {
        let mut i: usize = 0;
        while i < self.medias.len()
            invariant
                self@ == old(self)@,
                self.wf(),
                i <= self.medias@.len(),
                forall|k: int| 0 <= k < i ==> (#[trigger] self.medias@[k]).id@ != media.id@ && self.medias@[k].url@
                    != media.url@,
            decreases self.medias.len() - i,
        {
            if str_eq(self.medias[i].id.as_str(), media.id.as_str()) || str_eq(
                self.medias[i].url.as_str(),
                media.url.as_str(),
            ) {
                assert(media_clashes(self@.medias, *media)) by {
                    assert(self@.medias[i as int] == self.medias@[i as int]);
                }
                return false;
            }
            i = i + 1;
        }
        let ghost before = self.medias@;
        assert(forall|k: int| 0 <= k < before.len() ==> (#[trigger] before[k]).id@ != media.id@ && before[k].url@ != media.url@);
        self.medias.push(copy_media(media));
        assert(self.medias@ == before.push(*media));
        assert(self@.tweets == old(self)@.tweets);
        assert(self@.fails =~= old(self)@.fails);
        assert forall|a: int, b: int| 0 <= a < b < self@.medias.len() implies (#[trigger] self@.medias[a]).id@
            != (#[trigger] self@.medias[b]).id@ && self@.medias[a].url@ != self@.medias[b].url@ by {
            if b == before.len() {
                assert(self@.medias[a] == before[a]);
                assert(self@.medias[b] == *media);
                assert(before[a].id@ != media.id@ && before[a].url@ != media.url@);
            } else {
                assert(self@.medias[a] == before[a] && self@.medias[b] == before[b]);
                assert(old(self)@.medias[a] == before[a] && old(self)@.medias[b] == before[b]);
            }
        }
        true
    }

    /// The media rows of post `tweet_id`, in the order they were stored.
    pub fn get_medias(&self, tweet_id: u64) -> (r: Vec<Media>)
        ensures
            r@ == medias_of(self@.medias, tweet_id),
    {
        let mut out: Vec<Media> = Vec::new();
        let mut i: usize = 0;
        while i < self.medias.len()
            invariant
                i <= self.medias@.len(),
                out@ == medias_of(self.medias@.subrange(0, i as int), tweet_id),
            decreases self.medias.len() - i,
        {
            let ghost pre = self.medias@.subrange(0, i as int + 1);
            assert(pre.drop_last() =~= self.medias@.subrange(0, i as int));
            assert(pre.last() == self.medias@[i as int]);
            if self.medias[i].tweet_id == tweet_id {
                out.push(copy_media(&self.medias[i]));
            }
            i = i + 1;
        }
        assert(self.medias@.subrange(0, self.medias@.len() as int) =~= self.medias@);
        out
    }

    /// Stores a thread edge unless the post already has one. Returns whether
    /// an edge was added.
    pub fn insert_thread(&mut self, thread_info: &ThreadInfo) -> (r: bool)
        requires
            old(self).wf(),
        ensures
            final(self).wf(),
            final(self)@ == after_insert_thread(old(self)@, *thread_info),
            r == !old(self)@.threads.contains_key(thread_info.tweet_id),
    {
        if self.threads.contains_key(&thread_info.tweet_id) {
            return false;
        }
        self.threads.insert(thread_info.tweet_id, *thread_info);
        assert(self@.fails =~= old(self)@.fails);
        assert(self@.tweets == old(self)@.tweets);
        assert(self@.medias == old(self)@.medias);
        true
    }

    /// Records the terminal failure of the post that `url` refers to, unless
    /// the post is already processed. Returns whether a row was added; fails
    /// with `NotATweet` when the URL refers to no post.
    pub fn insert_fail(&mut self, url: &str, reason: TweetFailReason) -> (r: Result<bool, Error>)
        requires
            old(self).wf(),
        ensures
            final(self).wf(),
            match post_ref(url@) {
                None => r matches Err(e) && e.fault() == Fault::NotATweet && final(self)@ == old(self)@,
                Some((_, id)) => r == Ok::<bool, Error>(!processed(old(self)@, id))
                    && final(self)@ == after_insert_fail(old(self)@, id, url@, reason),
            },
    {
        let id = match extract_twitter_url(url) {
            Some((_, id)) => id,
            None => return Err(Error::NotATweet),
        };
        if self.is_exist(id) {
            return Ok(false);
        }
        self.fails.insert(id, FailRow { url: String::from_str(url), reason });
        assert(self@.fails =~= old(self)@.fails.insert(id, (url@, reason)));
        assert(self@.tweets == old(self)@.tweets);
        assert(self@.medias == old(self)@.medias);
        Ok(true)
    }
}

/// Storing the same post twice leaves one row, the one stored first.
pub proof fn lemma_insert_tweet_idempotent(v: TweetDBView, t: Tweet)
    ensures
        after_insert_tweet(after_insert_tweet(v, t), t) == after_insert_tweet(v, t),
        processed(after_insert_tweet(v, t), t.id),
{
}

/// Storing the same media row twice leaves it stored once.
pub proof fn lemma_insert_media_idempotent(v: TweetDBView, m: Media)
    ensures
        after_insert_media(after_insert_media(v, m), m) == after_insert_media(v, m),
{
    if !media_clashes(v.medias, m) {
        let w = v.medias.push(m);
        assert(w[w.len() - 1] == m);
        assert(media_clashes(w, m));
    }
}

/// Storing the same thread edge or failure twice changes nothing the second time.
pub proof fn lemma_insert_edge_and_fail_idempotent(v: TweetDBView, t: ThreadInfo, id: u64, url: Seq<char>, reason: TweetFailReason)
    ensures
        after_insert_thread(after_insert_thread(v, t), t) == after_insert_thread(v, t),
        after_insert_fail(after_insert_fail(v, id, url, reason), id, url, reason) == after_insert_fail(v, id, url, reason),
{
}

} // verus!
