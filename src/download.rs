//! Media download queue: file names, download tasks, and the rounds that
//! retry failed downloads and set permanently missing ones aside.
use vstd::prelude::*;
use crate::error::opt_view;

verus! {

/// The last `/` in `s`, or -1.
pub open spec fn last_slash(s: Seq<char>) -> int
    decreases s.len(),
{
    if s.len() == 0 {
        -1
    } else if s.last() == '/' {
        s.len() - 1
    } else {
        last_slash(s.drop_last())
    }
}

/// The first `?` at or after `from`, or the end of `s`.
pub open spec fn query_start(s: Seq<char>, from: int) -> int
    decreases s.len() - from,
{
    if from < 0 || from >= s.len() {
        s.len() as int
    } else if s[from] == '?' {
        from
    } else {
        query_start(s, from + 1)
    }
}

/// The file name of a URL: what follows its last `/`, up to the query
/// string; empty when the URL holds no `/`.
pub open spec fn file_name(s: Seq<char>) -> Seq<char> {
    let ls = last_slash(s);
    if ls < 0 {
        Seq::empty()
    } else {
        s.subrange(ls + 1, query_start(s, ls + 1))
    }
}

pub open spec fn ends_with(s: Seq<char>, suffix: Seq<char>) -> bool {
    s.len() >= suffix.len() && s.subrange(s.len() - suffix.len(), s.len() as int) == suffix
}

/// A media URL asks for the original quality unless it is a video or
/// already carries a query.
pub open spec fn need_orig(s: Seq<char>) -> bool {
    let ls = last_slash(s);
    ls >= 0 && !ends_with(file_name(s), ".mp4"@) && s.len() - query_start(s, ls + 1) <= 1
}

fn find_last_slash(s: &str) -> (r: Option<usize>)
    ensures
        match r {
            Some(i) => i == last_slash(s@) && i < s@.len(),
            None => last_slash(s@) < 0,
        },
{
    let len = s.unicode_len();
    let mut i: usize = len;
    assert(s@.subrange(0, len as int) =~= s@);
    while i > 0
        invariant
            len == s@.len(),
            i <= len,
            last_slash(s@) == last_slash(s@.subrange(0, i as int)),
        decreases i,
    {
        let ghost pre = s@.subrange(0, i as int);
        assert(pre.drop_last() =~= s@.subrange(0, i - 1));
        if s.get_char(i - 1) == '/' {
            return Some(i - 1);
        }
        i = i - 1;
    }
    None
}

fn find_query(s: &str, from: usize) -> (r: usize)
    requires
        from <= s@.len(),
    ensures
        r == query_start(s@, from as int),
        from <= r <= s@.len(),
{
    let len = s.unicode_len();
    let mut i: usize = from;
    while i < len
        invariant
            len == s@.len(),
            from <= i <= len,
            query_start(s@, from as int) == query_start(s@, i as int),
        decreases len - i,
    {
        if s.get_char(i) == '?' {
            return i;
        }
        i = i + 1;
    }
    i
}

/// The file name of a media URL.
pub fn extract_fn(url: &str) -> (r: &str)
    ensures
        r@ == file_name(url@),
{
    let _len = url.unicode_len();
    match find_last_slash(url) {
        None => {
            let e = url.substring_char(0, 0);
            assert(e@ =~= Seq::<char>::empty());
            e
        },
        Some(ls) => {
            let q = find_query(url, ls + 1);
            url.substring_char(ls + 1, q)
        },
    }
}

fn ends_with_str(s: &str, suffix: &str) -> (r: bool)
    ensures
        r == ends_with(s@, suffix@),
{
    let slen = s.unicode_len();
    let flen = suffix.unicode_len();
    if flen > slen {
        return false;
    }
    let tail = s.substring_char(slen - flen, slen);
    crate::text::str_eq(tail, suffix)
}

/// Whether the original-quality query should be added to a media URL.
pub fn is_need_orig(url: &str) -> (r: bool)
    ensures
        r == need_orig(url@),
{
    let _len = url.unicode_len();
    match find_last_slash(url) {
        None => false,
        Some(ls) => {
            let q = find_query(url, ls + 1);
            let name = url.substring_char(ls + 1, q);
            !ends_with_str(name, ".mp4") && url.unicode_len() - q <= 1
        },
    }
}

/// One media file to download into `path`, relative to the destination.
pub struct DownloadTask {
    pub url: String,
    pub path: String,
    pub filename: Option<String>,
}

pub open spec fn task_view(t: DownloadTask) -> (Seq<char>, Seq<char>, Option<Seq<char>>) {
    (t.url@, t.path@, opt_view(t.filename))
}

/// The URL to download for a stored media URL.
pub open spec fn download_url(url: Seq<char>) -> Seq<char> {
    if need_orig(url) {
        url + "?name=orig"@
    } else {
        url
    }
}

/// The task that downloads a stored media URL of `author` into the author's folder.
pub fn make_task(author: &str, url: &str) -> (r: DownloadTask)
    ensures
        r.url@ == download_url(url@),
        r.path@ == author@,
        r.filename matches Some(f) && f@ == file_name(download_url(url@)),
{
    let full = if is_need_orig(url) {
        let mut s = String::from_str(url);
        s.append("?name=orig");
        s
    } else {
        String::from_str(url)
    };
    let name = String::from_str(extract_fn(full.as_str()));
    DownloadTask { url: full, path: String::from_str(author), filename: Some(name) }
}

/// How a download of one task failed.
pub struct DownloadFailure {
    pub task: DownloadTask,
    /// The resource is permanently absent.
    pub missing: bool,
}

pub open spec fn retried(fs: Seq<DownloadFailure>) -> Seq<(Seq<char>, Seq<char>, Option<Seq<char>>)>
    decreases fs.len(),
{
    if fs.len() == 0 {
        Seq::empty()
    } else if fs.last().missing {
        retried(fs.drop_last())
    } else {
        retried(fs.drop_last()).push(task_view(fs.last().task))
    }
}

pub open spec fn set_aside(fs: Seq<DownloadFailure>) -> Seq<(Seq<char>, Seq<char>, Option<Seq<char>>)>
    decreases fs.len(),
{
    if fs.len() == 0 {
        Seq::empty()
    } else if fs.last().missing {
        set_aside(fs.drop_last()).push(task_view(fs.last().task))
    } else {
        set_aside(fs.drop_last())
    }
}

pub open spec fn task_views(ts: Seq<DownloadTask>) -> Seq<(Seq<char>, Seq<char>, Option<Seq<char>>)> {
    ts.map_values(|t: DownloadTask| task_view(t))
}

/// The tasks still to download and those set aside for good.
pub struct DownloadQueue {
    pub pending: Vec<DownloadTask>,
    pub unrecoverable: Vec<DownloadTask>,
}

impl DownloadQueue {
    pub fn new(tasks: Vec<DownloadTask>) -> (r: Self)
        ensures
            r.pending@ == tasks@,
            r.unrecoverable@.len() == 0,
    {
        DownloadQueue { pending: tasks, unrecoverable: Vec::new() }
    }

    /// No task is left to download.
    pub fn is_finished(&self) -> (r: bool)
        ensures
            r == (self.pending@.len() == 0),
    {
        self.pending.len() == 0
    }

    /// Hands out the tasks of the next round.
    pub fn take_round(&mut self) -> (r: Vec<DownloadTask>)
        ensures
            r@ == old(self).pending@,
            final(self).pending@.len() == 0,
            final(self).unrecoverable@ == old(self).unrecoverable@,
    {
        let mut out: Vec<DownloadTask> = Vec::new();
        std::mem::swap(&mut out, &mut self.pending);
        out
    }

    /// Takes the failures of a round: missing resources are set aside, the
    /// other failed tasks make up the next round.
    pub fn end_round(&mut self, failures: Vec<DownloadFailure>)
        ensures
            task_views(final(self).pending@) == task_views(old(self).pending@) + retried(failures@),
            task_views(final(self).unrecoverable@) == task_views(old(self).unrecoverable@) + set_aside(failures@),
    {
        let ghost fs = failures@;
        let mut rest = failures;
        let ghost p0 = task_views(self.pending@);
        let ghost u0 = task_views(self.unrecoverable@);
        let ghost mut k: int = 0;
        assert(rest@ =~= fs.subrange(0, fs.len() as int));
        assert(fs.subrange(0, 0) =~= Seq::<DownloadFailure>::empty());
        assert(p0 + retried(fs.subrange(0, 0)) =~= p0);
        assert(u0 + set_aside(fs.subrange(0, 0)) =~= u0);
        while rest.len() > 0
            invariant
                0 <= k <= fs.len(),
                rest@ == fs.subrange(k, fs.len() as int),
                task_views(self.pending@) == p0 + retried(fs.subrange(0, k)),
                task_views(self.unrecoverable@) == u0 + set_aside(fs.subrange(0, k)),
            decreases rest.len(),
        {
            let f = rest.remove(0);
            assert(f == fs[k]);
            let ghost pre = fs.subrange(0, k + 1);
            assert(pre.drop_last() =~= fs.subrange(0, k));
            assert(pre.last() == f);
            let ghost pv = task_views(self.pending@);
            let ghost uv = task_views(self.unrecoverable@);
            if f.missing {
                self.unrecoverable.push(f.task);
                assert(task_views(self.unrecoverable@) =~= uv.push(task_view(f.task)));
            } else {
                self.pending.push(f.task);
                assert(task_views(self.pending@) =~= pv.push(task_view(f.task)));
            }
            proof {
                k = k + 1;
            }
            assert(rest@ =~= fs.subrange(k, fs.len() as int));
        }
        assert(fs.subrange(0, fs.len() as int) =~= fs);
    }
}

/// A round whose tasks all succeed or are permanently missing leaves nothing
/// to download; a round never hands back more tasks than failed.
pub proof fn lemma_round_progress(fs: Seq<DownloadFailure>)
    ensures
        (forall|i: int| 0 <= i < fs.len() ==> (#[trigger] fs[i]).missing) ==> retried(fs).len() == 0,
        retried(fs).len() + set_aside(fs).len() == fs.len(),
    decreases fs.len(),
{
    if fs.len() > 0 {
        lemma_round_progress(fs.drop_last());
        if forall|i: int| 0 <= i < fs.len() ==> (#[trigger] fs[i]).missing {
            assert forall|i: int| 0 <= i < fs.drop_last().len() implies (#[trigger] fs.drop_last()[i]).missing by {
                assert(fs.drop_last()[i] == fs[i]);
            }
            assert(fs[fs.len() - 1].missing);
        }
    }
}

/// The line of the failure manifest for a task set aside.
pub open spec fn manifest_line_spec(t: DownloadTask) -> Seq<char> {
    t.url@ + " ==> "@ + t.path@ + "/"@ + match t.filename {
        Some(f) => f@,
        None => Seq::empty(),
    } + "\n"@
}

/// The line of the failure manifest for a task set aside:
/// `<url> ==> <path>/<filename>`.
pub fn manifest_line(t: &DownloadTask) -> (r: String)
    ensures
        r@ == manifest_line_spec(*t),
{
    let mut s = t.url.clone();
    s.append(" ==> ");
    s.append(t.path.as_str());
    s.append("/");
    match &t.filename {
        Some(f) => s.append(f.as_str()),
        None => {},
    }
    s.append("\n");
    proof {
        if t.filename is None {
            assert(t.url@ + " ==> "@ + t.path@ + "/"@ + Seq::<char>::empty() =~= t.url@ + " ==> "@ + t.path@ + "/"@);
        }
    }
    s
}

} // verus!
