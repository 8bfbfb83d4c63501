//! URL registry: post references inside URLs and URL lists.
use vstd::prelude::*;
use crate::text::{
    decimal_digits, decimal_of, digits_end, find_from, first_at, is_digit, lemma_decimal_digits,
    lemma_digits_end_all, lemma_digits_end_at, lemma_digits_end_bounds, lemma_first_at_found, lemma_first_at_is,
    lemma_seq_less_total, lemma_seq_less_transitive, occurs_at, parse_decimal, scan_digits, seq_less,
    str_less,
};

verus! {

pub open spec fn url_prefix() -> Seq<char> {
    "https://twitter.com/"@
}

pub open spec fn status_marker() -> Seq<char> {
    "/status/"@
}

pub open spec fn analytics_user_prefix() -> Seq<char> {
    "https://analytics.twitter.com/user/"@
}

/// Where the author handle of a post URL starts, or a negative number when
/// the URL prefix does not occur.
pub open spec fn author_start(s: Seq<char>) -> int {
    let p = first_at(s, url_prefix(), 0);
    if p < 0 {
        -1
    } else {
        p + url_prefix().len()
    }
}

/// The position of the status marker that ends the author handle.
pub open spec fn marker_at(s: Seq<char>) -> int {
    if author_start(s) < 0 {
        -1
    } else {
        first_at(s, status_marker(), author_start(s))
    }
}

/// Where the post id digits start.
pub open spec fn id_start(s: Seq<char>) -> int {
    marker_at(s) + status_marker().len()
}

/// The author handle and post id that a URL refers to: the text between the
/// first `https://twitter.com/` and the next `/status/`, and the maximal run
/// of ASCII digits right after it, read as a `u64`. Only that first
/// `/status/` is looked at: a URL whose first one is not followed by digits
/// refers to no post, even if a later one is.
pub open spec fn post_ref(s: Seq<char>) -> Option<(Seq<char>, u64)> {
    if marker_at(s) < 0 {
        None
    } else {
        match decimal_of(s.subrange(id_start(s), digits_end(s, id_start(s)))) {
            Some(n) => Some((s.subrange(author_start(s), marker_at(s)), n)),
            None => None,
        }
    }
}

/// An ASCII word character.
pub open spec fn is_word_char(c: char) -> bool {
    ('a' <= c && c <= 'z') || ('A' <= c && c <= 'Z') || is_digit(c) || c == '_'
}

/// The canonical post URL that a line of a URL list holds: from the first URL
/// prefix through the non-empty run of ASCII id digits after the next
/// `/status/`, provided the run ends the line or is followed by a character
/// that is not an ASCII letter or `_`. Only the first prefix and the first
/// `/status/` after it are looked at; a non-ASCII letter after the digits
/// counts as a boundary.
pub open spec fn line_post_url(s: Seq<char>) -> Option<Seq<char>> {
    if marker_at(s) < 0 {
        None
    } else {
        let d = id_start(s);
        let e = digits_end(s, d);
        if e > d && (e == s.len() || !is_word_char(s[e])) {
            Some(s.subrange(first_at(s, url_prefix(), 0), e))
        } else {
            None
        }
    }
}

/// The canonical URL of post `id` by `author`.
pub open spec fn canonical_url(author: Seq<char>, id: u64) -> Seq<char> {
    url_prefix() + author + status_marker() + decimal_digits(id as nat)
}

/// A handle is one path segment: it holds no `/`.
pub open spec fn valid_handle(author: Seq<char>) -> bool {
    forall|i: int| 0 <= i < author.len() ==> author[i] != '/'
}

pub open spec fn strictly_sorted(v: Seq<String>) -> bool {
    forall|i: int, j: int| 0 <= i < j < v.len() ==> seq_less(#[trigger] v[i]@, #[trigger] v[j]@)
}

pub open spec fn holds_view(v: Seq<String>, u: Seq<char>) -> bool {
    exists|i: int| 0 <= i < v.len() && #[trigger] v[i]@ == u
}

/// No `/status/` starts inside the handle once the marker follows it.
pub open spec fn marker_free(author: Seq<char>) -> bool {
    forall|i: int| 0 <= i < author.len() ==> !occurs_at(author + status_marker(), status_marker(), i)
}

/// Text after the id that does not extend it: empty, or starting with a non-digit.
pub open spec fn ends_id(sfx: Seq<char>) -> bool {
    sfx.len() == 0 || !is_digit(sfx[0])
}

/// Extracting the reference from a canonical URL, with or without trailing
/// text such as a query string, gives back the author and the id it was
/// written from.
#[verifier::rlimit(100)]
pub proof fn lemma_post_ref_round_trip(author: Seq<char>, id: u64, sfx: Seq<char>)
    requires
        marker_free(author),
        ends_id(sfx),
    ensures
        post_ref(canonical_url(author, id) + sfx) == Some((author, id)),
{
    let c = canonical_url(author, id);
    let s = c + sfx;
    let pl = url_prefix().len();
    let ml = status_marker().len();
    let digits = decimal_digits(id as nat);
    lemma_decimal_digits(id as nat);
    assert(s.subrange(0, pl as int) =~= url_prefix());
    lemma_first_at_is(s, url_prefix(), 0, 0);
    let a = pl as int;
    let q = a + author.len();
    let am = author + status_marker();
    assert(s.subrange(q, q + ml) =~= status_marker());
    assert forall|i: int| a <= i < q implies !occurs_at(s, status_marker(), i) by {
        let j = i - a;
        assert(!occurs_at(am, status_marker(), j));
        if occurs_at(s, status_marker(), i) {
            assert(s.subrange(i, i + ml) =~= am.subrange(j, j + ml));
        }
    }
    lemma_first_at_is(s, status_marker(), a, q);
    let d = q + ml;
    let e = d + digits.len();
    assert forall|i: int| d <= i < e implies is_digit(#[trigger] s[i]) by {
        assert(s[i] == digits[i - d]);
    }
    if e < s.len() {
        assert(s[e] == sfx[0]);
    }
    lemma_digits_end_at(s, d, e);
    assert(s.subrange(d, e) =~= digits);
    assert(s.subrange(a, q) =~= author);
}

/// A handle without `/` is marker-free.
pub proof fn lemma_plain_handle_marker_free(author: Seq<char>)
    requires
        valid_handle(author),
    ensures
        marker_free(author),
{
    reveal_strlit("/status/");
    assert forall|i: int| 0 <= i < author.len() implies !occurs_at(author + status_marker(), status_marker(), i) by {
        if occurs_at(author + status_marker(), status_marker(), i) {
            assert((author + status_marker()).subrange(i, i + 8)[0] == author[i]);
        }
    }
}

/// The author handle and post id of a post URL.
pub fn extract_twitter_url(url: &str) -> (r: Option<(&str, u64)>)
    ensures
        match r {
            Some((name, id)) => post_ref(url@) == Some((name@, id)),
            None => post_ref(url@) is None,
        },
{
    match locate_post_ref(url) {
        Some((a, q, d, e)) => match parse_decimal(url, d, e) {
            Some(n) => Some((url.substring_char(a, q), n)),
            None => None,
        },
        None => None,
    }
}

/// The positions of the author handle and of the id digits of a post URL.
fn locate_post_ref(url: &str) -> (r: Option<(usize, usize, usize, usize)>)
    ensures
        match r {
            Some((a, q, d, e)) => {
                &&& marker_at(url@) >= 0
                &&& a == author_start(url@)
                &&& q == marker_at(url@)
                &&& d == id_start(url@)
                &&& e == digits_end(url@, d as int)
                &&& a <= q <= d <= e <= url@.len()
            },
            None => marker_at(url@) < 0,
        },
{
    let prefix = "https://twitter.com/";
    let marker = "/status/";
    let _len = url.unicode_len();
    match find_from(url, prefix, 0) {
        None => None,
        Some(p) => {
            proof {
                lemma_first_at_found(url@, prefix@, 0);
            }
            let a = p + prefix.unicode_len();
            match find_from(url, marker, a) {
                None => None,
                Some(q) => {
                    proof {
                        lemma_first_at_found(url@, marker@, a as int);
                    }
                    let d = q + marker.unicode_len();
                    let e = scan_digits(url, d);
                    proof {
                        lemma_digits_end_bounds(url@, d as int);
                    }
                    Some((a, q, d, e))
                },
            }
        },
    }
}

/// The canonical post URL held by one line of a URL list.
pub fn extract_line_url(line: &str) -> (r: Option<String>)
    ensures
        match r {
            Some(u) => line_post_url(line@) == Some(u@),
            None => line_post_url(line@) is None,
        },
{
    match locate_post_ref(line) {
        None => None,
        Some((a, q, d, e)) => {
            let len = line.unicode_len();
            if e > d && (e == len || !is_word(line.get_char(e))) {
                let start = a - "https://twitter.com/".unicode_len();
                Some(line.substring_char(start, e).to_string())
            } else {
                None
            }
        },
    }
}

fn is_word(c: char) -> (r: bool)
    ensures
        r == is_word_char(c),
{
    ('a' <= c && c <= 'z') || ('A' <= c && c <= 'Z') || ('0' <= c && c <= '9') || c == '_'
}

/// Inserts `x` into a strictly sorted list unless it is already there.
fn insert_sorted(v: &mut Vec<String>, x: String)
    requires
        strictly_sorted(old(v)@),
    ensures
        strictly_sorted(final(v)@),
        forall|u: Seq<char>| holds_view(final(v)@, u) <==> (holds_view(old(v)@, u) || u == x@),
{
    let mut i: usize = 0;
    while i < v.len()
        invariant
            v@ == old(v)@,
            strictly_sorted(v@),
            i <= v.len(),
            forall|k: int| 0 <= k < i ==> seq_less(#[trigger] v@[k]@, x@),
        ensures
            v@ == old(v)@,
            i <= v.len(),
            forall|k: int| 0 <= k < i ==> seq_less(#[trigger] v@[k]@, x@),
            i < v.len() ==> !seq_less(v@[i as int]@, x@),
        decreases v.len() - i,
    {
        if !str_less(v[i].as_str(), x.as_str()) {
            break;
        }
        i = i + 1;
    }
    if i < v.len() && !str_less(x.as_str(), v[i].as_str()) {
        proof {
            lemma_seq_less_total(x@, v@[i as int]@);
        }
        assert forall|u: Seq<char>| holds_view(v@, u) <==> (holds_view(old(v)@, u) || u == x@) by {
            if u == x@ {
                assert(v@[i as int]@ == u);
            }
        }
        return;
    }
    proof {
        if i < v.len() {
            lemma_seq_less_total(x@, v@[i as int]@);
        }
    }
    let ghost before = v@;
    proof {
        assert forall|m: int| i <= m < before.len() implies seq_less(x@, #[trigger] before[m]@) by {
            if m > i {
                lemma_seq_less_transitive(x@, before[i as int]@, before[m]@);
            }
        }
    }
    v.insert(i, x);
    proof {
        let after = v@;
        assert(after == before.insert(i as int, x));
        assert forall|j: int, k: int| 0 <= j < k < after.len() implies seq_less(
            #[trigger] after[j]@,
            #[trigger] after[k]@,
        ) by {
            if k < i {
            } else if k == i {
            } else if j < i {
                assert(after[k] == before[k - 1]);
                lemma_seq_less_transitive(after[j]@, x@, after[k]@);
            } else if j == i {
                assert(after[k] == before[k - 1]);
            } else {
                assert(after[k] == before[k - 1]);
                assert(after[j] == before[j - 1]);
            }
        }
        assert forall|u: Seq<char>| holds_view(after, u) <==> (holds_view(before, u) || u == x@) by {
            if holds_view(before, u) {
                let w = choose|w: int| 0 <= w < before.len() && #[trigger] before[w]@ == u;
                if w < i {
                    assert(after[w]@ == u);
                } else {
                    assert(after[w + 1]@ == u);
                }
            }
            if u == x@ {
                assert(after[i as int]@ == u);
            }
            if holds_view(after, u) {
                let w = choose|w: int| 0 <= w < after.len() && #[trigger] after[w]@ == u;
                if w < i {
                    assert(before[w]@ == u);
                } else if w > i {
                    assert(before[w - 1]@ == u);
                }
            }
        }
    }
}

/// The canonical post URLs found in the lines of a URL list, sorted and
/// without repeats; lines without one are dropped.
pub fn collect_url_list(lines: &Vec<String>) -> (r: Vec<String>)
    ensures
        strictly_sorted(r@),
        forall|u: Seq<char>|
            holds_view(r@, u) <==> exists|k: int|
                0 <= k < lines@.len() && line_post_url(#[trigger] lines@[k]@) == Some(u),
{
    let mut out: Vec<String> = Vec::new();
    let mut k: usize = 0;
    while k < lines.len()
        invariant
            k <= lines.len(),
            strictly_sorted(out@),
            forall|u: Seq<char>|
                holds_view(out@, u) <==> exists|j: int|
                    0 <= j < k && line_post_url(#[trigger] lines@[j]@) == Some(u),
        decreases lines.len() - k,
    {
        let found = extract_line_url(lines[k].as_str());
        let ghost prev = out@;
        match found {
            Some(u) => {
                insert_sorted(&mut out, u);
            },
            None => {},
        }
        proof {
            assert forall|u: Seq<char>|
                holds_view(out@, u) <==> exists|j: int|
                    0 <= j < k + 1 && line_post_url(#[trigger] lines@[j]@) == Some(u) by {
                if exists|j: int| 0 <= j < k + 1 && line_post_url(#[trigger] lines@[j]@) == Some(u) {
                    let j = choose|j: int|
                        0 <= j < k + 1 && line_post_url(#[trigger] lines@[j]@) == Some(u);
                    if j < k {
                        assert(holds_view(prev, u));
                    }
                }
                if holds_view(prev, u) {
                    let j = choose|j: int|
                        0 <= j < k && line_post_url(#[trigger] lines@[j]@) == Some(u);
                    assert(0 <= j < k + 1);
                }
            }
        }
        k = k + 1;
    }
    out
}

/// The user name in an analytics page URL: the text after the first
/// `https://analytics.twitter.com/user/` up to the next `/`.
pub open spec fn analytics_user(s: Seq<char>) -> Option<Seq<char>> {
    let p = first_at(s, analytics_user_prefix(), 0);
    if p < 0 {
        None
    } else {
        let a = p + analytics_user_prefix().len();
        let q = first_at(s, seq!['/'], a);
        if q < 0 {
            None
        } else {
            Some(s.subrange(a, q))
        }
    }
}

/// The user name that an analytics page URL names, if it names one.
pub fn username_from_analytics_url(url: &str) -> (r: Option<String>)
    ensures
        match r {
            Some(u) => analytics_user(url@) == Some(u@),
            None => analytics_user(url@) is None,
        },
{
    let prefix = "https://analytics.twitter.com/user/";
    let slash = "/";
    let _len = url.unicode_len();
    proof {
        reveal_strlit("/");
        assert(slash@ =~= seq!['/']);
    }
    match find_from(url, prefix, 0) {
        None => None,
        Some(p) => {
            proof {
                lemma_first_at_found(url@, prefix@, 0);
            }
            let a = p + prefix.unicode_len();
            match find_from(url, slash, a) {
                None => None,
                Some(q) => {
                    proof {
                        lemma_first_at_found(url@, slash@, a as int);
                    }
                    Some(url.substring_char(a, q).to_string())
                },
            }
        },
    }
}

} // verus!
