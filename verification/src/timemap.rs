//! The timemap of an archived page: the reply of the archive's timemap
//! endpoint, parsed into the original URL, the first and last snapshots, and
//! the dated mementos in between.  Fetching the reply and the clipboard are
//! the caller's; everything here is text.

use vstd::prelude::*;
use vstd::string::StrSliceExecFns;
use crate::headers::Headers;
use crate::strutil::{
    contains_sub, contains_sub_spec, has_prefix, split_by, split_spec, str_eq, strings_of,
    strip_prefix_str,
};

verus! {

/// Whether `c` is one of the characters of `cs`.
pub open spec fn in_set(c: char, cs: Seq<char>) -> bool {
    exists|i: int| 0 <= i < cs.len() && cs[i] == c
}

/// Whether `c` is one of the characters of `cs`.
fn in_set_exec(c: char, cs: &Vec<char>) -> (r: bool)
    ensures
        r == in_set(c, cs@),
{
    let mut i: usize = 0;
    while i < cs.len()
        invariant
            i <= cs@.len(),
            forall|j: int| 0 <= j < i ==> cs@[j] != c,
        decreases cs@.len() - i,
    {
        if cs[i] == c {
            return true;
        }
        i = i + 1;
    }
    false
}

/// How many characters of the set `s` starts with.
pub open spec fn leading_in(s: Seq<char>, cs: Seq<char>) -> int
    decreases s.len(),
{
    if s.len() == 0 {
        0
    } else if in_set(s[0], cs) {
        1 + leading_in(s.drop_first(), cs)
    } else {
        0
    }
}

/// How many characters of the set `s` ends with.
pub open spec fn trailing_in(s: Seq<char>, cs: Seq<char>) -> int
    decreases s.len(),
{
    if s.len() == 0 {
        0
    } else if in_set(s.last(), cs) {
        1 + trailing_in(s.drop_last(), cs)
    } else {
        0
    }
}

/// `s` with every leading and trailing character of the set removed.
pub open spec fn trim_set(s: Seq<char>, cs: Seq<char>) -> Seq<char> {
    let a = leading_in(s, cs);
    if a == s.len() {
        Seq::empty()
    } else {
        s.subrange(a, s.len() - trailing_in(s, cs))
    }
}

/// A scan that stopped at the first character outside the set found exactly
/// `leading_in`.
proof fn lemma_leading_in_at(s: Seq<char>, cs: Seq<char>, i: int)
    requires
        0 <= i <= s.len(),
        forall|j: int| 0 <= j < i ==> in_set(s[j], cs),
        i < s.len() ==> !in_set(s[i], cs),
    ensures
        leading_in(s, cs) == i,
    decreases s.len(),
{
    if s.len() > 0 && i > 0 {
        let t = s.drop_first();
        assert(forall|j: int| 0 <= j < t.len() ==> t[j] == s[j + 1]);
        lemma_leading_in_at(t, cs, i - 1);
    }
}

/// A backward scan that stopped at the last character outside the set found
/// exactly `trailing_in`.
proof fn lemma_trailing_in_at(s: Seq<char>, cs: Seq<char>, b: int)
    requires
        0 <= b <= s.len(),
        forall|j: int| s.len() - b <= j < s.len() ==> in_set(s[j], cs),
        b < s.len() ==> !in_set(s[s.len() - b - 1], cs),
    ensures
        trailing_in(s, cs) == b,
    decreases s.len(),
{
    if s.len() > 0 && b > 0 {
        let t = s.drop_last();
        assert(forall|j: int| 0 <= j < t.len() ==> t[j] == s[j]);
        lemma_trailing_in_at(t, cs, b - 1);
    }
}

/// Removes every leading and trailing character of the set.
#[verifier::loop_isolation(false)]
fn trim_set_str(s: &str, cs: &Vec<char>) -> (r: String)
    ensures
        r@ == trim_set(s@, cs@),
{
    let n = s.unicode_len();
    let mut a: usize = 0;
    while a < n && in_set_exec(s.get_char(a), cs)
        invariant
            n == s@.len(),
            a <= n,
            forall|j: int| 0 <= j < a ==> in_set(s@[j], cs@),
        decreases n - a,
    {
        a = a + 1;
    }
    proof {
        lemma_leading_in_at(s@, cs@, a as int);
    }
    if a == n {
        let r = String::new();
        proof {
            assert(r@ =~= trim_set(s@, cs@));
        }
        return r;
    }
    let mut b: usize = 0;
    while b < n && in_set_exec(s.get_char(n - 1 - b), cs)
        invariant
            n == s@.len(),
            b <= n,
            forall|j: int| n - b <= j < n ==> in_set(s@[j], cs@),
        decreases n - b,
    {
        b = b + 1;
    }
    proof {
        lemma_trailing_in_at(s@, cs@, b as int);
        assert(!in_set(s@[a as int], cs@));
        assert(a < n - b) by {
            if n - b <= a {
                assert(in_set(s@[a as int], cs@));
            }
        }
    }
    s.substring_char(a, n - b).to_owned()
}

/// One dated snapshot of the page.
#[derive(Debug, Clone, PartialEq, Eq)]
pub struct Memento {
    pub url: String,
    pub datetime: String,
}

/// The mathematical image of a memento.
pub struct MementoView {
    pub url: Seq<char>,
    pub datetime: Seq<char>,
}

impl View for Memento {
    type V = MementoView;

    open spec fn view(&self) -> MementoView {
        MementoView { url: self.url@, datetime: self.datetime@ }
    }
}

/// What a timemap reply names: the original page, the timegate, the first
/// and last snapshots, and the mementos in between.
#[derive(Debug, Clone, PartialEq, Eq)]
pub struct Timemap {
    pub original: Option<String>,
    pub timegate: Option<String>,
    pub first: Option<String>,
    pub last: Option<String>,
    pub mementos: Vec<Memento>,
}

/// The mathematical image of a timemap.
pub struct TimemapView {
    pub original: Option<Seq<char>>,
    pub timegate: Option<Seq<char>>,
    pub first: Option<Seq<char>>,
    pub last: Option<Seq<char>>,
    pub mementos: Seq<MementoView>,
}

impl View for Timemap {
    type V = TimemapView;

    open spec fn view(&self) -> TimemapView {
        TimemapView {
            original: match &self.original {
                Some(s) => Some(s@),
                None => None,
            },
            timegate: match &self.timegate {
                Some(s) => Some(s@),
                None => None,
            },
            first: match &self.first {
                Some(s) => Some(s@),
                None => None,
            },
            last: match &self.last {
                Some(s) => Some(s@),
                None => None,
            },
            mementos: Seq::new(self.mementos@.len(), |i: int| self.mementos@[i]@),
        }
    }
}

/// The empty timemap.
pub open spec fn empty_timemap() -> TimemapView {
    TimemapView { original: None, timegate: None, first: None, last: None, mementos: Seq::empty() }
}

/// The value carried by the last part tagged `tag=`, with surrounding
/// quotes removed; `cur` is what earlier parts established.
pub open spec fn tagged_acc(
    cur: Option<Seq<char>>,
    parts: Seq<Seq<char>>,
    tag: Seq<char>,
) -> Option<Seq<char>>
    decreases parts.len(),
{
    if parts.len() == 0 {
        cur
    } else {
        let nxt = if has_prefix(parts[0], tag) {
            Some(
                trim_set(parts[0].subrange(tag.len() as int, parts[0].len() as int), seq!['"']),
            )
        } else {
            cur
        };
        tagged_acc(nxt, parts.drop_first(), tag)
    }
}

/// The timemap after reading one reply entry: the entry is cut at `; `, its
/// first part is the URL in angle brackets, and its `rel=` tag says which
/// slot the URL fills — a `memento` needs its `datetime=` tag too.
pub open spec fn hit_update(tm: TimemapView, hit: Seq<char>) -> TimemapView {
    let parts = split_spec(hit, "; "@);
    let url = trim_set(parts[0], seq!['<', '>']);
    let rel = tagged_acc(None, parts, "rel="@);
    let datetime = tagged_acc(None, parts, "datetime="@);
    match rel {
        None => tm,
        Some(r) => if r == "original"@ {
            TimemapView { original: Some(url), ..tm }
        } else if r == "timegate"@ {
            TimemapView { timegate: Some(url), ..tm }
        } else if contains_sub_spec(r, "first"@) {
            TimemapView { first: Some(url), ..tm }
        } else if contains_sub_spec(r, "last"@) {
            TimemapView { last: Some(url), ..tm }
        } else if r == "memento"@ {
            match datetime {
                Some(d) => TimemapView {
                    mementos: tm.mementos.push(MementoView { url, datetime: d }),
                    ..tm
                },
                None => tm,
            }
        } else {
            tm
        },
    }
}

/// The timemap after reading the entries in order, starting from `tm`.
pub open spec fn parse_acc(tm: TimemapView, hits: Seq<Seq<char>>) -> TimemapView
    decreases hits.len(),
{
    if hits.len() == 0 {
        tm
    } else {
        parse_acc(hit_update(tm, hits[0]), hits.drop_first())
    }
}

/// What a whole reply parses to: empty text gives the empty timemap, and
/// anything else is cut at `,\n` into entries read in order.
pub open spec fn parse_spec(data: Seq<char>) -> TimemapView {
    if data.len() == 0 {
        empty_timemap()
    } else {
        parse_acc(empty_timemap(), split_spec(data, ",\n"@))
    }
}

/// The value of the last part tagged `tag`, quotes trimmed.
#[verifier::loop_isolation(false)]
fn tagged_exec(parts: &Vec<String>, tag: &str) -> (r: Option<String>)
    ensures
        match r {
            Some(v) => tagged_acc(None, strings_of(parts@), tag@) == Some(v@),
            None => tagged_acc(None, strings_of(parts@), tag@) is None,
        },
{
    let quote: Vec<char> = vec!['"'];
    proof {
        assert(quote@ =~= seq!['"']);
    }
    let ghost pv = strings_of(parts@);
    let mut cur: Option<String> = None;
    proof {
        assert(pv.skip(0) =~= pv);
    }
    let mut i: usize = 0;
    while i < parts.len()
        invariant
            i <= parts@.len(),
            tagged_acc(None, pv, tag@) == tagged_acc(
                match cur {
                    Some(v) => Some(v@),
                    None => None,
                },
                pv.skip(i as int),
                tag@,
            ),
        decreases parts@.len() - i,
    {
        proof {
            assert(pv.skip(i as int)[0] == pv[i as int]);
            assert(pv.skip(i as int).drop_first() =~= pv.skip(i as int + 1));
        }
        match strip_prefix_str(parts[i].as_str(), tag) {
            Some(rest) => {
                cur = Some(trim_set_str(rest.as_str(), &quote));
            },
            None => {},
        }
        i = i + 1;
    }
    proof {
        assert(pv.skip(parts@.len() as int) =~= Seq::<Seq<char>>::empty());
    }
    cur
}

/// Reads one reply entry into the timemap.
fn hit_exec(tm: Timemap, hit: &str) -> (r: Timemap)
    ensures
        r@ == hit_update(tm@, hit@),
{
    proof {
        reveal_strlit("; ");
    }
    let parts = split_by(hit, "; ");
    proof {
        crate::strutil::lemma_split_nonempty(hit@, "; "@);
    }
    let angles: Vec<char> = vec!['<', '>'];
    proof {
        assert(angles@ =~= seq!['<', '>']);
    }
    let url = trim_set_str(parts[0].as_str(), &angles);
    let rel = tagged_exec(&parts, "rel=");
    let datetime = tagged_exec(&parts, "datetime=");
    proof {
        reveal_strlit("first");
        reveal_strlit("last");
    }
    match rel {
        None => tm,
        Some(r) => {
            if str_eq(r.as_str(), "original") {
                Timemap { original: Some(url), ..tm }
            } else if str_eq(r.as_str(), "timegate") {
                Timemap { timegate: Some(url), ..tm }
            } else if contains_sub(r.as_str(), "first") {
                Timemap { first: Some(url), ..tm }
            } else if contains_sub(r.as_str(), "last") {
                Timemap { last: Some(url), ..tm }
            } else if str_eq(r.as_str(), "memento") {
                match datetime {
                    Some(d) => {
                        let mut tm2 = tm;
                        let ghost m0 = tm2@.mementos;
                        tm2.mementos.push(Memento { url, datetime: d });
                        proof {
                            assert(tm2@.mementos =~= m0.push(
                                MementoView { url: url@, datetime: d@ },
                            ));
                        }
                        tm2
                    },
                    None => tm,
                }
            } else {
                tm
            }
        },
    }
}

/// Parses a timemap reply: empty text gives the empty timemap, and anything
/// else is cut at `,\n` into entries read in order.
#[verifier::loop_isolation(false)]
pub fn parse(data: &str) -> (r: Timemap)
    ensures
        r@ == parse_spec(data@),
{
    let mut tm = Timemap {
        original: None,
        timegate: None,
        first: None,
        last: None,
        mementos: Vec::new(),
    };
    proof {
        assert(tm@.mementos =~= Seq::<MementoView>::empty());
    }
    if data.is_empty() {
        return tm;
    }
    proof {
        reveal_strlit(",\n");
    }
    let hits = split_by(data, ",\n");
    let ghost hv = strings_of(hits@);
    proof {
        assert(hv.skip(0) =~= hv);
    }
    let mut i: usize = 0;
    while i < hits.len()
        invariant
            i <= hits@.len(),
            parse_acc(empty_timemap(), hv) == parse_acc(tm@, hv.skip(i as int)),
        decreases hits@.len() - i,
    {
        proof {
            assert(hv.skip(i as int)[0] == hv[i as int]);
            assert(hv.skip(i as int).drop_first() =~= hv.skip(i as int + 1));
        }
        tm = hit_exec(tm, hits[i].as_str());
        i = i + 1;
    }
    proof {
        assert(hv.skip(hits@.len() as int) =~= Seq::<Seq<char>>::empty());
    }
    tm
}

impl Timemap {
    /// The snapshot the caller asked for: the oldest when so requested, the
    /// newest otherwise.
    pub fn selected(&self, oldest: bool) -> (r: Option<&String>)
        ensures
            oldest ==> match r {
                Some(u) => self@.last == Some(u@),
                None => self@.last is None,
            },
            !oldest ==> match r {
                Some(u) => self@.first == Some(u@),
                None => self@.first is None,
            },
    {
        if oldest {
            self.last.as_ref()
        } else {
            self.first.as_ref()
        }
    }
}

/// The timemap endpoint queried for a page.
pub const ARCHIVE_TIMEMAP: &'static str = "https://archive.is/timemap/";

/// The URL of the timemap for `url`.
pub fn timemap_url(url: &str) -> (r: String)
    ensures
        r@ == ARCHIVE_TIMEMAP@ + url@,
{
    String::from_str(ARCHIVE_TIMEMAP).concat(url)
}

/// The fixed headers of the timemap request: the tool's user-agent and a
/// JSON content type.
pub fn default_headers() -> (r: Headers)
    ensures
        r@ == seq![
            ("user-agent"@, "github.com/davemolk/rusty-bits/no_paywall"@),
            ("content-type"@, "application/json"@),
        ],
{
    let mut h = Headers::new();
    h.insert("user-agent".to_owned(), "github.com/davemolk/rusty-bits/no_paywall".to_owned());
    h.insert("content-type".to_owned(), "application/json".to_owned());
    proof {
        reveal_strlit("user-agent");
        reveal_strlit("content-type");
        assert("user-agent"@.len() != "content-type"@.len());
        let p1 = ("user-agent"@, "github.com/davemolk/rusty-bits/no_paywall"@);
        let p2 = ("content-type"@, "application/json"@);
        let e: crate::headers::HeaderSeq = Seq::empty();
        assert(crate::headers::find_key(e, p1.0) == -1);
        assert(crate::headers::find_key(e, p2.0) == -1);
        let s1 = e.push(p1);
        assert(s1.drop_first() =~= e);
        assert(crate::headers::find_key(s1, p2.0) == -1);
        assert(h@ =~= seq![p1, p2]);
    }
    h
}

} // verus!
