//! File-name sluggification: spaces collapse to a separator, and in its
//! thorough form everything but letters, digits, dots and the separator is
//! dropped and letters are lowercased.  The functions here rename nothing:
//! the caller walks directories and applies the plans.

use vstd::prelude::*;
use vstd::string::StrSliceExecFns;
use crate::strutil::{chars_vec, lower_seq, str_eq, string_of_chars, to_lower};

verus! {

/// Whether a character is whitespace: the Unicode White_Space set, as
/// trimming understands it.
pub open spec fn is_white(c: char) -> bool {
    c == '\t' || c == '\n' || c == '\u{B}' || c == '\u{C}' || c == '\r' || c == ' ' || c == '\u{85}'
        || c == '\u{A0}' || c == '\u{1680}' || c == '\u{2000}' || c == '\u{2001}' || c == '\u{2002}'
        || c == '\u{2003}' || c == '\u{2004}' || c == '\u{2005}' || c == '\u{2006}' || c
        == '\u{2007}' || c == '\u{2008}' || c == '\u{2009}' || c == '\u{200A}' || c == '\u{2028}'
        || c == '\u{2029}' || c == '\u{202F}' || c == '\u{205F}' || c == '\u{3000}'
}

/// Whether a character is whitespace.
fn is_white_exec(c: char) -> (r: bool)
    ensures
        r == is_white(c),
{
    c == '\t' || c == '\n' || c == '\u{B}' || c == '\u{C}' || c == '\r' || c == ' ' || c == '\u{85}'
        || c == '\u{A0}' || c == '\u{1680}' || c == '\u{2000}' || c == '\u{2001}' || c == '\u{2002}'
        || c == '\u{2003}' || c == '\u{2004}' || c == '\u{2005}' || c == '\u{2006}' || c
        == '\u{2007}' || c == '\u{2008}' || c == '\u{2009}' || c == '\u{200A}' || c == '\u{2028}'
        || c == '\u{2029}' || c == '\u{202F}' || c == '\u{205F}' || c == '\u{3000}'
}

/// How many whitespace characters `s` starts with.
pub open spec fn leading_white(s: Seq<char>) -> int
    decreases s.len(),
{
    if s.len() == 0 {
        0
    } else if is_white(s[0]) {
        1 + leading_white(s.drop_first())
    } else {
        0
    }
}

/// How many whitespace characters `s` ends with.
pub open spec fn trailing_white(s: Seq<char>) -> int
    decreases s.len(),
{
    if s.len() == 0 {
        0
    } else if is_white(s.last()) {
        1 + trailing_white(s.drop_last())
    } else {
        0
    }
}

/// `s` with its leading and trailing whitespace removed.
pub open spec fn trim_spec(s: Seq<char>) -> Seq<char> {
    let a = leading_white(s);
    if a == s.len() {
        Seq::empty()
    } else {
        s.subrange(a, s.len() - trailing_white(s))
    }
}

/// A scan that stopped at the first non-whitespace character found exactly
/// `leading_white`.
proof fn lemma_leading_white_at(s: Seq<char>, i: int)
    requires
        0 <= i <= s.len(),
        forall|j: int| 0 <= j < i ==> is_white(s[j]),
        i < s.len() ==> !is_white(s[i]),
    ensures
        leading_white(s) == i,
    decreases s.len(),
{
    if s.len() > 0 && i > 0 {
        let t = s.drop_first();
        assert(forall|j: int| 0 <= j < t.len() ==> t[j] == s[j + 1]);
        lemma_leading_white_at(t, i - 1);
    }
}

/// A backward scan that stopped at the last non-whitespace character found
/// exactly `trailing_white`.
proof fn lemma_trailing_white_at(s: Seq<char>, b: int)
    requires
        0 <= b <= s.len(),
        forall|j: int| s.len() - b <= j < s.len() ==> is_white(s[j]),
        b < s.len() ==> !is_white(s[s.len() - b - 1]),
    ensures
        trailing_white(s) == b,
    decreases s.len(),
{
    if s.len() > 0 && b > 0 {
        let t = s.drop_last();
        assert(forall|j: int| 0 <= j < t.len() ==> t[j] == s[j]);
        lemma_trailing_white_at(t, b - 1);
    }
}

/// Removes leading and trailing whitespace.
#[verifier::loop_isolation(false)]
pub fn trim_str(s: &str) -> (r: String)
    ensures
        r@ == trim_spec(s@),
{
    let n = s.unicode_len();
    let mut a: usize = 0;
    while a < n && is_white_exec(s.get_char(a))
        invariant
            n == s@.len(),
            a <= n,
            forall|j: int| 0 <= j < a ==> is_white(s@[j]),
        decreases n - a,
    {
        a = a + 1;
    }
    proof {
        lemma_leading_white_at(s@, a as int);
    }
    if a == n {
        let r = String::new();
        proof {
            assert(r@ =~= trim_spec(s@));
        }
        return r;
    }
    let mut b: usize = 0;
    while b < n && is_white_exec(s.get_char(n - 1 - b))
        invariant
            n == s@.len(),
            b <= n,
            forall|j: int| n - b <= j < n ==> is_white(s@[j]),
        decreases n - b,
    {
        b = b + 1;
    }
    proof {
        lemma_trailing_white_at(s@, b as int);
        assert(!is_white(s@[a as int]));
        assert(a < n - b) by {
            if n - b <= a {
                assert(is_white(s@[a as int]));
            }
        }
    }
    s.substring_char(a, n - b).to_owned()
}

/// `s` with every run of spaces replaced by one separator; `in_run` says
/// whether a run of spaces is already open at the front.
pub open spec fn collapse_spaces(s: Seq<char>, sep: char, in_run: bool) -> Seq<char>
    decreases s.len(),
{
    if s.len() == 0 {
        Seq::empty()
    } else if s[0] == ' ' {
        if in_run {
            collapse_spaces(s.drop_first(), sep, true)
        } else {
            seq![sep] + collapse_spaces(s.drop_first(), sep, true)
        }
    } else {
        seq![s[0]] + collapse_spaces(s.drop_first(), sep, false)
    }
}

/// The separator in force: the custom one, or a dash.
pub open spec fn sep_spec(separator: Option<char>) -> char {
    match separator {
        Some(c) => c,
        None => '-',
    }
}

/// The light slug: whitespace trimmed, every run of spaces replaced by one
/// separator, everything else untouched.
pub open spec fn simple_slug_spec(s: Seq<char>, sep: char) -> Seq<char> {
    collapse_spaces(trim_spec(s), sep, false)
}

/// Replaces each run of spaces in `v` by one separator.
#[verifier::loop_isolation(false)]
fn collapse_exec(v: &Vec<char>, sep: char) -> (r: Vec<char>)
    ensures
        r@ == collapse_spaces(v@, sep, false),
{
    let mut out: Vec<char> = Vec::new();
    let mut in_run = false;
    proof {
        assert(v@.skip(0) =~= v@);
        assert(Seq::<char>::empty() + collapse_spaces(v@, sep, false) =~= collapse_spaces(
            v@,
            sep,
            false,
        ));
    }
    let mut i: usize = 0;
    while i < v.len()
        invariant
            i <= v@.len(),
            collapse_spaces(v@, sep, false) == out@ + collapse_spaces(
                v@.skip(i as int),
                sep,
                in_run,
            ),
        decreases v@.len() - i,
    {
        proof {
            assert(v@.skip(i as int)[0] == v@[i as int]);
            assert(v@.skip(i as int).drop_first() =~= v@.skip(i as int + 1));
        }
        let ghost o0 = out@;
        let c = v[i];
        if c == ' ' {
            if !in_run {
                out.push(sep);
                in_run = true;
                proof {
                    assert(o0 + (seq![sep] + collapse_spaces(v@.skip(i as int + 1), sep, true))
                        =~= out@ + collapse_spaces(v@.skip(i as int + 1), sep, true));
                }
            }
        } else {
            out.push(c);
            in_run = false;
            proof {
                assert(o0 + (seq![c] + collapse_spaces(v@.skip(i as int + 1), sep, false)) =~= out@
                    + collapse_spaces(v@.skip(i as int + 1), sep, false));
            }
        }
        i = i + 1;
    }
    proof {
        assert(v@.skip(v@.len() as int) =~= Seq::<char>::empty());
        assert(out@ + Seq::<char>::empty() =~= out@);
    }
    out
}

/// The light slug: trims whitespace and replaces each run of spaces with
/// one separator (a dash unless a custom one is given).  Capitals, digits
/// and punctuation stay as they are.
pub fn simple_slug(input: &str, separator: Option<char>) -> (r: String)
    ensures
        r@ == simple_slug_spec(input@, sep_spec(separator)),
{
    let sep = match separator {
        Some(c) => c,
        None => '-',
    };
    let trimmed = trim_str(input);
    let cs = chars_vec(trimmed.as_str());
    let collapsed = collapse_exec(&cs, sep);
    string_of_chars(collapsed.as_slice())
}

/// What std's char::is_alphanumeric answers for one character: a fixed
/// property of the character alone.
pub uninterp spec fn char_is_alphanumeric(c: char) -> bool;

/// Relies on std's char::is_alphanumeric: whether the character is a
/// Unicode letter or digit.
#[verifier::external_body]
fn is_alnum(c: char) -> (r: bool)
    ensures
        r == char_is_alphanumeric(c),
{
    c.is_alphanumeric()
}

/// Whether the thorough slug keeps a character: letters and digits, dots,
/// the separator itself, and spaces (collapsed afterwards).
pub open spec fn keep_char(c: char, sep: char) -> bool {
    char_is_alphanumeric(c) || c == '.' || c == sep || c == ' '
}

/// `s` restricted to the characters the thorough slug keeps.
pub open spec fn filter_keep(s: Seq<char>, sep: char) -> Seq<char>
    decreases s.len(),
{
    if s.len() == 0 {
        Seq::empty()
    } else if keep_char(s[0], sep) {
        seq![s[0]] + filter_keep(s.drop_first(), sep)
    } else {
        filter_keep(s.drop_first(), sep)
    }
}

/// The thorough slug: ASCII-lowercased, trimmed, stripped to letters,
/// digits, dots, the separator and spaces, and each run of spaces replaced
/// by one separator.
pub open spec fn slugginate_spec(s: Seq<char>, sep: char) -> Seq<char> {
    collapse_spaces(filter_keep(trim_spec(lower_seq(s)), sep), sep, false)
}

/// The thorough slug: lowercases, trims, drops everything but letters,
/// digits, dots and the separator, and replaces each run of spaces with one
/// separator.
#[verifier::loop_isolation(false)]
pub fn slugginate(input: &str, separator: Option<char>) -> (r: String)
    ensures
        r@ == slugginate_spec(input@, sep_spec(separator)),
{
    let sep = match separator {
        Some(c) => c,
        None => '-',
    };
    let lowered = to_lower(input);
    let trimmed = trim_str(lowered.as_str());
    let cs = chars_vec(trimmed.as_str());
    let mut kept: Vec<char> = Vec::new();
    proof {
        assert(cs@.skip(0) =~= cs@);
        assert(Seq::<char>::empty() + filter_keep(cs@, sep) =~= filter_keep(cs@, sep));
    }
    let mut i: usize = 0;
    while i < cs.len()
        invariant
            i <= cs@.len(),
            filter_keep(cs@, sep) == kept@ + filter_keep(cs@.skip(i as int), sep),
        decreases cs@.len() - i,
    {
        proof {
            assert(cs@.skip(i as int)[0] == cs@[i as int]);
            assert(cs@.skip(i as int).drop_first() =~= cs@.skip(i as int + 1));
        }
        let c = cs[i];
        let ghost k0 = kept@;
        if is_alnum(c) || c == '.' || c == sep || c == ' ' {
            kept.push(c);
            proof {
                assert(k0 + (seq![c] + filter_keep(cs@.skip(i as int + 1), sep)) =~= kept@
                    + filter_keep(cs@.skip(i as int + 1), sep));
            }
        }
        i = i + 1;
    }
    proof {
        assert(cs@.skip(cs@.len() as int) =~= Seq::<char>::empty());
        assert(kept@ + Seq::<char>::empty() =~= kept@);
    }
    let collapsed = collapse_exec(&kept, sep);
    string_of_chars(collapsed.as_slice())
}

/// The sluggifier's options.  Directory traversal, the conflict test and
/// the rename itself are the caller's: this type only plans what each entry
/// name becomes.
#[derive(Debug, Clone, PartialEq, Eq, Structural)]
pub struct Slug {
    /// Whether directories are descended into recursively.
    pub crawl: bool,
    /// Whether directories are renamed too.
    pub include_dirs: bool,
    /// Whether renames are performed; otherwise it is a dry run.
    pub slug: bool,
    /// Whether the thorough slug is applied instead of the light one.
    pub max_slug: bool,
    /// Whether hidden entries (a leading dot) are renamed too.
    pub include_hidden: bool,
    /// Whether a naming conflict is skipped instead of being an error.
    pub ignore_conflicts: bool,
    /// The separator replacing spaces, a dash by default.
    pub custom_separator: Option<char>,
}

/// What becomes of one entry name.
#[derive(Debug, Clone, PartialEq, Eq)]
pub enum RenamePlan {
    /// A hidden entry, left alone.
    Hidden,
    /// The slug equals the name: nothing to do.
    Unchanged,
    /// The entry is renamed to the slug.
    Rename(String),
}

/// The mathematical image of a plan.
pub enum RenamePlanView {
    Hidden,
    Unchanged,
    Rename(Seq<char>),
}

impl View for RenamePlan {
    type V = RenamePlanView;

    open spec fn view(&self) -> RenamePlanView {
        match self {
            RenamePlan::Hidden => RenamePlanView::Hidden,
            RenamePlan::Unchanged => RenamePlanView::Unchanged,
            RenamePlan::Rename(s) => RenamePlanView::Rename(s@),
        }
    }
}

/// What becomes of an entry whose slugged name collides with an existing
/// one.
#[derive(Debug, Clone, Copy, PartialEq, Eq, Structural)]
pub enum ConflictAction {
    /// Leave the entry alone and carry on.
    Skip,
    /// Fail the run.
    Fail,
}

/// The plan for one entry name: hidden entries are skipped unless included,
/// the configured slug is computed, and a slug equal to the name means
/// nothing to do.
pub open spec fn rename_plan_spec(s: Slug, name: Seq<char>) -> RenamePlanView {
    if name.len() > 0 && name[0] == '.' && !s.include_hidden {
        RenamePlanView::Hidden
    } else {
        let slugged = if s.max_slug {
            slugginate_spec(name, sep_spec(s.custom_separator))
        } else {
            simple_slug_spec(name, sep_spec(s.custom_separator))
        };
        if slugged == name {
            RenamePlanView::Unchanged
        } else {
            RenamePlanView::Rename(slugged)
        }
    }
}

impl Slug {
    /// Bundles the options.
    pub fn new(
        crawl: bool,
        include_dirs: bool,
        slug: bool,
        max_slug: bool,
        include_hidden: bool,
        ignore_conflicts: bool,
        custom_separator: Option<char>,
    ) -> (r: Self)
        ensures
            r == (Slug {
                crawl,
                include_dirs,
                slug,
                max_slug,
                include_hidden,
                ignore_conflicts,
                custom_separator,
            }),
    {
        Slug { crawl, include_dirs, slug, max_slug, include_hidden, ignore_conflicts, custom_separator }
    }

    /// Decides what a naming conflict does: the entry is skipped when
    /// conflicts are ignored, and the run fails otherwise.
    pub fn conflict_action(&self) -> (r: ConflictAction)
        ensures
            r == (if self.ignore_conflicts {
                ConflictAction::Skip
            } else {
                ConflictAction::Fail
            }),
    {
        if self.ignore_conflicts {
            ConflictAction::Skip
        } else {
            ConflictAction::Fail
        }
    }

    /// Plans what becomes of one entry name.
    pub fn rename_plan(&self, name: &str) -> (r: RenamePlan)
        ensures
            r@ == rename_plan_spec(*self, name@),
    {
        let n = name.unicode_len();
        if n > 0 && name.get_char(0) == '.' && !self.include_hidden {
            return RenamePlan::Hidden;
        }
        let slugged = if self.max_slug {
            slugginate(name, self.custom_separator)
        } else {
            simple_slug(name, self.custom_separator)
        };
        if str_eq(slugged.as_str(), name) {
            RenamePlan::Unchanged
        } else {
            RenamePlan::Rename(slugged)
        }
    }
}

} // verus!
