//! Verified helpers for working with strings as sequences of characters.

use vstd::prelude::*;
use vstd::string::StrSliceExecFns;

verus! {

/// The image of a vector of strings.
pub open spec fn strings_of(v: Seq<String>) -> Seq<Seq<char>> {
    Seq::new(v.len(), |i: int| v[i]@)
}

/// Relies on std's `String::push`: appends exactly one character at the end.
pub assume_specification[ String::push ](s: &mut String, c: char)
    ensures
        final(s)@ == old(s)@.push(c),
;

/// The characters of `s`, in order, as a vector.
pub fn chars_vec(s: &str) -> (r: Vec<char>)
    ensures
        r@ == s@,
{
    let n = s.unicode_len();
    let mut r: Vec<char> = Vec::new();
    let mut i: usize = 0;
    while i < n
        invariant
            n == s@.len(),
            i <= n,
            r@ == s@.subrange(0, i as int),
        decreases n - i,
    {
        r.push(s.get_char(i));
        i = i + 1;
        proof {
            assert(r@ =~= s@.subrange(0, i as int));
        }
    }
    proof {
        assert(r@ =~= s@);
    }
    r
}

/// A string holding exactly the characters of `v`, in order.
pub fn string_of_chars(v: &[char]) -> (r: String)
    ensures
        r@ == v@,
{
    let mut r = String::new();
    let mut i: usize = 0;
    while i < v.len()
        invariant
            i <= v@.len(),
            r@ == v@.subrange(0, i as int),
        decreases v@.len() - i,
    {
        r.push(v[i]);
        i = i + 1;
        proof {
            assert(r@ =~= v@.subrange(0, i as int));
        }
    }
    proof {
        assert(r@ =~= v@);
    }
    r
}

/// Character-for-character string equality.
pub fn str_eq(a: &str, b: &str) -> (r: bool)
    ensures
        r == (a@ == b@),
{
    let na = a.unicode_len();
    let nb = b.unicode_len();
    if na != nb {
        proof {
            assert(a@ != b@);
        }
        return false;
    }
    let mut i: usize = 0;
    while i < na
        invariant
            na == a@.len(),
            na == b@.len(),
            i <= na,
            forall|j: int| 0 <= j < i ==> a@[j] == b@[j],
        decreases na - i,
    {
        if a.get_char(i) != b.get_char(i) {
            return false;
        }
        i = i + 1;
    }
    proof {
        assert(a@ =~= b@);
    }
    true
}

/// The position of the first occurrence of `c` in `s`, or `-1`.
pub open spec fn index_of_char(s: Seq<char>, c: char) -> int
    decreases s.len(),
{
    if s.len() == 0 {
        -1
    } else if s[0] == c {
        0
    } else {
        let r = index_of_char(s.drop_first(), c);
        if r < 0 {
            -1
        } else {
            r + 1
        }
    }
}

/// `index_of_char` points at the first occurrence, and `-1` means absence.
pub proof fn lemma_index_of_char(s: Seq<char>, c: char)
    ensures
        -1 <= index_of_char(s, c) < s.len(),
        index_of_char(s, c) >= 0 ==> s[index_of_char(s, c)] == c,
        forall|j: int| 0 <= j < index_of_char(s, c) ==> s[j] != c,
        index_of_char(s, c) == -1 ==> forall|j: int| 0 <= j < s.len() ==> s[j] != c,
    decreases s.len(),
{
    if s.len() > 0 && s[0] != c {
        let t = s.drop_first();
        lemma_index_of_char(t, c);
        assert(forall|j: int| 1 <= j < s.len() ==> s[j] == t[j - 1]);
        let r = index_of_char(t, c);
        if r >= 0 {
            assert(s[r + 1] == t[r]);
        }
    }
}

/// A position whose earlier characters all differ from `c` and which holds
/// `c` is exactly `index_of_char`.
pub proof fn lemma_index_of_char_at(s: Seq<char>, c: char, i: int)
    requires
        0 <= i < s.len(),
        s[i] == c,
        forall|j: int| 0 <= j < i ==> s[j] != c,
    ensures
        index_of_char(s, c) == i,
    decreases s.len(),
{
    if i > 0 {
        let t = s.drop_first();
        assert(forall|j: int| 0 <= j < t.len() ==> t[j] == s[j + 1]);
        lemma_index_of_char_at(t, c, i - 1);
    }
}

/// The first position of `c` in `s`, if `c` occurs at all.
pub fn find_char(s: &str, c: char) -> (r: Option<usize>)
    ensures
        match r {
            Some(i) => index_of_char(s@, c) == i,
            None => index_of_char(s@, c) == -1,
        },
{
    let n = s.unicode_len();
    let mut i: usize = 0;
    while i < n
        invariant
            n == s@.len(),
            i <= n,
            forall|j: int| 0 <= j < i ==> s@[j] != c,
        decreases n - i,
    {
        if s.get_char(i) == c {
            proof {
                lemma_index_of_char_at(s@, c, i as int);
            }
            return Some(i);
        }
        i = i + 1;
    }
    proof {
        lemma_index_of_char(s@, c);
    }
    None
}

/// The position of the first occurrence of `p` in `s`, or `-1`.
pub open spec fn index_of_sub(s: Seq<char>, p: Seq<char>) -> int
    decreases s.len(),
{
    if s.len() < p.len() || p.len() == 0 {
        -1
    } else if s.subrange(0, p.len() as int) == p {
        0
    } else {
        let r = index_of_sub(s.drop_first(), p);
        if r < 0 {
            -1
        } else {
            r + 1
        }
    }
}

/// Whether `p` occurs anywhere in `s`.
pub open spec fn contains_sub_spec(s: Seq<char>, p: Seq<char>) -> bool {
    index_of_sub(s, p) >= 0
}

/// `index_of_sub` points at the first occurrence, and `-1` means absence.
pub proof fn lemma_index_of_sub(s: Seq<char>, p: Seq<char>)
    requires
        p.len() > 0,
    ensures
        index_of_sub(s, p) == -1 || (0 <= index_of_sub(s, p) && index_of_sub(s, p) + p.len()
            <= s.len()),
        index_of_sub(s, p) >= 0 ==> s.subrange(
            index_of_sub(s, p),
            index_of_sub(s, p) + p.len(),
        ) == p,
        forall|j: int|
            0 <= j < index_of_sub(s, p) && j + p.len() <= s.len() ==> #[trigger] s.subrange(
                j,
                j + p.len(),
            ) != p,
        index_of_sub(s, p) == -1 ==> forall|j: int|
            0 <= j && j + p.len() <= s.len() ==> #[trigger] s.subrange(j, j + p.len()) != p,
    decreases s.len(),
{
    if s.len() >= p.len() && s.subrange(0, p.len() as int) != p {
        let t = s.drop_first();
        lemma_index_of_sub(t, p);
        assert forall|j: int| 0 <= j && j + p.len() <= t.len() implies #[trigger] t.subrange(
            j,
            j + p.len(),
        ) =~= s.subrange(j + 1, j + 1 + p.len()) by {}
        assert forall|j: int| 1 <= j && j + p.len() <= s.len() implies #[trigger] s.subrange(
            j,
            j + p.len(),
        ) =~= t.subrange(j - 1, j - 1 + p.len()) by {}
        let r = index_of_sub(t, p);
        if r >= 0 {
            assert(s.subrange(r + 1, r + 1 + p.len()) =~= t.subrange(r, r + p.len()));
        }
    }
}

/// A position whose earlier positions all miss `p` and which starts an
/// occurrence of `p` is exactly `index_of_sub`.
pub proof fn lemma_index_of_sub_at(s: Seq<char>, p: Seq<char>, i: int)
    requires
        p.len() > 0,
        0 <= i,
        i + p.len() <= s.len(),
        s.subrange(i, i + p.len()) == p,
        forall|j: int| 0 <= j < i ==> #[trigger] s.subrange(j, j + p.len()) != p,
    ensures
        index_of_sub(s, p) == i,
    decreases s.len(),
{
    if i == 0 {
    } else {
        let t = s.drop_first();
        assert forall|j: int| 0 <= j && j + p.len() <= t.len() implies #[trigger] t.subrange(
            j,
            j + p.len(),
        ) =~= s.subrange(j + 1, j + 1 + p.len()) by {}
        assert forall|j: int| 1 <= j && j + p.len() <= s.len() implies #[trigger] s.subrange(
            j,
            j + p.len(),
        ) =~= t.subrange(j - 1, j - 1 + p.len()) by {}
        let z: int = 0;
        assert(s.subrange(z, z + p.len()) != p);
        assert(s.subrange(0, p.len() as int) != p);
        assert(t.subrange(i - 1, i - 1 + p.len()) == p);
        lemma_index_of_sub_at(t, p, i - 1);
    }
}

/// Whether `p` stands at position `j` of `s`.
#[verifier::loop_isolation(false)]
fn match_at(s: &Vec<char>, p: &Vec<char>, j: usize) -> (r: bool)
    requires
        j + p@.len() <= s@.len(),
    ensures
        r == (s@.subrange(j as int, j + p@.len()) == p@),
{
    let sn = s.len();
    let mut k: usize = 0;
    while k < p.len()
        invariant
            sn == s@.len(),
            k <= p@.len(),
            forall|x: int| 0 <= x < k ==> s@[j + x] == p@[x],
        decreases p@.len() - k,
    {
        if s[j + k] != p[k] {
            proof {
                assert(s@.subrange(j as int, j + p@.len())[k as int] != p@[k as int]);
            }
            return false;
        }
        k = k + 1;
    }
    proof {
        assert(s@.subrange(j as int, j + p@.len()) =~= p@);
    }
    true
}

/// The first position of `p` in `s`, if `p` occurs at all.
#[verifier::loop_isolation(false)]
fn find_sub(s: &Vec<char>, p: &Vec<char>) -> (r: Option<usize>)
    requires
        p@.len() > 0,
    ensures
        match r {
            Some(i) => index_of_sub(s@, p@) == i,
            None => index_of_sub(s@, p@) == -1,
        },
{
    proof {
        lemma_index_of_sub(s@, p@);
    }
    if p.len() > s.len() {
        return None;
    }
    let last = s.len() - p.len();
    let mut j: usize = 0;
    while j <= last
        invariant
            j <= last + 1,
            forall|x: int| 0 <= x < j ==> #[trigger] s@.subrange(x, x + p@.len()) != p@,
        decreases last - j + 1,
    {
        if match_at(s, p, j) {
            proof {
                lemma_index_of_sub_at(s@, p@, j as int);
            }
            return Some(j);
        }
        j = j + 1;
    }
    None
}

/// The first position of `p` in `s`, if `p` occurs at all.
pub fn find_sub_str(s: &str, p: &str) -> (r: Option<usize>)
    requires
        p@.len() > 0,
    ensures
        match r {
            Some(i) => index_of_sub(s@, p@) == i,
            None => index_of_sub(s@, p@) == -1,
        },
{
    let sv = chars_vec(s);
    let pv = chars_vec(p);
    find_sub(&sv, &pv)
}

/// Whether `p` occurs anywhere in `s`.
pub fn contains_sub(s: &str, p: &str) -> (r: bool)
    requires
        p@.len() > 0,
    ensures
        r == contains_sub_spec(s@, p@),
{
    match find_sub_str(s, p) {
        Some(_) => true,
        None => false,
    }
}

/// `s` cut at each occurrence of the separator `p`, left to right; the
/// separators themselves are dropped.  Always at least one piece.
pub open spec fn split_spec(s: Seq<char>, p: Seq<char>) -> Seq<Seq<char>>
    decreases s.len(),
{
    let i = index_of_sub(s, p);
    if i < 0 || p.len() == 0 || i + p.len() > s.len() {
        seq![s]
    } else {
        seq![s.subrange(0, i)] + split_spec(s.subrange(i + p.len(), s.len() as int), p)
    }
}

/// Splits `s` at each occurrence of `p`.
pub fn split_by(s: &str, p: &str) -> (r: Vec<String>)
    requires
        p@.len() > 0,
    ensures
        strings_of(r@) == split_spec(s@, p@),
    decreases s@.len(),
{
    proof {
        lemma_index_of_sub(s@, p@);
    }
    let n = s.unicode_len();
    let plen = p.unicode_len();
    match find_sub_str(s, p) {
        None => {
            let mut r: Vec<String> = Vec::new();
            r.push(s.to_owned());
            proof {
                assert(strings_of(r@) =~= split_spec(s@, p@));
            }
            r
        },
        Some(i) => {
            let head = s.substring_char(0, i).to_owned();
            let tail = s.substring_char(i + plen, n);
            let mut rest = split_by(tail, p);
            rest.insert(0, head);
            proof {
                assert(strings_of(rest@) =~= seq![s@.subrange(0, i as int)] + split_spec(
                    s@.subrange(i + p@.len(), s@.len() as int),
                    p@,
                ));
            }
            rest
        },
    }
}

/// Splitting yields at least one piece.
pub proof fn lemma_split_nonempty(s: Seq<char>, p: Seq<char>)
    ensures
        split_spec(s, p).len() >= 1,
{
}

/// Whether `s` starts with `p`.
pub open spec fn has_prefix(s: Seq<char>, p: Seq<char>) -> bool {
    p.len() <= s.len() && s.subrange(0, p.len() as int) == p
}

/// The rest of `s` after the prefix `p`, if `s` starts with it.
pub fn strip_prefix_str(s: &str, p: &str) -> (r: Option<String>)
    ensures
        match r {
            Some(t) => has_prefix(s@, p@) && t@ == s@.subrange(p@.len() as int, s@.len() as int),
            None => !has_prefix(s@, p@),
        },
{
    let n = s.unicode_len();
    let plen = p.unicode_len();
    if plen > n {
        return None;
    }
    let sv = chars_vec(s);
    let pv = chars_vec(p);
    if match_at(&sv, &pv, 0) {
        Some(s.substring_char(plen, n).to_owned())
    } else {
        None
    }
}

/// The ASCII uppercase image of one character.
pub open spec fn upper_char(c: char) -> char {
    if 'a' <= c <= 'z' {
        ((c as u8) - 0x20) as char
    } else {
        c
    }
}

/// The ASCII lowercase image of one character.
pub open spec fn lower_char(c: char) -> char {
    if 'A' <= c <= 'Z' {
        ((c as u8) + 0x20) as char
    } else {
        c
    }
}

/// The ASCII uppercase image of a character sequence.
pub open spec fn upper_seq(s: Seq<char>) -> Seq<char> {
    s.map_values(|c: char| upper_char(c))
}

/// The ASCII lowercase image of a character sequence.
pub open spec fn lower_seq(s: Seq<char>) -> Seq<char> {
    s.map_values(|c: char| lower_char(c))
}

/// ASCII-uppercases one character.
pub fn upper_char_exec(c: char) -> (r: char)
    ensures
        r == upper_char(c),
{
    if 'a' <= c && c <= 'z' {
        ((c as u8) - 0x20) as char
    } else {
        c
    }
}

/// ASCII-lowercases one character.
pub fn lower_char_exec(c: char) -> (r: char)
    ensures
        r == lower_char(c),
{
    if 'A' <= c && c <= 'Z' {
        ((c as u8) + 0x20) as char
    } else {
        c
    }
}

/// The ASCII uppercase image of a string.
pub fn to_upper(s: &str) -> (r: String)
    ensures
        r@ == upper_seq(s@),
{
    let cs = chars_vec(s);
    let mut r = String::new();
    let mut i: usize = 0;
    while i < cs.len()
        invariant
            cs@ == s@,
            i <= cs@.len(),
            r@ == upper_seq(s@).subrange(0, i as int),
        decreases cs@.len() - i,
    {
        r.push(upper_char_exec(cs[i]));
        i = i + 1;
        proof {
            assert(r@ =~= upper_seq(s@).subrange(0, i as int));
        }
    }
    proof {
        assert(r@ =~= upper_seq(s@));
    }
    r
}

/// The ASCII lowercase image of a string.
pub fn to_lower(s: &str) -> (r: String)
    ensures
        r@ == lower_seq(s@),
{
    let cs = chars_vec(s);
    let mut r = String::new();
    let mut i: usize = 0;
    while i < cs.len()
        invariant
            cs@ == s@,
            i <= cs@.len(),
            r@ == lower_seq(s@).subrange(0, i as int),
        decreases cs@.len() - i,
    {
        r.push(lower_char_exec(cs[i]));
        i = i + 1;
        proof {
            assert(r@ =~= lower_seq(s@).subrange(0, i as int));
        }
    }
    proof {
        assert(r@ =~= lower_seq(s@));
    }
    r
}

} // verus!
