//! An ordered header map: insertion order is kept, and inserting under an
//! existing key replaces that key's value in place, so a later entry always
//! overrides an earlier one with the same key (keys match case-sensitively).

use vstd::prelude::*;
use crate::strutil::str_eq;

verus! {

/// The mathematical image of a header map: its entries in order.
pub type HeaderSeq = Seq<(Seq<char>, Seq<char>)>;

/// The position of key `k` in `s`, or `-1` when `k` is absent.
pub open spec fn find_key(s: HeaderSeq, k: Seq<char>) -> int
    decreases s.len(),
{
    if s.len() == 0 {
        -1
    } else if s[0].0 == k {
        0
    } else {
        let r = find_key(s.drop_first(), k);
        if r < 0 {
            -1
        } else {
            r + 1
        }
    }
}

/// The value under key `k`, if any.
pub open spec fn lookup(s: HeaderSeq, k: Seq<char>) -> Option<Seq<char>> {
    let i = find_key(s, k);
    if i < 0 {
        None
    } else {
        Some(s[i].1)
    }
}

/// The map after setting `k` to `v`: the value is replaced in place when the
/// key is present, and the entry is appended otherwise.
pub open spec fn insert_spec(s: HeaderSeq, k: Seq<char>, v: Seq<char>) -> HeaderSeq {
    let i = find_key(s, k);
    if i < 0 {
        s.push((k, v))
    } else {
        s.update(i, (k, v))
    }
}

/// Well-formedness: no key occurs twice.
pub open spec fn wf_headers(s: HeaderSeq) -> bool {
    forall|i: int, j: int| 0 <= i < j < s.len() ==> s[i].0 != s[j].0
}

/// `find_key` points at the first (and, in a well-formed map, only)
/// occurrence of the key, and `-1` means the key is absent.
pub proof fn lemma_find_key(s: HeaderSeq, k: Seq<char>)
    ensures
        -1 <= find_key(s, k) < s.len(),
        find_key(s, k) >= 0 ==> s[find_key(s, k)].0 == k,
        forall|j: int| 0 <= j < find_key(s, k) ==> s[j].0 != k,
        find_key(s, k) == -1 ==> forall|j: int| 0 <= j < s.len() ==> s[j].0 != k,
    decreases s.len(),
{
    if s.len() > 0 && s[0].0 != k {
        let t = s.drop_first();
        lemma_find_key(t, k);
        assert(forall|j: int| 1 <= j < s.len() ==> s[j] == t[j - 1]);
        let r = find_key(t, k);
        if r >= 0 {
            assert(s[r + 1] == t[r]);
        }
    }
}

/// A position whose earlier entries all miss `k` and whose own key is `k`
/// is exactly `find_key`.
pub proof fn lemma_find_key_at(s: HeaderSeq, k: Seq<char>, i: int)
    requires
        0 <= i < s.len(),
        s[i].0 == k,
        forall|j: int| 0 <= j < i ==> s[j].0 != k,
    ensures
        find_key(s, k) == i,
    decreases s.len(),
{
    if i > 0 {
        let t = s.drop_first();
        assert(forall|j: int| 0 <= j < t.len() ==> t[j] == s[j + 1]);
        lemma_find_key_at(t, k, i - 1);
    }
}

/// Setting a key keeps the map well-formed.
pub proof fn lemma_insert_wf(s: HeaderSeq, k: Seq<char>, v: Seq<char>)
    requires
        wf_headers(s),
    ensures
        wf_headers(insert_spec(s, k, v)),
{
    lemma_find_key(s, k);
}

/// After setting `k` to `v`, `k` maps to `v` and every other key is
/// untouched.
pub proof fn lemma_insert_lookup(s: HeaderSeq, k: Seq<char>, v: Seq<char>, k2: Seq<char>)
    requires
        wf_headers(s),
    ensures
        lookup(insert_spec(s, k, v), k) == Some(v),
        k2 != k ==> lookup(insert_spec(s, k, v), k2) == lookup(s, k2),
{
    lemma_find_key(s, k);
    let t = insert_spec(s, k, v);
    let i = find_key(s, k);
    if i < 0 {
        lemma_find_key_at(t, k, s.len() as int);
    } else {
        lemma_find_key_at(t, k, i);
    }
    if k2 != k {
        lemma_find_key(s, k2);
        lemma_find_key(t, k2);
        let j = find_key(s, k2);
        if j >= 0 {
            lemma_find_key_at(t, k2, j);
        } else {
            assert(forall|j2: int| 0 <= j2 < t.len() ==> t[j2].0 != k2);
        }
    }
}

/// An ordered map from header names to header values.
#[derive(Debug)]
pub struct Headers {
    entries: Vec<(String, String)>,
}

impl View for Headers {
    type V = HeaderSeq;

    closed spec fn view(&self) -> HeaderSeq {
        Seq::new(self.entries@.len(), |i: int| (self.entries@[i].0@, self.entries@[i].1@))
    }
}

impl Headers {
    /// The empty map.
    pub fn new() -> (r: Self)
        ensures
            r@ == Seq::<(Seq<char>, Seq<char>)>::empty(),
            wf_headers(r@),
    {
        let r = Headers { entries: Vec::new() };
        proof {
            assert(r@ =~= Seq::<(Seq<char>, Seq<char>)>::empty());
        }
        r
    }

    /// How many entries the map holds.
    pub fn len(&self) -> (n: usize)
        ensures
            n == self@.len(),
    {
        self.entries.len()
    }

    /// The name of the entry at position `i`.
    pub fn key_at(&self, i: usize) -> (r: &String)
        requires
            i < self@.len(),
        ensures
            r@ == self@[i as int].0,
    {
        &self.entries[i].0
    }

    /// The value of the entry at position `i`.
    pub fn value_at(&self, i: usize) -> (r: &String)
        requires
            i < self@.len(),
        ensures
            r@ == self@[i as int].1,
    {
        &self.entries[i].1
    }

    /// Sets `k` to `v`: replaces the value in place when `k` is present,
    /// appends the entry otherwise.
    #[verifier::loop_isolation(false)]
    pub fn insert(&mut self, k: String, v: String)
        requires
            wf_headers(old(self)@),
        ensures
            final(self)@ == insert_spec(old(self)@, k@, v@),
            wf_headers(final(self)@),
    {
        proof {
            lemma_insert_wf(old(self)@, k@, v@);
        }
        let ghost s0 = self@;
        let mut i: usize = 0;
        while i < self.entries.len()
            invariant
                self == old(self),
                i <= self@.len(),
                forall|j: int| 0 <= j < i ==> self@[j].0 != k@,
            decreases self@.len() - i,
        {
            if str_eq(self.entries[i].0.as_str(), k.as_str()) {
                proof {
                    lemma_find_key_at(s0, k@, i as int);
                }
                let ghost e0 = self.entries@;
                self.entries.remove(i);
                self.entries.insert(i, (k, v));
                proof {
                    assert(self.entries@ =~= e0.update(i as int, (k, v)));
                    assert(self@ =~= s0.update(i as int, (k@, v@)));
                }
                return ;
            }
            i = i + 1;
        }
        proof {
            lemma_find_key(s0, k@);
        }
        self.entries.push((k, v));
        proof {
            assert(self@ =~= s0.push((k@, v@)));
        }
    }

    /// The value under key `k`, if any.
    pub fn get(&self, k: &str) -> (r: Option<&String>)
        ensures
            match r {
                Some(v) => lookup(self@, k@) == Some(v@),
                None => lookup(self@, k@) is None,
            },
    {
        let mut i: usize = 0;
        while i < self.entries.len()
            invariant
                i <= self@.len(),
                forall|j: int| 0 <= j < i ==> self@[j].0 != k@,
            decreases self@.len() - i,
        {
            if str_eq(self.entries[i].0.as_str(), k) {
                proof {
                    lemma_find_key_at(self@, k@, i as int);
                }
                return Some(&self.entries[i].1);
            }
            i = i + 1;
        }
        proof {
            lemma_find_key(self@, k@);
        }
        None
    }
}

/// The map after setting every pair of `ps` in order, starting from `m`.
pub open spec fn apply_pairs(m: HeaderSeq, ps: Seq<(Seq<char>, Seq<char>)>) -> HeaderSeq
    decreases ps.len(),
{
    if ps.len() == 0 {
        m
    } else {
        apply_pairs(insert_spec(m, ps[0].0, ps[0].1), ps.drop_first())
    }
}

/// The value of the last pair of `ps` carrying key `k`, if any.
pub open spec fn last_value_of(ps: Seq<(Seq<char>, Seq<char>)>, k: Seq<char>) -> Option<Seq<char>>
    decreases ps.len(),
{
    if ps.len() == 0 {
        None
    } else {
        let rest = last_value_of(ps.drop_first(), k);
        if rest is Some {
            rest
        } else if ps[0].0 == k {
            Some(ps[0].1)
        } else {
            None
        }
    }
}

/// Applying one more pair at the end is one more insertion.
pub proof fn lemma_apply_pairs_snoc(
    m: HeaderSeq,
    ps: Seq<(Seq<char>, Seq<char>)>,
    p: (Seq<char>, Seq<char>),
)
    ensures
        apply_pairs(m, ps.push(p)) == insert_spec(apply_pairs(m, ps), p.0, p.1),
    decreases ps.len(),
{
    let q = ps.push(p);
    if ps.len() == 0 {
        assert(q[0] == p);
        assert(q.drop_first() =~= Seq::<(Seq<char>, Seq<char>)>::empty());
        assert(apply_pairs(m, q) == apply_pairs(insert_spec(m, p.0, p.1), q.drop_first()));
    } else {
        assert(q[0] == ps[0]);
        assert(q.drop_first() =~= ps.drop_first().push(p));
        lemma_apply_pairs_snoc(insert_spec(m, ps[0].0, ps[0].1), ps.drop_first(), p);
    }
}

/// For any header list, a later entry overrides an earlier one with the same
/// key, wherever the entries came from: after applying `ps` to `m`, key `k`
/// holds the value of the last pair of `ps` with key `k`, and keys that `ps`
/// never names keep their value from `m`.
pub proof fn lemma_later_entry_overrides(
    m: HeaderSeq,
    ps: Seq<(Seq<char>, Seq<char>)>,
    k: Seq<char>,
)
    requires
        wf_headers(m),
    ensures
        lookup(apply_pairs(m, ps), k) == match last_value_of(ps, k) {
            Some(v) => Some(v),
            None => lookup(m, k),
        },
    decreases ps.len(),
{
    if ps.len() > 0 {
        let m1 = insert_spec(m, ps[0].0, ps[0].1);
        lemma_insert_wf(m, ps[0].0, ps[0].1);
        lemma_later_entry_overrides(m1, ps.drop_first(), k);
        lemma_insert_lookup(m, ps[0].0, ps[0].1, k);
    }
}

} // verus!
