//! Prior-generation discovery.
//!
//! Snapshot directories are named with a fixed-width timestamp, so the
//! lexicographically greatest name under a destination root is the
//! chronologically latest snapshot. The locator therefore returns the
//! lexicographic maximum of the root's children, or nothing when the root has
//! none (a missing or empty root simply means "no prior generation").

use vstd::prelude::*;
use crate::paths::clone_bytes;

verus! {

/// Lexicographic order on byte sequences: `a` is less than or equal to `b`.
/// A proper prefix sorts before any of its extensions.
pub open spec fn lex_le(a: Seq<u8>, b: Seq<u8>) -> bool
    decreases a.len(),
{
    if a.len() == 0 {
        true
    } else if b.len() == 0 {
        false
    } else if a[0] < b[0] {
        true
    } else if a[0] > b[0] {
        false
    } else {
        lex_le(a.subrange(1, a.len() as int), b.subrange(1, b.len() as int))
    }
}

/// Comparing two sequences that agree on their first `i` bytes is the same
/// as comparing what remains after those bytes.
pub proof fn lemma_lex_le_skip(a: Seq<u8>, b: Seq<u8>, i: int)
    requires
        0 <= i <= a.len(),
        i <= b.len(),
        forall|j: int| 0 <= j < i ==> a[j] == b[j],
    ensures
        lex_le(a, b) == lex_le(a.subrange(i, a.len() as int), b.subrange(i, b.len() as int)),
    decreases i,
{
    if i == 0 {
        assert(a.subrange(0, a.len() as int) =~= a);
        assert(b.subrange(0, b.len() as int) =~= b);
    } else {
        let a1 = a.subrange(1, a.len() as int);
        let b1 = b.subrange(1, b.len() as int);
        lemma_lex_le_skip(a1, b1, i - 1);
        assert(a1.subrange(i - 1, a1.len() as int) =~= a.subrange(i, a.len() as int));
        assert(b1.subrange(i - 1, b1.len() as int) =~= b.subrange(i, b.len() as int));
    }
}

/// Lexicographic order is total: of any two byte sequences, one is less than
/// or equal to the other.
pub proof fn lemma_lex_le_total(a: Seq<u8>, b: Seq<u8>)
    ensures
        lex_le(a, b) || lex_le(b, a),
    decreases a.len(),
{
    if a.len() > 0 && b.len() > 0 && a[0] == b[0] {
        lemma_lex_le_total(a.subrange(1, a.len() as int), b.subrange(1, b.len() as int));
    }
}

/// Lexicographic order is reflexive.
pub proof fn lemma_lex_le_refl(a: Seq<u8>)
    ensures
        lex_le(a, a),
    decreases a.len(),
{
    if a.len() > 0 {
        lemma_lex_le_refl(a.subrange(1, a.len() as int));
    }
}

/// Lexicographic order is transitive.
pub proof fn lemma_lex_le_trans(a: Seq<u8>, b: Seq<u8>, c: Seq<u8>)
    requires
        lex_le(a, b),
        lex_le(b, c),
    ensures
        lex_le(a, c),
    decreases a.len(),
{
    if a.len() > 0 && b.len() > 0 && c.len() > 0 && a[0] == b[0] && b[0] == c[0] {
        lemma_lex_le_trans(
            a.subrange(1, a.len() as int),
            b.subrange(1, b.len() as int),
            c.subrange(1, c.len() as int),
        );
    }
}

/// A shared head does not affect the order: appending the same sequence in
/// front of two sequences compares like the two sequences themselves.
pub proof fn lemma_lex_le_append_eq(h: Seq<u8>, t1: Seq<u8>, t2: Seq<u8>)
    ensures
        lex_le(h + t1, h + t2) == lex_le(t1, t2),
{
    lemma_lex_le_skip(h + t1, h + t2, h.len() as int);
    assert((h + t1).subrange(h.len() as int, (h + t1).len() as int) =~= t1);
    assert((h + t2).subrange(h.len() as int, (h + t2).len() as int) =~= t2);
}

/// Heads of one width that differ decide the order by themselves, whatever
/// follows them.
pub proof fn lemma_lex_le_append_ne(h1: Seq<u8>, h2: Seq<u8>, t1: Seq<u8>, t2: Seq<u8>)
    requires
        h1.len() == h2.len(),
        h1 != h2,
    ensures
        lex_le(h1 + t1, h2 + t2) == lex_le(h1, h2),
    decreases h1.len(),
{
    if h1.len() == 0 {
        assert(h1 =~= h2);
    } else if h1[0] == h2[0] {
        let h1t = h1.subrange(1, h1.len() as int);
        let h2t = h2.subrange(1, h2.len() as int);
        if h1t == h2t {
            assert forall|j: int| 0 <= j < h1.len() implies h1[j] == h2[j] by {
                if j >= 1 {
                    assert(h1[j] == h1t[j - 1]);
                    assert(h2[j] == h2t[j - 1]);
                }
            }
            assert(h1 =~= h2);
        }
        lemma_lex_le_append_ne(h1t, h2t, t1, t2);
        let a = h1 + t1;
        let b = h2 + t2;
        assert(a.subrange(1, a.len() as int) =~= h1t + t1);
        assert(b.subrange(1, b.len() as int) =~= h2t + t2);
    } else {
        assert((h1 + t1)[0] == h1[0]);
        assert((h2 + t2)[0] == h2[0]);
    }
}

/// Decides the lexicographic order of two byte vectors.
pub fn bytes_le(a: &Vec<u8>, b: &Vec<u8>) -> (r: bool)
    ensures
        r == lex_le(a@, b@),
{
    let mut i: usize = 0;
    while i < a.len() && i < b.len()
        invariant
            i <= a.len(),
            i <= b.len(),
            forall|j: int| 0 <= j < i ==> a@[j] == b@[j],
        decreases a.len() - i,
    {
        if a[i] < b[i] {
            proof {
                lemma_lex_le_skip(a@, b@, i as int);
            }
            return true;
        }
        if a[i] > b[i] {
            proof {
                lemma_lex_le_skip(a@, b@, i as int);
            }
            return false;
        }
        i += 1;
    }
    proof {
        lemma_lex_le_skip(a@, b@, i as int);
    }
    a.len() <= b.len()
}

/// Finds the most recent prior snapshot among the direct children of a
/// destination root: the lexicographically greatest name. Returns `None`
/// exactly when there are no children, meaning no prior generation exists.
pub fn get_latest_backup(entries: &Vec<Vec<u8>>) -> (r: Option<Vec<u8>>)
    ensures
        r is Some <==> entries@.len() > 0,
        r is Some ==> exists|k: int|
            0 <= k < entries@.len() && entries@[k]@ == r->Some_0@,
        r is Some ==> forall|j: int|
            0 <= j < entries@.len() ==> lex_le(#[trigger] entries@[j]@, r->Some_0@),
{
    if entries.len() == 0 {
        return None;
    }
    let mut best: Vec<u8> = clone_bytes(&entries[0]);
    proof {
        lemma_lex_le_refl(best@);
    }
    let mut i: usize = 1;
    while i < entries.len()
        invariant
            1 <= i <= entries@.len(),
            exists|k: int| 0 <= k < i && entries@[k]@ == best@,
            forall|j: int| 0 <= j < i ==> lex_le(#[trigger] entries@[j]@, best@),
        decreases entries.len() - i,
    {
        if bytes_le(&best, &entries[i]) {
            let ghost old_best = best@;
            best = clone_bytes(&entries[i]);
            proof {
                assert forall|j: int| 0 <= j < i + 1 implies
                    lex_le(#[trigger] entries@[j]@, best@) by {
                    if j < i {
                        lemma_lex_le_trans(entries@[j]@, old_best, best@);
                    } else {
                        lemma_lex_le_refl(best@);
                    }
                }
            }
        } else {
            proof {
                lemma_lex_le_total(best@, entries@[i as int]@);
            }
        }
        i += 1;
    }
    Some(best)
}

} // verus!
