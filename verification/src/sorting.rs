//! A stable sort by (rank, text) keys: the order of the autostart list.
//!
//! Text is compared character by character, by code point; a proper prefix
//! comes first. This is the order `str` comparison gives, since UTF-8 keeps
//! code point order byte by byte.

use vstd::prelude::*;

verus! {

/// `a` comes strictly before `b` in code point order.
pub open spec fn text_lt(a: Seq<char>, b: Seq<char>) -> bool
    decreases a.len(),
{
    if a.len() == 0 {
        b.len() > 0
    } else if b.len() == 0 {
        false
    } else if a[0] != b[0] {
        a[0] < b[0]
    } else {
        text_lt(a.drop_first(), b.drop_first())
    }
}

/// A sort key: a rank first, then text.
pub open spec fn key_lt(a: (u8, Seq<char>), b: (u8, Seq<char>)) -> bool {
    a.0 < b.0 || (a.0 == b.0 && text_lt(a.1, b.1))
}

pub proof fn lemma_text_lt_irreflexive(a: Seq<char>)
    ensures
        !text_lt(a, a),
    decreases a.len(),
{
    if a.len() > 0 {
        lemma_text_lt_irreflexive(a.drop_first());
    }
}

pub proof fn lemma_text_lt_total(a: Seq<char>, b: Seq<char>)
    ensures
        text_lt(a, b) || a == b || text_lt(b, a),
    decreases a.len(),
{
    if a.len() > 0 && b.len() > 0 {
        if a[0] == b[0] {
            lemma_text_lt_total(a.drop_first(), b.drop_first());
            if a.drop_first() == b.drop_first() {
                assert(a =~= seq![a[0]] + a.drop_first());
                assert(b =~= seq![b[0]] + b.drop_first());
            }
        }
    } else if a.len() == 0 && b.len() == 0 {
        assert(a =~= b);
    }
}

pub proof fn lemma_text_lt_transitive(a: Seq<char>, b: Seq<char>, c: Seq<char>)
    requires
        text_lt(a, b),
        text_lt(b, c),
    ensures
        text_lt(a, c),
    decreases a.len(),
{
    if a.len() > 0 && b.len() > 0 && c.len() > 0 {
        if a[0] == b[0] && b[0] == c[0] {
            lemma_text_lt_transitive(a.drop_first(), b.drop_first(), c.drop_first());
        }
    }
}

pub proof fn lemma_key_lt_irreflexive(a: (u8, Seq<char>))
    ensures
        !key_lt(a, a),
{
    lemma_text_lt_irreflexive(a.1);
}

pub proof fn lemma_key_lt_total(a: (u8, Seq<char>), b: (u8, Seq<char>))
    ensures
        key_lt(a, b) || a == b || key_lt(b, a),
{
    lemma_text_lt_total(a.1, b.1);
}

pub proof fn lemma_key_lt_transitive(a: (u8, Seq<char>), b: (u8, Seq<char>), c: (u8, Seq<char>))
    requires
        key_lt(a, b),
        key_lt(b, c),
    ensures
        key_lt(a, c),
{
    if a.0 == b.0 && b.0 == c.0 {
        lemma_text_lt_transitive(a.1, b.1, c.1);
    }
}

fn text_lt_exec(a: &[char], b: &[char]) -> (r: bool)
    ensures
        r == text_lt(a@, b@),
{
    let mut i: usize = 0;
    proof {
        assert(a@.subrange(0, a@.len() as int) =~= a@);
        assert(b@.subrange(0, b@.len() as int) =~= b@);
    }
    while i < a.len() && i < b.len() && a[i] == b[i]
        invariant
            0 <= i <= a@.len(),
            i <= b@.len(),
            text_lt(a@, b@) == text_lt(a@.subrange(i as int, a@.len() as int), b@.subrange(
                i as int,
                b@.len() as int,
            )),
        decreases a@.len() - i,
    {
        proof {
            let sa = a@.subrange(i as int, a@.len() as int);
            let sb = b@.subrange(i as int, b@.len() as int);
            assert(sa.drop_first() =~= a@.subrange(i + 1, a@.len() as int));
            assert(sb.drop_first() =~= b@.subrange(i + 1, b@.len() as int));
        }
        i = i + 1;
    }
    if i == a.len() {
        i < b.len()
    } else if i == b.len() {
        false
    } else {
        a[i] < b[i]
    }
}

pub open spec fn key_views(keys: Seq<(u8, Vec<char>)>) -> Seq<(u8, Seq<char>)> {
    keys.map_values(|k: (u8, Vec<char>)| (k.0, k.1@))
}

fn key_lt_exec(a: &(u8, Vec<char>), b: &(u8, Vec<char>)) -> (r: bool)
    ensures
        r == key_lt((a.0, a.1@), (b.0, b.1@)),
{
    a.0 < b.0 || (a.0 == b.0 && text_lt_exec(a.1.as_slice(), b.1.as_slice()))
}

/// `out` is `items` reordered by `perm` so that keys never decrease, and
/// items with equal keys keep the order they came in.
pub open spec fn stably_sorted_by<T>(
    out: Seq<T>,
    items: Seq<T>,
    keys: Seq<(u8, Seq<char>)>,
    perm: Seq<int>,
) -> bool {
    &&& perm.len() == items.len()
    &&& out.len() == items.len()
    &&& forall|i: int| 0 <= i < perm.len() ==> 0 <= #[trigger] perm[i] < items.len()
    &&& forall|i: int, j: int| 0 <= i < j < perm.len() ==> perm[i] != perm[j]
    &&& forall|i: int| 0 <= i < out.len() ==> #[trigger] out[i] == items[perm[i]]
    &&& forall|i: int, j: int|
        0 <= i < j < perm.len() ==> !key_lt(keys[perm[j]], keys[perm[i]])
    &&& forall|i: int, j: int|
        0 <= i < j < perm.len() && keys[perm[i]] == keys[perm[j]] ==> perm[i] < perm[j]
}

/// The position of the first smallest key.
fn first_smallest(keys: &Vec<(u8, Vec<char>)>) -> (m: usize)
    requires
        keys@.len() > 0,
    ensures
        m < keys@.len(),
        forall|q: int| 0 <= q < keys@.len() ==> !key_lt(key_views(keys@)[q], key_views(keys@)[m as int]),
        forall|q: int| 0 <= q < m ==> key_lt(key_views(keys@)[m as int], key_views(keys@)[q]),
{
    let ghost kv = key_views(keys@);
    let mut best: usize = 0;
    let mut q: usize = 1;
    proof {
        lemma_key_lt_irreflexive(kv[0]);
    }
    while q < keys.len()
        invariant
            kv == key_views(keys@),
            0 <= best < q <= keys@.len(),
            forall|p: int| 0 <= p < q ==> !key_lt(kv[p], kv[best as int]),
            forall|p: int| 0 <= p < best ==> key_lt(kv[best as int], kv[p]),
        decreases keys@.len() - q,
    {
        if key_lt_exec(&keys[q], &keys[best]) {
            proof {
                assert forall|p: int| 0 <= p < q implies key_lt(kv[q as int], kv[p]) by {
                    lemma_key_lt_total(kv[best as int], kv[p]);
                    if key_lt(kv[best as int], kv[p]) {
                        lemma_key_lt_transitive(kv[q as int], kv[best as int], kv[p]);
                    }
                }
                assert forall|p: int| 0 <= p < q + 1 implies !key_lt(kv[p], kv[q as int]) by {
                    if p == q {
                        lemma_key_lt_irreflexive(kv[q as int]);
                    } else {
                        if key_lt(kv[p], kv[q as int]) {
                            lemma_key_lt_transitive(kv[p], kv[q as int], kv[p]);
                            lemma_key_lt_irreflexive(kv[p]);
                        }
                    }
                }
            }
            best = q;
        }
        q = q + 1;
    }
    best
}

/// `items` stably sorted by `keys` (one key per item).
pub fn stable_sort_by_keys<T>(items: Vec<T>, keys: Vec<(u8, Vec<char>)>) -> (out: Vec<T>)
    requires
        items@.len() == keys@.len(),
    ensures
        exists|perm: Seq<int>| stably_sorted_by(out@, items@, key_views(keys@), perm),
{
    let ghost s = items@;
    let ghost ks = key_views(keys@);
    let mut rem = items;
    let mut rem_keys = keys;
    let mut out: Vec<T> = Vec::new();
    let ghost mut out_idx: Seq<int> = Seq::empty();
    let ghost mut rem_idx: Seq<int> = Seq::new(s.len(), |i: int| i);
    proof {
        assert(key_views(rem_keys@) =~= ks);
    }
    while rem.len() > 0
        invariant
            rem@.len() == rem_keys@.len(),
            rem_idx.len() == rem@.len(),
            out_idx.len() == out@.len(),
            out_idx.len() + rem_idx.len() == s.len(),
            ks.len() == s.len(),
            forall|i: int| 0 <= i < out_idx.len() ==> 0 <= #[trigger] out_idx[i] < s.len(),
            forall|i: int| 0 <= i < rem_idx.len() ==> 0 <= #[trigger] rem_idx[i] < s.len(),
            forall|i: int, j: int| 0 <= i < j < out_idx.len() ==> out_idx[i] != out_idx[j],
            forall|i: int, j: int| 0 <= i < j < rem_idx.len() ==> rem_idx[i] < rem_idx[j],
            forall|i: int, j: int|
                0 <= i < out_idx.len() && 0 <= j < rem_idx.len() ==> out_idx[i] != rem_idx[j],
            forall|i: int| 0 <= i < out@.len() ==> #[trigger] out@[i] == s[out_idx[i]],
            forall|i: int| 0 <= i < rem@.len() ==> #[trigger] rem@[i] == s[rem_idx[i]],
            forall|i: int| 0 <= i < rem@.len() ==> #[trigger] key_views(rem_keys@)[i] == ks[rem_idx[i]],
            forall|i: int, j: int|
                0 <= i < j < out_idx.len() ==> !key_lt(ks[out_idx[j]], ks[out_idx[i]]),
            forall|i: int, j: int|
                0 <= i < j < out_idx.len() && ks[out_idx[i]] == ks[out_idx[j]] ==> out_idx[i]
                    < out_idx[j],
            forall|i: int, j: int|
                0 <= i < out_idx.len() && 0 <= j < rem_idx.len() ==> !key_lt(
                    ks[rem_idx[j]],
                    ks[out_idx[i]],
                ),
            forall|i: int, j: int|
                0 <= i < out_idx.len() && 0 <= j < rem_idx.len() && ks[out_idx[i]]
                    == ks[rem_idx[j]] ==> out_idx[i] < rem_idx[j],
        decreases rem@.len(),
    {
        let m = first_smallest(&rem_keys);
        let ghost x = rem_idx[m as int];
        let ghost rk = key_views(rem_keys@);
        proof {
            assert(rk[m as int] == ks[x]);
        }
        let item = rem.remove(m);
        let _k = rem_keys.remove(m);
        out.push(item);
        proof {
            let old_rem_idx = rem_idx;
            let old_out_idx = out_idx;
            rem_idx = rem_idx.remove(m as int);
            out_idx = out_idx.push(x);
            assert(key_views(rem_keys@) =~= rk.remove(m as int));
            // The picked key is no larger than any remaining key.
            assert forall|j: int| 0 <= j < rem_idx.len() implies !key_lt(ks[rem_idx[j]], ks[x]) by {
                let jj = if j < m { j } else { j + 1 };
                assert(rem_idx[j] == old_rem_idx[jj]);
                assert(rk[jj] == ks[old_rem_idx[jj]]);
            }
            // A remaining item with the same key came later.
            assert forall|j: int| 0 <= j < rem_idx.len() && ks[x] == ks[rem_idx[j]] implies x
                < rem_idx[j] by {
                let jj = if j < m { j } else { j + 1 };
                assert(rem_idx[j] == old_rem_idx[jj]);
                assert(rk[jj] == ks[old_rem_idx[jj]]);
                if jj < m {
                    assert(key_lt(rk[m as int], rk[jj]));
                    lemma_key_lt_irreflexive(ks[x]);
                }
            }
            assert forall|i: int, j: int|
                0 <= i < out_idx.len() && 0 <= j < rem_idx.len() implies !key_lt(
                ks[rem_idx[j]],
                ks[out_idx[i]],
            ) by {
                let jj = if j < m { j } else { j + 1 };
                assert(rem_idx[j] == old_rem_idx[jj]);
            }
            assert forall|i: int, j: int|
                0 <= i < out_idx.len() && 0 <= j < rem_idx.len() && ks[out_idx[i]]
                    == ks[rem_idx[j]] implies out_idx[i] < rem_idx[j] by {
                let jj = if j < m { j } else { j + 1 };
                assert(rem_idx[j] == old_rem_idx[jj]);
            }
            assert forall|i: int, j: int| 0 <= i < j < rem_idx.len() implies rem_idx[i]
                < rem_idx[j] by {
                let ii = if i < m { i } else { i + 1 };
                let jj = if j < m { j } else { j + 1 };
                assert(rem_idx[i] == old_rem_idx[ii]);
                assert(rem_idx[j] == old_rem_idx[jj]);
            }
            assert forall|i: int, j: int|
                0 <= i < out_idx.len() && 0 <= j < rem_idx.len() implies out_idx[i]
                    != rem_idx[j] by {
                let jj = if j < m { j } else { j + 1 };
                assert(rem_idx[j] == old_rem_idx[jj]);
                if i == old_out_idx.len() {
                    assert(jj != m);
                }
            }
            assert forall|i: int| 0 <= i < rem@.len() implies #[trigger] rem@[i]
                == s[rem_idx[i]] by {
                let ii = if i < m { i } else { i + 1 };
                assert(rem_idx[i] == old_rem_idx[ii]);
            }
            assert forall|i: int| 0 <= i < rem@.len() implies #[trigger] key_views(
                rem_keys@,
            )[i] == ks[rem_idx[i]] by {
                let ii = if i < m { i } else { i + 1 };
                assert(rem_idx[i] == old_rem_idx[ii]);
                assert(key_views(rem_keys@)[i] == rk[ii]);
            }
            assert forall|i: int| 0 <= i < rem_idx.len() implies 0 <= #[trigger] rem_idx[i]
                < s.len() by {
                let ii = if i < m { i } else { i + 1 };
                assert(rem_idx[i] == old_rem_idx[ii]);
            }
        }
    }
    proof {
        assert(stably_sorted_by(out@, s, ks, out_idx));
    }
    out
}

} // verus!
