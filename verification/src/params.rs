//! An ordered mapping for header and query parameters.
//!
//! Keys are lowercased on insertion and kept strictly sorted in the order of
//! `text::lex_lt`, so the entry sequence is a canonical form: it depends only
//! on which pairs the mapping holds, never on the order they were inserted in.

use vstd::prelude::*;
use vstd::string::StringExecFns;
use crate::foreign::lower_of;
use crate::foreign::lowercase;
use crate::text::KeyOrder;
use crate::text::lemma_lex_connected;
use crate::text::lemma_lex_lt_asym;
use crate::text::lemma_lex_lt_irrefl;
use crate::text::lemma_lex_lt_trans;
use crate::text::lex_lt;
use crate::text::str_order;

verus! {

/// Keys are strictly ascending (hence unique).
pub open spec fn sorted_keys(keys: Seq<Seq<char>>) -> bool {
    forall|i: int, j: int| 0 <= i < j < keys.len() ==> lex_lt(keys[i], keys[j])
}

/// Well-formed entry sequences: one value per key, keys strictly sorted.
pub open spec fn entries_wf(keys: Seq<Seq<char>>, vals: Seq<Seq<char>>) -> bool {
    keys.len() == vals.len() && sorted_keys(keys)
}

/// The pair `(k, v)` stands at some position of the entry sequences.
pub open spec fn pair_in(keys: Seq<Seq<char>>, vals: Seq<Seq<char>>, k: Seq<char>, v: Seq<char>) -> bool {
    exists|i: int| 0 <= i < keys.len() && i < vals.len() && keys[i] == k && vals[i] == v
}

/// The position at which `k` stands or would be inserted: the count of keys
/// below it.
pub open spec fn insert_pos(keys: Seq<Seq<char>>, k: Seq<char>) -> int
    decreases keys.len(),
{
    if keys.len() == 0 {
        0
    } else if lex_lt(keys[0], k) {
        1 + insert_pos(keys.skip(1), k)
    } else {
        0
    }
}

/// Whether `k` is already present (at its insert position).
pub open spec fn key_found(keys: Seq<Seq<char>>, k: Seq<char>) -> bool {
    insert_pos(keys, k) < keys.len() && keys[insert_pos(keys, k)] == k
}

/// The key sequence after inserting `k`.
pub open spec fn inserted_keys(keys: Seq<Seq<char>>, k: Seq<char>) -> Seq<Seq<char>> {
    if key_found(keys, k) {
        keys
    } else {
        keys.insert(insert_pos(keys, k), k)
    }
}

/// The value sequence after inserting `k |-> v`.
pub open spec fn inserted_vals(
    keys: Seq<Seq<char>>,
    vals: Seq<Seq<char>>,
    k: Seq<char>,
    v: Seq<char>,
) -> Seq<Seq<char>> {
    if key_found(keys, k) {
        vals.update(insert_pos(keys, k), v)
    } else {
        vals.insert(insert_pos(keys, k), v)
    }
}

proof fn lemma_insert_pos_props(keys: Seq<Seq<char>>, k: Seq<char>)
    ensures
        0 <= insert_pos(keys, k) <= keys.len(),
        forall|j: int| 0 <= j < insert_pos(keys, k) ==> lex_lt(keys[j], k),
        insert_pos(keys, k) < keys.len() ==> !lex_lt(keys[insert_pos(keys, k)], k),
    decreases keys.len(),
{
    if keys.len() > 0 && lex_lt(keys[0], k) {
        lemma_insert_pos_props(keys.skip(1), k);
        assert forall|j: int| 0 <= j < insert_pos(keys, k) implies lex_lt(keys[j], k) by {
            if j > 0 {
                assert(keys[j] == keys.skip(1)[j - 1]);
            }
        }
    }
}

proof fn lemma_insert_pos_unique(keys: Seq<Seq<char>>, k: Seq<char>, p: int)
    requires
        0 <= p <= keys.len(),
        forall|j: int| 0 <= j < p ==> lex_lt(keys[j], k),
        p < keys.len() ==> !lex_lt(keys[p], k),
    ensures
        p == insert_pos(keys, k),
    decreases keys.len(),
{
    if keys.len() == 0 {
    } else if lex_lt(keys[0], k) {
        assert(p > 0);
        assert(forall|j: int| 0 <= j < p - 1 ==> lex_lt(keys.skip(1)[j], k));
        lemma_insert_pos_unique(keys.skip(1), k, p - 1);
    } else {
        assert(p == 0);
    }
}

/// An ordered, case-insensitively keyed mapping from parameter names to
/// values. The canonicalization rules need its entries sorted and unique.
pub struct ParamMap {
    keys: Vec<String>,
    vals: Vec<String>,
}

impl ParamMap {
    /// The (lowercased) keys, in storage order.
    pub closed spec fn key_seq(self) -> Seq<Seq<char>> {
        Seq::new(self.keys@.len(), |i: int| self.keys@[i]@)
    }

    /// The values, in storage order.
    pub closed spec fn val_seq(self) -> Seq<Seq<char>> {
        Seq::new(self.vals@.len(), |i: int| self.vals@[i]@)
    }

    /// One value per key; keys strictly sorted, so the representation is
    /// canonical.
    pub open spec fn wf(self) -> bool {
        entries_wf(self.key_seq(), self.val_seq())
    }

    /// An empty mapping.
    pub fn new() -> (m: ParamMap)
        ensures
            m.wf(),
            m.key_seq() == Seq::<Seq<char>>::empty(),
            m.val_seq() == Seq::<Seq<char>>::empty(),
    {
        let m = ParamMap { keys: Vec::new(), vals: Vec::new() };
        proof {
            assert(m.key_seq() =~= Seq::<Seq<char>>::empty());
            assert(m.val_seq() =~= Seq::<Seq<char>>::empty());
        }
        m
    }

    pub fn len(&self) -> (n: usize)
        ensures
            n == self.key_seq().len(),
    {
        self.keys.len()
    }

    pub fn key_at(&self, i: usize) -> (k: &String)
        requires
            i < self.key_seq().len(),
        ensures
            k@ == self.key_seq()[i as int],
    {
        &self.keys[i]
    }

    pub fn val_at(&self, i: usize) -> (v: &String)
        requires
            i < self.val_seq().len(),
        ensures
            v@ == self.val_seq()[i as int],
    {
        &self.vals[i]
    }

    /// Insert a pair. The key is lowercased; an existing entry under the same
    /// lowercased key is overwritten.
    pub fn insert(&mut self, key: &str, value: &str)
        requires
            old(self).wf(),
        ensures
            final(self).wf(),
            final(self).key_seq() == inserted_keys(old(self).key_seq(), lower_of(key@)),
            final(self).val_seq() == inserted_vals(
                old(self).key_seq(),
                old(self).val_seq(),
                lower_of(key@),
                value@,
            ),
    {
        let k = lowercase(key);
        let n = self.keys.len();
        let ghost okeys = self.key_seq();
        let ghost ovals = self.val_seq();
        let ghost kk = lower_of(key@);
        let mut i: usize = 0;
        loop
            invariant_except_break
                *self == *old(self),
                n == self.keys@.len(),
                okeys == old(self).key_seq(),
                ovals == old(self).val_seq(),
                okeys.len() == n,
                ovals.len() == n,
                k@ == kk,
                kk == lower_of(key@),
                old(self).wf(),
                i <= n,
                forall|j: int| 0 <= j < i ==> lex_lt(okeys[j], kk),
            ensures
                *self == *old(self),
                n == self.keys@.len(),
                okeys == old(self).key_seq(),
                ovals == old(self).val_seq(),
                okeys.len() == n,
                ovals.len() == n,
                k@ == kk,
                kk == lower_of(key@),
                i <= n,
                forall|j: int| 0 <= j < i ==> lex_lt(okeys[j], kk),
                i < n ==> !lex_lt(okeys[i as int], kk) && okeys[i as int] != kk,
            decreases n - i,
        {
            if i >= n {
                break;
            }
            proof {
                assert(okeys[i as int] == self.keys@[i as int]@);
            }
            match str_order(self.keys[i].as_str(), k.as_str()) {
                KeyOrder::Less => {
                    i += 1;
                }
                KeyOrder::Equal => {
                    proof {
                        lemma_lex_lt_irrefl(kk);
                        lemma_insert_pos_unique(okeys, kk, i as int);
                    }
                    self.vals[i] = String::from_str(value);
                    proof {
                        assert(key_found(okeys, kk));
                        assert(self.key_seq() =~= inserted_keys(okeys, kk));
                        assert forall|j: int| 0 <= j < n implies self.val_seq()[j]
                            == inserted_vals(okeys, ovals, kk, value@)[j] by {
                        }
                        assert(self.val_seq() =~= inserted_vals(okeys, ovals, kk, value@));
                        assert(self.wf());
                    }
                    return;
                }
                KeyOrder::Greater => {
                    proof {
                        lemma_lex_lt_asym(okeys[i as int], kk);
                        lemma_lex_lt_irrefl(kk);
                    }
                    break;
                }
            }
        }
        proof {
            lemma_insert_pos_unique(okeys, kk, i as int);
            assert(!key_found(okeys, kk));
        }
        self.keys.insert(i, k);
        self.vals.insert(i, String::from_str(value));
        proof {
            okeys.insert_ensures(i as int, kk);
            ovals.insert_ensures(i as int, value@);
            assert(self.key_seq() =~= inserted_keys(okeys, kk));
            assert(self.val_seq() =~= inserted_vals(okeys, ovals, kk, value@));
            lemma_inserted_wf(okeys, ovals, kk, value@);
            assert(self.wf());
        }
    }
}

/// Insertion preserves well-formedness.
pub proof fn lemma_inserted_wf(keys: Seq<Seq<char>>, vals: Seq<Seq<char>>, k: Seq<char>, v: Seq<char>)
    requires
        entries_wf(keys, vals),
    ensures
        entries_wf(inserted_keys(keys, k), inserted_vals(keys, vals, k, v)),
{
    lemma_insert_pos_props(keys, k);
    let p = insert_pos(keys, k);
    if key_found(keys, k) {
        assert(inserted_keys(keys, k) == keys);
    } else {
        let nk = keys.insert(p, k);
        if p < keys.len() {
            assert(!lex_lt(keys[p], k));
            assert(keys[p] != k) by {
                if keys[p] == k {
                    assert(key_found(keys, k));
                }
            }
            lemma_lex_connected_neg(keys[p], k);
        }
        assert forall|i: int, j: int| 0 <= i < j < nk.len() implies lex_lt(nk[i], nk[j]) by {
            if j < p {
                assert(nk[i] == keys[i] && nk[j] == keys[j]);
            } else if i < p && j == p {
                assert(nk[i] == keys[i] && nk[j] == k);
            } else if i < p && j > p {
                assert(nk[i] == keys[i] && nk[j] == keys[j - 1]);
            } else if i == p {
                assert(nk[i] == k && nk[j] == keys[j - 1]);
                if j - 1 > p {
                    lemma_lex_lt_trans(k, keys[p], keys[j - 1]);
                } else {
                    assert(lex_lt(k, keys[p]));
                }
            } else {
                assert(nk[i] == keys[i - 1] && nk[j] == keys[j - 1]);
            }
        }
    }
}

proof fn lemma_lex_connected_neg(a: Seq<char>, b: Seq<char>)
    requires
        !lex_lt(a, b),
        a != b,
    ensures
        lex_lt(b, a),
{
    if !lex_lt(b, a) {
        lemma_lex_connected(a, b);
    }
}

/// Where each pair stands after an insertion: the inserted key maps to the
/// new value, every other key keeps its pairing.
pub proof fn lemma_inserted_pairs(
    keys: Seq<Seq<char>>,
    vals: Seq<Seq<char>>,
    k: Seq<char>,
    v: Seq<char>,
    qk: Seq<char>,
    qv: Seq<char>,
)
    requires
        entries_wf(keys, vals),
    ensures
        pair_in(inserted_keys(keys, k), inserted_vals(keys, vals, k, v), qk, qv) <==> (if qk == k {
            qv == v
        } else {
            pair_in(keys, vals, qk, qv)
        }),
{
    lemma_insert_pos_props(keys, k);
    let p = insert_pos(keys, k);
    let nk = inserted_keys(keys, k);
    let nv = inserted_vals(keys, vals, k, v);
    // the inserted key stands at position p either way
    assert(nk[p] == k && nv[p] == v);
    if qk == k {
        if pair_in(nk, nv, qk, qv) {
            let i = choose|i: int| 0 <= i < nk.len() && i < nv.len() && nk[i] == qk && nv[i] == qv;
            assert(i == p) by {
                if i != p {
                    lemma_sorted_distinct(nk, i, p);
                    lemma_inserted_wf(keys, vals, k, v);
                }
            }
        }
    } else {
        if pair_in(keys, vals, qk, qv) {
            let i = choose|i: int| 0 <= i < keys.len() && i < vals.len() && keys[i] == qk
                && vals[i] == qv;
            if key_found(keys, k) {
                assert(i != p);
                assert(nk[i] == qk && nv[i] == qv);
            } else {
                if i < p {
                    assert(nk[i] == qk && nv[i] == qv);
                } else {
                    assert(nk[i + 1] == qk && nv[i + 1] == qv);
                }
            }
        }
        if pair_in(nk, nv, qk, qv) {
            let i = choose|i: int| 0 <= i < nk.len() && i < nv.len() && nk[i] == qk && nv[i] == qv;
            assert(i != p);
            if key_found(keys, k) {
                assert(keys[i] == qk && vals[i] == qv);
            } else {
                if i < p {
                    assert(keys[i] == qk && vals[i] == qv);
                } else {
                    assert(keys[i - 1] == qk && vals[i - 1] == qv);
                }
            }
        }
    }
}

proof fn lemma_sorted_distinct(keys: Seq<Seq<char>>, i: int, j: int)
    requires
        sorted_keys(keys),
        0 <= i < keys.len(),
        0 <= j < keys.len(),
        i != j,
    ensures
        keys[i] != keys[j],
{
    if i < j {
        lemma_lex_lt_irrefl(keys[i]);
    } else {
        lemma_lex_lt_irrefl(keys[j]);
    }
}

/// Canonical form: two well-formed entry sequences that hold the same pairs
/// are identical. This is what makes canonicalization independent of
/// insertion order.
pub proof fn lemma_canonical_form(
    k1: Seq<Seq<char>>,
    v1: Seq<Seq<char>>,
    k2: Seq<Seq<char>>,
    v2: Seq<Seq<char>>,
)
    requires
        entries_wf(k1, v1),
        entries_wf(k2, v2),
        forall|k: Seq<char>, v: Seq<char>| pair_in(k1, v1, k, v) <==> pair_in(k2, v2, k, v),
    ensures
        k1 == k2,
        v1 == v2,
    decreases k1.len(),
{
    if k1.len() == 0 {
        if k2.len() > 0 {
            assert(pair_in(k2, v2, k2[0], v2[0]));
            assert(pair_in(k1, v1, k2[0], v2[0]));
            assert(false);
        }
        assert(k1 =~= k2);
        assert(v1 =~= v2);
    } else if k2.len() == 0 {
        assert(pair_in(k1, v1, k1[0], v1[0]));
        assert(pair_in(k2, v2, k1[0], v1[0]));
        assert(false);
    } else {
        // the head key of each side is its minimum; the pair sets agree, so
        // the heads agree
        assert(pair_in(k1, v1, k1[0], v1[0]));
        assert(pair_in(k2, v2, k1[0], v1[0]));
        let j = choose|j: int| 0 <= j < k2.len() && j < v2.len() && k2[j] == k1[0] && v2[j]
            == v1[0];
        assert(pair_in(k2, v2, k2[0], v2[0]));
        assert(pair_in(k1, v1, k2[0], v2[0]));
        let i = choose|i: int| 0 <= i < k1.len() && i < v1.len() && k1[i] == k2[0] && v1[i]
            == v2[0];
        assert(k1[0] == k2[0]) by {
            if j > 0 {
                assert(lex_lt(k2[0], k2[j]));
            }
            if i > 0 {
                assert(lex_lt(k1[0], k1[i]));
            }
            if i == 0 || j == 0 {
            } else {
                lemma_lex_lt_asym(k1[0], k2[0]);
            }
        }
        assert(v1[0] == v2[0]) by {
            lemma_sorted_distinct_eq(k2, j);
        }
        // the tails hold exactly the pairs whose key is not the head key
        let t1k = k1.skip(1);
        let t1v = v1.skip(1);
        let t2k = k2.skip(1);
        let t2v = v2.skip(1);
        assert forall|k: Seq<char>, v: Seq<char>|
            pair_in(t1k, t1v, k, v) <==> pair_in(k1, v1, k, v) && k != k1[0] by {
            lemma_tail_pairs(k1, v1, k, v);
        }
        assert forall|k: Seq<char>, v: Seq<char>|
            pair_in(t2k, t2v, k, v) <==> pair_in(k2, v2, k, v) && k != k2[0] by {
            lemma_tail_pairs(k2, v2, k, v);
        }
        assert(entries_wf(t1k, t1v)) by {
            lemma_tail_wf(k1, v1);
        }
        assert(entries_wf(t2k, t2v)) by {
            lemma_tail_wf(k2, v2);
        }
        lemma_canonical_form(t1k, t1v, t2k, t2v);
        assert(k1.len() == k2.len());
        assert forall|i: int| 0 <= i < k1.len() implies k1[i] == k2[i] && v1[i] == v2[i] by {
            if i > 0 {
                assert(k1[i] == t1k[i - 1]);
                assert(k2[i] == t2k[i - 1]);
                assert(v1[i] == t1v[i - 1]);
                assert(v2[i] == t2v[i - 1]);
            }
        }
        assert(k1 =~= k2);
        assert(v1 =~= v2);
    }
}

proof fn lemma_sorted_distinct_eq(keys: Seq<Seq<char>>, j: int)
    requires
        sorted_keys(keys),
        0 <= j < keys.len(),
        keys.len() > 0,
        keys[j] == keys[0],
    ensures
        j == 0,
{
    if j != 0 {
        lemma_sorted_distinct(keys, 0, j);
    }
}

proof fn lemma_tail_wf(keys: Seq<Seq<char>>, vals: Seq<Seq<char>>)
    requires
        entries_wf(keys, vals),
        keys.len() > 0,
    ensures
        entries_wf(keys.skip(1), vals.skip(1)),
{
    assert forall|i: int, j: int| 0 <= i < j < keys.skip(1).len() implies lex_lt(
        keys.skip(1)[i],
        keys.skip(1)[j],
    ) by {
        assert(keys.skip(1)[i] == keys[i + 1]);
        assert(keys.skip(1)[j] == keys[j + 1]);
    }
}

proof fn lemma_tail_pairs(keys: Seq<Seq<char>>, vals: Seq<Seq<char>>, k: Seq<char>, v: Seq<char>)
    requires
        entries_wf(keys, vals),
        keys.len() > 0,
    ensures
        pair_in(keys.skip(1), vals.skip(1), k, v) <==> pair_in(keys, vals, k, v) && k != keys[0],
{
    if pair_in(keys.skip(1), vals.skip(1), k, v) {
        let i = choose|i: int| 0 <= i < keys.skip(1).len() && i < vals.skip(1).len()
            && keys.skip(1)[i] == k && vals.skip(1)[i] == v;
        assert(keys[i + 1] == k && vals[i + 1] == v);
        lemma_sorted_distinct(keys, 0, i + 1);
    }
    if pair_in(keys, vals, k, v) && k != keys[0] {
        let i = choose|i: int| 0 <= i < keys.len() && i < vals.len() && keys[i] == k && vals[i]
            == v;
        assert(i != 0);
        assert(keys.skip(1)[i - 1] == k && vals.skip(1)[i - 1] == v);
    }
}

/// Insertion order of distinct keys does not matter: inserting `ka |-> va`
/// then `kb |-> vb` leaves the same entries as the other order.
pub proof fn lemma_insert_commutes(
    keys: Seq<Seq<char>>,
    vals: Seq<Seq<char>>,
    ka: Seq<char>,
    va: Seq<char>,
    kb: Seq<char>,
    vb: Seq<char>,
)
    requires
        entries_wf(keys, vals),
        ka != kb,
    ensures
        inserted_keys(inserted_keys(keys, ka), kb) == inserted_keys(inserted_keys(keys, kb), ka),
        inserted_vals(
            inserted_keys(keys, ka),
            inserted_vals(keys, vals, ka, va),
            kb,
            vb,
        ) == inserted_vals(inserted_keys(keys, kb), inserted_vals(keys, vals, kb, vb), ka, va),
{
    let k_ab = inserted_keys(inserted_keys(keys, ka), kb);
    let v_ab = inserted_vals(inserted_keys(keys, ka), inserted_vals(keys, vals, ka, va), kb, vb);
    let k_ba = inserted_keys(inserted_keys(keys, kb), ka);
    let v_ba = inserted_vals(inserted_keys(keys, kb), inserted_vals(keys, vals, kb, vb), ka, va);
    lemma_inserted_wf(keys, vals, ka, va);
    lemma_inserted_wf(inserted_keys(keys, ka), inserted_vals(keys, vals, ka, va), kb, vb);
    lemma_inserted_wf(keys, vals, kb, vb);
    lemma_inserted_wf(inserted_keys(keys, kb), inserted_vals(keys, vals, kb, vb), ka, va);
    assert forall|k: Seq<char>, v: Seq<char>| pair_in(k_ab, v_ab, k, v) <==> pair_in(
        k_ba,
        v_ba,
        k,
        v,
    ) by {
        lemma_inserted_pairs(inserted_keys(keys, ka), inserted_vals(keys, vals, ka, va), kb, vb, k, v);
        lemma_inserted_pairs(keys, vals, ka, va, k, v);
        lemma_inserted_pairs(inserted_keys(keys, kb), inserted_vals(keys, vals, kb, vb), ka, va, k, v);
        lemma_inserted_pairs(keys, vals, kb, vb, k, v);
    }
    lemma_canonical_form(k_ab, v_ab, k_ba, v_ba);
}

} // verus!
