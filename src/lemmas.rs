use crate::chaos::{
    after_decision, byte_width, decision_of, index_draw_len, index_of, shuffle_from, swapped,
};
use vstd::prelude::*;

verus! {

/// The answers and the unread bytes after `k` boolean draws from `unread`,
/// one after another, as `ControlPlane::get_decision` makes them.
pub open spec fn decisions(unread: Seq<u8>, k: nat) -> (Seq<bool>, Seq<u8>)
    decreases k,
{
    if k == 0 {
        (Seq::empty(), unread)
    } else {
        let prev = decisions(unread, (k - 1) as nat);
        (prev.0.push(decision_of(prev.1)), after_decision(prev.1))
    }
}

/// Successive decisions consume the buffer front to back, one byte each and
/// none twice: after `k` of them exactly the first `min(k, n)` of the `n`
/// bytes are gone, the `i`-th answer is the lowest bit of the `i`-th byte,
/// and every answer past the end is `false`. Calls from several handles on
/// one buffer are serialized, so this also counts what `k` calls consume in
/// any interleaving.
pub proof fn lemma_decisions_consume_prefix(unread: Seq<u8>, k: nat)
    ensures
        decisions(unread, k).1 == unread.skip(
            if k < unread.len() {
                k as int
            } else {
                unread.len() as int
            },
        ),
        unread.len() - decisions(unread, k).1.len() == if k < unread.len() {
            k as int
        } else {
            unread.len() as int
        },
        decisions(unread, k).0.len() == k,
        forall|i: int|
            0 <= i < k ==> #[trigger] decisions(unread, k).0[i] == (i < unread.len() && unread[i]
                & 1 == 1),
    decreases k,
{
    if k > 0 {
        lemma_decisions_consume_prefix(unread, (k - 1) as nat);
        let prev = decisions(unread, (k - 1) as nat);
        if k - 1 < unread.len() {
            assert(after_decision(prev.1) =~= unread.skip(k as int));
        } else {
            assert(prev.1.len() == 0);
        }
        assert forall|i: int| 0 <= i < k implies #[trigger] decisions(unread, k).0[i] == (i
            < unread.len() && unread[i] & 1 == 1) by {
            if i < k - 1 {
                assert(decisions(unread, k).0[i] == prev.0[i]);
            }
        }
    }
}

/// More bytes are never needed to write a smaller number.
pub proof fn lemma_byte_width_monotonic(a: nat, b: nat)
    requires
        a <= b,
    ensures
        byte_width(a) <= byte_width(b),
    decreases b,
{
    if a > 0 {
        lemma_byte_width_monotonic(a / 256, b / 256);
    }
}

/// Exchanging two elements keeps the multiset of elements.
pub proof fn lemma_swapped_permutes<T>(s: Seq<T>, i: int, j: int)
    requires
        0 <= i < s.len(),
        0 <= j < s.len(),
    ensures
        swapped(s, i, j).to_multiset() == s.to_multiset(),
{
    broadcast use vstd::seq_lib::to_multiset_update;
    broadcast use vstd::multiset::group_multiset_axioms;
    broadcast use vstd::seq_lib::to_multiset_contains;

    let t = s.update(i, s[j]);
    assert(s.to_multiset().count(s[i]) > 0);
    assert(t.to_multiset() == s.to_multiset().insert(s[j]).remove(s[i]));
    assert(t[j] == s[j]);
    assert(swapped(s, i, j).to_multiset() == t.to_multiset().insert(s[i]).remove(s[j]));
    assert(swapped(s, i, j).to_multiset() =~= s.to_multiset());
}

/// Shuffling from position `i` permutes the elements, keeps the length, leaves a suffix of the
/// bytes unread, and makes at most one draw for each position but the last,
/// each of at most as many bytes as `s.len() - 1` has base-256 digits.
pub proof fn lemma_shuffle_from_consumes<T>(s: Seq<T>, i: nat, unread: Seq<u8>)
    requires
        i < s.len(),
    ensures
        shuffle_from(s, i, unread).0.len() == s.len(),
        shuffle_from(s, i, unread).0.to_multiset() == s.to_multiset(),
        shuffle_from(s, i, unread).1.len() <= unread.len(),
        shuffle_from(s, i, unread).1 == unread.skip(
            unread.len() - shuffle_from(s, i, unread).1.len(),
        ),
        unread.len() - shuffle_from(s, i, unread).1.len() <= (s.len() - 1 - i) * byte_width(
            (s.len() - 1) as nat,
        ),
    decreases s.len() - i,
{
    if !(i + 1 >= s.len() || unread.len() == 0) {
        let n = (s.len() - i) as nat;
        let k = index_of(unread, n);
        let dl = index_draw_len(unread, n);
        let w = byte_width((s.len() - 1) as nat);
        let t = swapped(s, i as int, (i + k) as int);
        lemma_byte_width_monotonic((n - 1) as nat, (s.len() - 1) as nat);
        lemma_swapped_permutes(s, i as int, (i + k) as int);
        lemma_shuffle_from_consumes(t, i + 1, unread.skip(dl as int));
        let u2 = unread.skip(dl as int);
        let rest = shuffle_from(t, i + 1, u2).1;
        assert(rest == u2.skip(u2.len() - rest.len()));
        assert(rest =~= unread.skip(unread.len() - rest.len()));
        assert((s.len() - 1 - i) * w == w + (s.len() - 1 - (i + 1)) * w) by (nonlinear_arith);
    } else {
        assert(unread =~= unread.skip(0));
    }
}

/// A shuffle permutes the slice. It makes at most one index draw for each
/// element but the last, each of at most as many bytes as `s.len() - 1` has
/// base-256 digits, and the bytes it leaves are a suffix of those it found.
pub proof fn lemma_shuffle_permutes_within_budget<T>(s: Seq<T>, unread: Seq<u8>)
    requires
        s.len() > 0,
    ensures
        shuffle_from(s, 0, unread).0.to_multiset() == s.to_multiset(),
        shuffle_from(s, 0, unread).1 == unread.skip(
            unread.len() - shuffle_from(s, 0, unread).1.len(),
        ),
        unread.len() - shuffle_from(s, 0, unread).1.len() <= (s.len() - 1) * byte_width(
            (s.len() - 1) as nat,
        ),
{
    lemma_shuffle_from_consumes(s, 0, unread);
}

/// The permutation a shuffle makes, and what it consumes, depend on the
/// slice and on the unread bytes alone.
pub proof fn lemma_shuffle_deterministic<T>(s1: Seq<T>, u1: Seq<u8>, s2: Seq<T>, u2: Seq<u8>)
    requires
        s1 == s2,
        u1 == u2,
    ensures
        shuffle_from(s1, 0, u1) == shuffle_from(s2, 0, u2),
{
}

/// A shuffle of a slice of length 0 or 1 leaves it unchanged and consumes
/// no byte.
pub proof fn lemma_shuffle_short<T>(s: Seq<T>, unread: Seq<u8>)
    requires
        s.len() <= 1,
    ensures
        shuffle_from(s, 0, unread) == (s, unread),
{
}

} // verus!
