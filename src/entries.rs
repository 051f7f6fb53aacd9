//! The model of a history as a sequence of payload and label pairs.

use vstd::prelude::*;

verus! {

/// The model of a history: its entries in order, each a payload and a mime label.
pub type EntrySeq = Seq<(Seq<u8>, Seq<char>)>;

/// The model of a list of entries as the program holds them.
pub open spec fn pairs_view(v: Seq<(Vec<u8>, String)>) -> EntrySeq {
    Seq::new(v.len(), |i: int| (v[i].0@, v[i].1@))
}

/// Whether some entry of `s` has payload `k`.
pub open spec fn has_key(s: EntrySeq, k: Seq<u8>) -> bool {
    exists|i: int| 0 <= i < s.len() && #[trigger] s[i].0 == k
}

/// No two entries of `s` carry the same payload.
pub open spec fn no_dup_keys(s: EntrySeq) -> bool {
    forall|i: int, j: int| 0 <= i < s.len() && 0 <= j < s.len() && i != j ==> #[trigger] s[i].0 != #[trigger] s[j].0
}

/// The index of the first entry of `s` with payload `k`, or -1.
pub open spec fn position_of(s: EntrySeq, k: Seq<u8>) -> int
    decreases s.len(),
{
    if s.len() == 0 {
        -1
    } else if s[0].0 == k {
        0
    } else {
        let p = position_of(s.drop_first(), k);
        if p < 0 {
            -1
        } else {
            p + 1
        }
    }
}

/// `s` after putting `(k, v)`: a present payload keeps its place and takes the
/// new label, an absent one is appended.
pub open spec fn put(s: EntrySeq, k: Seq<u8>, v: Seq<char>) -> EntrySeq {
    let p = position_of(s, k);
    if p < 0 {
        s.push((k, v))
    } else {
        s.update(p, (k, v))
    }
}

/// `position_of` finds the first entry with the payload, and -1 exactly
/// when there is none.
pub proof fn lemma_position_of(s: EntrySeq, k: Seq<u8>)
    ensures
        -1 <= position_of(s, k) < s.len(),
        position_of(s, k) >= 0 ==> s[position_of(s, k)].0 == k,
        position_of(s, k) < 0 <==> !has_key(s, k),
        forall|i: int| 0 <= i < position_of(s, k) ==> s[i].0 != k,
    decreases s.len(),
{
    if s.len() > 0 && s[0].0 != k {
        lemma_position_of(s.drop_first(), k);
        if has_key(s, k) {
            let i = choose|i: int| 0 <= i < s.len() && #[trigger] s[i].0 == k;
            assert(s.drop_first()[i - 1].0 == k);
        }
        if has_key(s.drop_first(), k) {
            let i = choose|i: int| 0 <= i < s.len() - 1 && #[trigger] s.drop_first()[i].0 == k;
            assert(s[i + 1].0 == k);
        }
        assert forall|i: int| 0 <= i < position_of(s, k) implies s[i].0 != k by {
            if i > 0 {
                assert(s[i] == s.drop_first()[i - 1]);
            }
        }
    } else if s.len() > 0 {
        assert(s[0].0 == k);
    }
}

/// Putting a pair keeps payloads unique.
pub proof fn lemma_put_keeps_unique(s: EntrySeq, k: Seq<u8>, v: Seq<char>)
    requires
        no_dup_keys(s),
    ensures
        no_dup_keys(put(s, k, v)),
{
    lemma_position_of(s, k);
    let r = put(s, k, v);
    let p = position_of(s, k);
    assert forall|i: int, j: int| 0 <= i < r.len() && 0 <= j < r.len() && i != j implies #[trigger] r[i].0
        != #[trigger] r[j].0 by {
        if p < 0 {
            if i == s.len() {
                assert(s[j].0 == r[j].0);
            } else if j == s.len() {
                assert(s[i].0 == r[i].0);
            }
        } else {
            assert(r[i].0 == s[i].0 && r[j].0 == s[j].0);
        }
    }
}

} // verus!
