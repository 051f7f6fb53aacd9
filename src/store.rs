//! The clipboard history: ordered, without repeated payloads, and bounded.

use indexmap::IndexMap;
use vstd::prelude::*;

use crate::entries::{has_key, no_dup_keys, pairs_view, EntrySeq};
use crate::ordered_map::{
    entries_of, map_clear, map_contains_key, map_get_index, map_len, map_new, map_shift_insert,
    map_shift_remove_index, map_truncate,
};

verus! {

/// `s` cut down to its first `cap` entries.
pub open spec fn trimmed(s: EntrySeq, cap: nat) -> EntrySeq {
    if s.len() > cap {
        s.take(cap as int)
    } else {
        s
    }
}

/// The history after offering `(p, m)`: a payload already held changes
/// nothing; a new one goes to the front, and the oldest entries beyond `cap`
/// are dropped.
pub open spec fn offered(s: EntrySeq, p: Seq<u8>, m: Seq<char>, cap: nat) -> EntrySeq {
    if has_key(s, p) {
        s
    } else {
        trimmed(seq![(p, m)] + s, cap)
    }
}

/// The label that `latest` gives when the history is empty.
pub open spec fn empty_label() -> Seq<char> {
    seq!['E', 'm', 'p', 't', 'y']
}

/// The history after offering each pair of `xs` in turn.
pub open spec fn offered_all(s: EntrySeq, xs: EntrySeq, cap: nat) -> EntrySeq
    decreases xs.len(),
{
    if xs.len() == 0 {
        s
    } else {
        let before = offered_all(s, xs.drop_last(), cap);
        offered(before, xs.last().0, xs.last().1, cap)
    }
}

/// One offer keeps a history free of repeated payloads and within its capacity.
pub proof fn lemma_offered_wf(s: EntrySeq, p: Seq<u8>, m: Seq<char>, cap: nat)
    requires
        no_dup_keys(s),
        s.len() <= cap,
    ensures
        no_dup_keys(offered(s, p, m, cap)),
        offered(s, p, m, cap).len() <= cap,
{
    if !has_key(s, p) {
        let t = seq![(p, m)] + s;
        assert forall|i: int, j: int| 0 <= i < t.len() && 0 <= j < t.len() && i != j implies #[trigger] t[i].0
            != #[trigger] t[j].0 by {
            if i == 0 {
                assert(s[j - 1].0 == t[j].0);
            } else if j == 0 {
                assert(s[i - 1].0 == t[i].0);
            } else {
                assert(s[i - 1] == t[i] && s[j - 1] == t[j]);
            }
        }
        lemma_take_keeps_unique(t, cap as int);
    }
}

/// However many payloads are offered, in whatever order, the history never
/// holds two entries with the same payload bytes, and never more entries than
/// its capacity.
pub proof fn lemma_offers_keep_history_wf(s: EntrySeq, xs: EntrySeq, cap: nat)
    requires
        no_dup_keys(s),
        s.len() <= cap,
    ensures
        no_dup_keys(offered_all(s, xs, cap)),
        offered_all(s, xs, cap).len() <= cap,
    decreases xs.len(),
{
    if xs.len() > 0 {
        lemma_offers_keep_history_wf(s, xs.drop_last(), cap);
        lemma_offered_wf(offered_all(s, xs.drop_last(), cap), xs.last().0, xs.last().1, cap);
    }
}

/// Right after a payload that was not held is offered to a history with room
/// for at least one entry, the front entry, which `latest` gives, is that
/// payload with its label.
pub proof fn lemma_offer_then_latest(s: EntrySeq, p: Seq<u8>, m: Seq<char>, cap: nat)
    requires
        !has_key(s, p),
        cap > 0,
    ensures
        offered(s, p, m, cap).len() > 0,
        offered(s, p, m, cap)[0] == (p, m),
{
}

/// Removing the entry at `i` moves every later entry forward by one and
/// leaves every earlier entry where it was.
pub proof fn lemma_remove_shifts(s: EntrySeq, i: int)
    requires
        0 <= i < s.len(),
    ensures
        s.remove(i).len() == s.len() - 1,
        forall|j: int| i < j < s.len() ==> s.remove(i)[j - 1] == #[trigger] s[j],
        forall|j: int| 0 <= j < i ==> s.remove(i)[j] == #[trigger] s[j],
{
}

/// The ordered, deduplicated and bounded clipboard history.
pub struct ClipboardStore {
    items: IndexMap<Vec<u8>, String>,
    capacity: usize,
}

impl View for ClipboardStore {
    type V = EntrySeq;

    closed spec fn view(&self) -> EntrySeq {
        entries_of(self.items)
    }
}

impl ClipboardStore {
    /// The most entries the history holds.
    pub closed spec fn cap(&self) -> nat {
        self.capacity as nat
    }

    /// No payload twice, and no more entries than the capacity.
    pub open spec fn wf(&self) -> bool {
        no_dup_keys(self@) && self@.len() <= self.cap()
    }

    /// An empty history that holds at most `capacity` entries.
    pub fn new(capacity: usize) -> (r: Self)
        ensures
            r.wf(),
            r@ == Seq::<(Seq<u8>, Seq<char>)>::empty(),
            r.cap() == capacity,
    {
        ClipboardStore { items: map_new(), capacity }
    }

    /// A history holding the entries of `items` that fit in `capacity`, the
    /// oldest beyond it dropped.
    pub(crate) fn from_map(items: IndexMap<Vec<u8>, String>, capacity: usize) -> (r: Self)
        requires
            no_dup_keys(entries_of(items)),
        ensures
            r.wf(),
            r@ == trimmed(entries_of(items), capacity as nat),
            r.cap() == capacity,
    {
        let mut store = ClipboardStore { items, capacity };
        store.enforce_capacity();
        store
    }

    pub fn capacity(&self) -> (r: usize)
        ensures
            r == self.cap(),
    {
        self.capacity
    }

    pub fn len(&self) -> (r: usize)
        ensures
            r == self@.len(),
    {
        map_len(&self.items)
    }

    /// Whether an entry with exactly these payload bytes is held.
    pub fn contains(&self, payload: &Vec<u8>) -> (r: bool)
        ensures
            r == has_key(self@, payload@),
    {
        map_contains_key(&self.items, payload)
    }

    /// Drops the oldest entries until the history fits its capacity.
    pub fn enforce_capacity(&mut self)
        requires
            no_dup_keys(old(self)@),
        ensures
            final(self).wf(),
            final(self)@ == trimmed(old(self)@, old(self).cap()),
            final(self).cap() == old(self).cap(),
    {
        proof {
            lemma_take_keeps_unique(self@, self.capacity as int);
        }
        map_truncate(&mut self.items, self.capacity);
    }

    /// Offers a payload: a payload already held keeps its place and label; a
    /// new one becomes the front entry, and the history is cut back to its
    /// capacity from the oldest end.
    pub fn insert_front(&mut self, payload: Vec<u8>, mime: String)
        requires
            old(self).wf(),
        ensures
            final(self).wf(),
            final(self).cap() == old(self).cap(),
            final(self)@ == offered(old(self)@, payload@, mime@, old(self).cap()),
    {
        if map_contains_key(&self.items, &payload) {
            return;
        }
        let ghost before = self@;
        let ghost p = payload@;
        let ghost m = mime@;
        proof {
            lemma_offered_wf(before, p, m, self.cap());
        }
        map_shift_insert(&mut self.items, 0, payload, mime);
        proof {
            assert(self@ =~= seq![(p, m)] + before);
        }
        self.enforce_capacity();
    }

    /// The entry at `index`, or `None` past the end.
    pub fn get(&self, index: usize) -> (r: Option<(Vec<u8>, String)>)
        ensures
            r is Some <==> index < self@.len(),
            r is Some ==> (r->Some_0.0@, r->Some_0.1@) == self@[index as int],
    {
        map_get_index(&self.items, index)
    }

    /// Removes the entry at `index`, moving the later ones forward by one;
    /// says whether there was one.
    pub fn remove_at(&mut self, index: usize) -> (r: bool)
        requires
            old(self).wf(),
        ensures
            final(self).wf(),
            final(self).cap() == old(self).cap(),
            r == (index < old(self)@.len()),
            r ==> final(self)@ == old(self)@.remove(index as int),
            !r ==> final(self)@ == old(self)@,
    {
        let ghost before = self@;
        let removed = map_shift_remove_index(&mut self.items, index);
        proof {
            if index < before.len() {
                assert forall|i: int, j: int|
                    0 <= i < self@.len() && 0 <= j < self@.len() && i != j implies #[trigger] self@[i].0
                    != #[trigger] self@[j].0 by {
                    let bi = if i < index { i } else { i + 1 };
                    let bj = if j < index { j } else { j + 1 };
                    assert(before[bi] == self@[i] && before[bj] == self@[j]);
                }
            }
        }
        removed.is_some()
    }

    /// Empties the history.
    pub fn clear(&mut self)
        ensures
            final(self).wf(),
            final(self).cap() == old(self).cap(),
            final(self)@ == Seq::<(Seq<u8>, Seq<char>)>::empty(),
    {
        map_clear(&mut self.items);
    }

    /// The front entry, or the payload-less `"Empty"` marker when the history
    /// is empty.
    pub fn latest(&self) -> (r: (Vec<u8>, String))
        ensures
            self@.len() > 0 ==> (r.0@, r.1@) == self@[0],
            self@.len() == 0 ==> r.0@ == Seq::<u8>::empty() && r.1@ == empty_label(),
    {
        match map_get_index(&self.items, 0) {
            Some(entry) => entry,
            None => {
                let label = String::from_str("Empty");
                proof {
                    reveal_strlit("Empty");
                }
                (Vec::new(), label)
            }
        }
    }

    /// A copy of every entry, in order.
    pub fn all(&self) -> (r: Vec<(Vec<u8>, String)>)
        ensures
            pairs_view(r@) == self@,
    {
        let n = map_len(&self.items);
        let mut out: Vec<(Vec<u8>, String)> = Vec::new();
        let mut i: usize = 0;
        while i < n
            invariant
                n == self@.len(),
                i <= n,
                pairs_view(out@) == self@.take(i as int),
            decreases n - i,
        {
            let entry = map_get_index(&self.items, i);
            match entry {
                Some(e) => {
                    proof {
                        assert(self@.take(i as int + 1) =~= self@.take(i as int).push(self@[i as int]));
                    }
                    out.push(e);
                    proof {
                        assert(pairs_view(out@) =~= self@.take(i as int + 1));
                    }
                },
                None => {},
            }
            i = i + 1;
        }
        proof {
            assert(self@.take(n as int) =~= self@);
        }
        out
    }
}

proof fn lemma_take_keeps_unique(s: EntrySeq, n: int)
    requires
        no_dup_keys(s),
        0 <= n,
    ensures
        no_dup_keys(if s.len() > n { s.take(n) } else { s }),
{
    if s.len() > n {
        let t = s.take(n);
        assert forall|i: int, j: int| 0 <= i < t.len() && 0 <= j < t.len() && i != j implies #[trigger] t[i].0
            != #[trigger] t[j].0 by {
            assert(t[i] == s[i] && t[j] == s[j]);
        }
    }
}

} // verus!
