//! The history's log on disk: each entry whose payload is UTF-8 text becomes
//! `payload<>:<>label<><>` and a newline; reading a log puts its records back
//! in order.

use vstd::prelude::*;
use vstd::utf8::{
    decode_utf8, encode_utf8, encode_utf8_decode_utf8, encode_utf8_valid_utf8, valid_utf8,
};

use crate::entries::{
    has_key, lemma_position_of, lemma_put_keeps_unique, no_dup_keys, pairs_view, put, EntrySeq,
};
use crate::ordered_map::{entries_of, map_insert, map_new};
use crate::store::{trimmed, ClipboardStore};
use crate::text::{is_utf8, string_from_utf8};

verus! {

/// The bytes of `<>:<>`, which part a record's payload from its label.
pub open spec fn sep_mark() -> Seq<u8> {
    seq![60u8, 62u8, 58u8, 60u8, 62u8]
}

/// The bytes of `<><>` and a newline, which close a record.
pub open spec fn end_mark() -> Seq<u8> {
    seq![60u8, 62u8, 60u8, 62u8, 10u8]
}

/// Whether the bytes of `d` stand in `s` from index `i` on.
pub open spec fn occurs_at(s: Seq<u8>, i: int, d: Seq<u8>) -> bool {
    0 <= i && i + d.len() <= s.len() && s.subrange(i, i + d.len()) == d
}

/// The pieces of `s` between closing marks, for a scan that has the current
/// piece begin at `start` and has looked for a mark up to `i`.
pub open spec fn pieces_from(s: Seq<u8>, start: int, i: int) -> Seq<Seq<u8>>
    decreases s.len() - i,
{
    if i + 5 > s.len() {
        seq![s.subrange(start, s.len() as int)]
    } else if occurs_at(s, i, end_mark()) {
        seq![s.subrange(start, i)] + pieces_from(s, i + 5, i + 5)
    } else {
        pieces_from(s, start, i + 1)
    }
}

/// The pieces of a log: what stands between its closing marks, and after the last.
pub open spec fn pieces(s: Seq<u8>) -> Seq<Seq<u8>> {
    pieces_from(s, 0, 0)
}

/// The first index from `i` on where the separator stands in `s`, or -1.
pub open spec fn sep_from(s: Seq<u8>, i: int) -> int
    decreases s.len() - i,
{
    if i + 5 > s.len() {
        -1
    } else if occurs_at(s, i, sep_mark()) {
        i
    } else {
        sep_from(s, i + 1)
    }
}

/// The entry that a piece of the log gives: what stands before its first
/// separator, and the UTF-8 text after it; none without a separator or text.
pub open spec fn record_entry(piece: Seq<u8>) -> Option<(Seq<u8>, Seq<char>)> {
    let k = sep_from(piece, 0);
    if k < 0 {
        None
    } else if valid_utf8(piece.skip(k + 5)) {
        Some((piece.take(k), decode_utf8(piece.skip(k + 5))))
    } else {
        None
    }
}

/// The history read from the pieces `ps`, in order: each entry is put as an
/// ordered map puts it.
pub open spec fn history_of_pieces(ps: Seq<Seq<u8>>) -> EntrySeq
    decreases ps.len(),
{
    if ps.len() == 0 {
        Seq::empty()
    } else {
        let before = history_of_pieces(ps.drop_last());
        match record_entry(ps.last()) {
            Some(e) => put(before, e.0, e.1),
            None => before,
        }
    }
}

/// The history that a log holds.
pub open spec fn history_from_log(s: Seq<u8>) -> EntrySeq {
    history_of_pieces(pieces(s))
}

/// The log record of one entry.
pub open spec fn record_bytes(p: Seq<u8>, m: Seq<char>) -> Seq<u8> {
    p + sep_mark() + encode_utf8(m) + end_mark()
}

/// The log of a history: one record for each entry whose payload is UTF-8
/// text, in order; other entries are left out.
pub open spec fn log_of(s: EntrySeq) -> Seq<u8>
    decreases s.len(),
{
    if s.len() == 0 {
        Seq::empty()
    } else {
        let e = s.last();
        if valid_utf8(e.0) {
            log_of(s.drop_last()) + record_bytes(e.0, e.1)
        } else {
            log_of(s.drop_last())
        }
    }
}

/// The entries of `s` whose payload is UTF-8 text, in order.
pub open spec fn text_entries(s: EntrySeq) -> EntrySeq
    decreases s.len(),
{
    if s.len() == 0 {
        s
    } else if valid_utf8(s.last().0) {
        text_entries(s.drop_last()).push(s.last())
    } else {
        text_entries(s.drop_last())
    }
}

/// Whether `s`, followed by the mark `d`, holds `d` first where it was put:
/// a reader that looks for `d` finds that one first.
pub open spec fn mark_first_at_end(s: Seq<u8>, d: Seq<u8>) -> bool {
    forall|j: int| 0 <= j < s.len() ==> !#[trigger] occurs_at(s + d, j, d)
}

/// An entry whose record a reader parts where it was written: the first
/// separator follows the payload, and the first closing mark follows the label.
pub open spec fn frames_cleanly(p: Seq<u8>, m: Seq<char>) -> bool {
    &&& mark_first_at_end(p, sep_mark())
    &&& mark_first_at_end(p + sep_mark() + encode_utf8(m), end_mark())
}

/// Appends the bytes of `b` to `out`.
fn append_bytes(out: &mut Vec<u8>, b: &[u8])
    ensures
        final(out)@ == old(out)@ + b@,
{
    let mut i: usize = 0;
    while i < b.len()
        invariant
            i <= b@.len(),
            out@ == old(out)@ + b@.take(i as int),
        decreases b@.len() - i,
    {
        out.push(b[i]);
        i = i + 1;
        proof {
            assert(b@.take(i as int) =~= b@.take(i as int - 1).push(b@[i as int - 1]));
        }
    }
    proof {
        assert(b@.take(i as int) =~= b@);
    }
}

/// A copy of the bytes of `s` from `start` up to `end`.
pub(crate) fn copy_range(s: &[u8], start: usize, end: usize) -> (r: Vec<u8>)
    requires
        start <= end <= s@.len(),
    ensures
        r@ == s@.subrange(start as int, end as int),
{
    let mut out: Vec<u8> = Vec::new();
    let mut i: usize = start;
    while i < end
        invariant
            start <= i <= end,
            end <= s@.len(),
            out@ == s@.subrange(start as int, i as int),
        decreases end - i,
    {
        out.push(s[i]);
        i = i + 1;
        proof {
            assert(out@ =~= s@.subrange(start as int, i as int));
        }
    }
    out
}

/// Whether the five bytes of `d` stand in `s` from `i` on.
fn mark_at(s: &[u8], i: usize, d: &Vec<u8>) -> (r: bool)
    requires
        d@.len() == 5,
    ensures
        r == occurs_at(s@, i as int, d@),
{
    let n = s.len();
    if i > n || n - i < 5 {
        return false;
    }
    let mut k: usize = 0;
    while k < 5
        invariant
            k <= 5,
            n == s@.len(),
            i + 5 <= n,
            d@.len() == 5,
            forall|t: int| 0 <= t < k ==> s@[i + t] == d@[t],
        decreases 5 - k,
    {
        if s[i + k] != d[k] {
            proof {
                assert(s@.subrange(i as int, i + 5)[k as int] != d@[k as int]);
            }
            return false;
        }
        k = k + 1;
    }
    proof {
        assert(s@.subrange(i as int, i + 5) =~= d@);
    }
    true
}

/// The entry that the piece of `s` from `start` up to `end` gives.
fn record_from(s: &[u8], start: usize, end: usize, sep: &Vec<u8>) -> (r: Option<(Vec<u8>, String)>)
    requires
        start <= end <= s@.len(),
        sep@ == sep_mark(),
    ensures
        r is Some <==> record_entry(s@.subrange(start as int, end as int)) is Some,
        r is Some ==> (r->Some_0.0@, r->Some_0.1@) == record_entry(
            s@.subrange(start as int, end as int),
        )->Some_0,
{
    let ghost piece = s@.subrange(start as int, end as int);
    let mut j: usize = start;
    while end - j >= 5
        invariant
            start <= j <= end,
            end <= s@.len(),
            sep@ == sep_mark(),
            piece == s@.subrange(start as int, end as int),
            sep_from(piece, 0) == sep_from(piece, j - start),
        decreases end - j,
    {
        let found = mark_at(s, j, sep);
        proof {
            assert(piece.subrange(j - start, j - start + 5) =~= s@.subrange(j as int, j + 5));
        }
        if found {
            let key = copy_range(s, start, j);
            let value = copy_range(s, j + 5, end);
            proof {
                assert(key@ =~= piece.take(j - start));
                assert(value@ =~= piece.skip(j - start + 5));
            }
            match string_from_utf8(value) {
                Some(m) => {
                    return Some((key, m));
                },
                None => {
                    return None;
                },
            }
        }
        j = j + 1;
    }
    None
}

impl ClipboardStore {
    /// The log of this history: for each entry whose payload is UTF-8 text,
    /// in order, the payload, `<>:<>`, the label, `<><>` and a newline.
    pub fn to_log(&self) -> (r: Vec<u8>)
        ensures
            r@ == log_of(self@),
    {
        let entries = self.all();
        let sep: Vec<u8> = vec![60u8, 62u8, 58u8, 60u8, 62u8];
        let end: Vec<u8> = vec![60u8, 62u8, 60u8, 62u8, 10u8];
        proof {
            assert(sep@ =~= sep_mark());
            assert(end@ =~= end_mark());
        }
        let mut out: Vec<u8> = Vec::new();
        let mut i: usize = 0;
        while i < entries.len()
            invariant
                i <= entries@.len(),
                pairs_view(entries@) == self@,
                sep@ == sep_mark(),
                end@ == end_mark(),
                out@ == log_of(self@.take(i as int)),
            decreases entries@.len() - i,
        {
            let ghost e = self@[i as int];
            let payload = entries[i].0.as_slice();
            proof {
                assert(self@.take(i as int + 1).drop_last() =~= self@.take(i as int));
                assert(payload@ == e.0);
            }
            if is_utf8(payload) {
                append_bytes(&mut out, payload);
                append_bytes(&mut out, sep.as_slice());
                append_bytes(&mut out, entries[i].1.as_str().as_bytes());
                append_bytes(&mut out, end.as_slice());
                proof {
                    assert(out@ =~= log_of(self@.take(i as int)) + record_bytes(e.0, e.1));
                }
            }
            i = i + 1;
        }
        proof {
            assert(self@.take(i as int) =~= self@);
        }
        out
    }

    /// The history that the log `log` holds, cut to `capacity` entries: each
    /// record gives its payload and label, a payload seen before keeps its
    /// place and takes the later label, and pieces without a separator or
    /// whose label is not UTF-8 are skipped.
    pub fn from_log(log: &[u8], capacity: usize) -> (r: ClipboardStore)
        ensures
            r.wf(),
            r.cap() == capacity,
            r@ == trimmed(history_from_log(log@), capacity as nat),
    {
        let sep: Vec<u8> = vec![60u8, 62u8, 58u8, 60u8, 62u8];
        let end: Vec<u8> = vec![60u8, 62u8, 60u8, 62u8, 10u8];
        proof {
            assert(sep@ =~= sep_mark());
            assert(end@ =~= end_mark());
        }
        let mut map = map_new();
        let ghost mut done: Seq<Seq<u8>> = Seq::empty();
        let n = log.len();
        let mut start: usize = 0;
        let mut i: usize = 0;
        while n - i >= 5
            invariant
                start <= i <= n,
                n == log@.len(),
                sep@ == sep_mark(),
                end@ == end_mark(),
                pieces(log@) == done + pieces_from(log@, start as int, i as int),
                entries_of(map) == history_of_pieces(done),
                no_dup_keys(entries_of(map)),
            decreases n - i,
        {
            if mark_at(log, i, &end) {
                let rec = record_from(log, start, i, &sep);
                let ghost piece = log@.subrange(start as int, i as int);
                let ghost before = entries_of(map);
                match rec {
                    Some(e) => {
                        let (k, m) = e;
                        proof {
                            lemma_put_keeps_unique(before, k@, m@);
                        }
                        map_insert(&mut map, k, m);
                    },
                    None => {},
                }
                proof {
                    let next = done.push(piece);
                    assert(next.drop_last() =~= done);
                    assert(done + pieces_from(log@, start as int, i as int) =~= next + pieces_from(
                        log@,
                        i + 5,
                        i + 5,
                    ));
                    done = next;
                }
                start = i + 5;
                i = i + 5;
            } else {
                i = i + 1;
            }
        }
        let rec = record_from(log, start, n, &sep);
        let ghost piece = log@.subrange(start as int, n as int);
        let ghost before = entries_of(map);
        match rec {
            Some(e) => {
                let (k, m) = e;
                proof {
                    lemma_put_keeps_unique(before, k@, m@);
                }
                map_insert(&mut map, k, m);
            },
            None => {},
        }
        proof {
            let next = done.push(piece);
            assert(next.drop_last() =~= done);
            assert(done + pieces_from(log@, start as int, i as int) =~= next);
            done = next;
        }
        ClipboardStore::from_map(map, capacity)
    }
}

/// Every entry of `s` whose payload is text frames cleanly.
pub open spec fn all_frame_cleanly(s: EntrySeq) -> bool {
    forall|i: int| 0 <= i < s.len() && valid_utf8(s[i].0) ==> frames_cleanly(#[trigger] s[i].0, s[i].1)
}

/// The pieces that the records of `log_of(s)` leave between closing marks.
spec fn record_pieces(s: EntrySeq) -> Seq<Seq<u8>>
    decreases s.len(),
{
    if s.len() == 0 {
        Seq::empty()
    } else {
        let e = s.last();
        if valid_utf8(e.0) {
            record_pieces(s.drop_last()).push(e.0 + sep_mark() + encode_utf8(e.1))
        } else {
            record_pieces(s.drop_last())
        }
    }
}

proof fn lemma_scan_record_from(s: Seq<u8>, start: int, r: Seq<u8>, i: int)
    requires
        0 <= start <= i <= start + r.len(),
        start + r.len() + 5 <= s.len(),
        s.subrange(start, start + r.len() + 5) == r + end_mark(),
        mark_first_at_end(r, end_mark()),
    ensures
        pieces_from(s, start, i) == seq![r] + pieces_from(s, start + r.len() + 5, start + r.len() + 5),
    decreases start + r.len() - i,
{
    let q = start + r.len();
    assert(s.subrange(i, i + 5) =~= (r + end_mark()).subrange(i - start, i - start + 5));
    if i == q {
        assert((r + end_mark()).subrange(i - start, i - start + 5) =~= end_mark());
        assert(s.subrange(start, i) =~= r);
    } else {
        assert(!occurs_at(r + end_mark(), i - start, end_mark()));
        lemma_scan_record_from(s, start, r, i + 1);
    }
}

proof fn lemma_scan_log(t: EntrySeq, y: Seq<u8>)
    requires
        all_frame_cleanly(t),
    ensures
        pieces_from(log_of(t) + y, 0, 0) == record_pieces(t) + pieces_from(
            log_of(t) + y,
            log_of(t).len() as int,
            log_of(t).len() as int,
        ),
    decreases t.len(),
{
    if t.len() == 0 {
        assert(record_pieces(t) + pieces_from(log_of(t) + y, 0, 0) =~= pieces_from(log_of(t) + y, 0, 0));
    } else {
        let e = t.last();
        let tp = t.drop_last();
        assert forall|i: int| 0 <= i < tp.len() && valid_utf8(tp[i].0) implies frames_cleanly(
            #[trigger] tp[i].0,
            tp[i].1,
        ) by {
            assert(tp[i] == t[i]);
        }
        if valid_utf8(e.0) {
            assert(frames_cleanly(t[t.len() - 1].0, t[t.len() - 1].1));
            let r = e.0 + sep_mark() + encode_utf8(e.1);
            let lp = log_of(tp);
            let whole = log_of(t) + y;
            assert(whole =~= lp + (r + end_mark() + y));
            lemma_scan_log(tp, r + end_mark() + y);
            assert(whole.subrange(lp.len() as int, (lp.len() + r.len() + 5) as int) =~= r + end_mark());
            lemma_scan_record_from(whole, lp.len() as int, r, lp.len() as int);
            assert(record_pieces(tp) + (seq![r] + pieces_from(
                whole,
                log_of(t).len() as int,
                log_of(t).len() as int,
            )) =~= record_pieces(t) + pieces_from(whole, log_of(t).len() as int, log_of(t).len() as int));
        } else {
            lemma_scan_log(tp, y);
        }
    }
}

proof fn lemma_sep_after_payload(p: Seq<u8>, rest: Seq<u8>, i: int)
    requires
        0 <= i <= p.len(),
        mark_first_at_end(p, sep_mark()),
    ensures
        sep_from(p + sep_mark() + rest, i) == p.len(),
    decreases p.len() - i,
{
    let w = p + sep_mark() + rest;
    assert(w.subrange(i, i + 5) =~= (p + sep_mark()).subrange(i, i + 5));
    if i == p.len() {
        assert((p + sep_mark()).subrange(i, i + 5) =~= sep_mark());
    } else {
        assert(!occurs_at(p + sep_mark(), i, sep_mark()));
        lemma_sep_after_payload(p, rest, i + 1);
    }
}

proof fn lemma_read_record_pieces(t: EntrySeq)
    requires
        no_dup_keys(t),
        all_frame_cleanly(t),
    ensures
        history_of_pieces(record_pieces(t)) == text_entries(t),
        text_entries(t).len() <= t.len(),
        forall|k: Seq<u8>| has_key(text_entries(t), k) ==> has_key(t, k),
    decreases t.len(),
{
    if t.len() > 0 {
        let e = t.last();
        let tp = t.drop_last();
        assert forall|i: int| 0 <= i < tp.len() && valid_utf8(tp[i].0) implies frames_cleanly(
            #[trigger] tp[i].0,
            tp[i].1,
        ) by {
            assert(tp[i] == t[i]);
        }
        assert forall|i: int, j: int| 0 <= i < tp.len() && 0 <= j < tp.len() && i != j implies #[trigger] tp[i].0
            != #[trigger] tp[j].0 by {
            assert(tp[i] == t[i] && tp[j] == t[j]);
        }
        lemma_read_record_pieces(tp);
        assert forall|k: Seq<u8>| has_key(tp, k) implies has_key(t, k) by {
            let i = choose|i: int| 0 <= i < tp.len() && #[trigger] tp[i].0 == k;
            assert(t[i].0 == k);
        }
        if valid_utf8(e.0) {
            assert(frames_cleanly(t[t.len() - 1].0, t[t.len() - 1].1));
            let p = e.0 + sep_mark() + encode_utf8(e.1);
            let ps = record_pieces(t);
            assert(ps.drop_last() =~= record_pieces(tp));
            lemma_sep_after_payload(e.0, encode_utf8(e.1), 0);
            assert(p.take(e.0.len() as int) =~= e.0);
            assert(p.skip((e.0.len() + 5) as int) =~= encode_utf8(e.1));
            encode_utf8_valid_utf8(e.1);
            encode_utf8_decode_utf8(e.1);
            let before = text_entries(tp);
            if has_key(before, e.0) {
                assert(has_key(tp, e.0));
                let i = choose|i: int| 0 <= i < tp.len() && #[trigger] tp[i].0 == e.0;
                assert(tp[i] == t[i]);
                assert(t[i].0 == t[t.len() - 1].0);
            }
            lemma_position_of(before, e.0);
            assert forall|k: Seq<u8>| has_key(text_entries(t), k) implies has_key(t, k) by {
                if k != e.0 {
                    let i = choose|i: int| 0 <= i < text_entries(t).len() && #[trigger] text_entries(t)[i].0 == k;
                    assert(before[i].0 == k);
                } else {
                    assert(t[t.len() - 1].0 == k);
                }
            }
        }
    }
}

impl ClipboardStore {
    /// Writing a well-formed history to its log and reading that log back
    /// with the same capacity gives the history's entries whose payload is
    /// UTF-8 text, in their order, provided each of them frames cleanly (its
    /// delimiters are the first that a reader finds).
    pub proof fn lemma_log_round_trip(self)
        requires
            self.wf(),
            all_frame_cleanly(self@),
        ensures
            trimmed(history_from_log(log_of(self@)), self.cap()) == text_entries(self@),
    {
        let s = self@;
        let l = log_of(s);
        lemma_scan_log(s, Seq::empty());
        assert(l + Seq::<u8>::empty() =~= l);
        assert(pieces_from(l, l.len() as int, l.len() as int) == seq![Seq::<u8>::empty()]) by {
            assert(l.subrange(l.len() as int, l.len() as int) =~= Seq::<u8>::empty());
        }
        let ps = pieces(l);
        assert(ps.drop_last() =~= record_pieces(s));
        assert(sep_from(Seq::<u8>::empty(), 0) == -1);
        lemma_read_record_pieces(s);
    }
}

} // verus!
