use vstd::prelude::*;

use crate::types::{has_lineno, matches_sorted, Match};

verus! {

/// `m` placed into `s` at its position by line number; if an entry already
/// covers that line, `s` is returned unchanged.
pub open spec fn insert_match(s: Seq<Match>, m: Match) -> Seq<Match>
    decreases s.len(),
{
    if s.len() == 0 {
        seq![m]
    } else if m.lineno < s[0].lineno {
        seq![m] + s
    } else if m.lineno == s[0].lineno {
        s
    } else {
        seq![s[0]] + insert_match(s.drop_first(), m)
    }
}

/// Every match of `batch`, in order, merged into `s`.
pub open spec fn merge_seq(s: Seq<Match>, batch: Seq<Match>) -> Seq<Match>
    decreases batch.len(),
{
    if batch.len() == 0 {
        s
    } else {
        merge_seq(insert_match(s, batch[0]), batch.drop_first())
    }
}

/// Prepending one match shifts which lines a list covers by exactly that
/// match's line.
pub proof fn lemma_has_lineno_cons(m: Match, s: Seq<Match>)
    ensures
        forall|l: usize| #[trigger]
            has_lineno(seq![m] + s, l) <==> l == m.lineno || has_lineno(s, l),
{
    let c = seq![m] + s;
    assert forall|l: usize| #[trigger]
        has_lineno(c, l) <==> l == m.lineno || has_lineno(s, l) by {
        if has_lineno(c, l) {
            let i = choose|i: int| 0 <= i < c.len() && c[i].lineno == l;
            if i > 0 {
                assert(c[i] == s[i - 1]);
            }
        }
        if l == m.lineno {
            assert(c[0].lineno == l);
        }
        if has_lineno(s, l) {
            let i = choose|i: int| 0 <= i < s.len() && s[i].lineno == l;
            assert(c[i + 1] == s[i]);
        }
    }
}

/// What one insertion does: the result is sorted, holds exactly the old
/// matches plus (at most) the new one, covers exactly the old lines plus the
/// new one, and is the unchanged input when the line was already covered.
pub proof fn lemma_insert_match_props(s: Seq<Match>, m: Match)
    requires
        matches_sorted(s),
    ensures
        matches_sorted(insert_match(s, m)),
        forall|k: int|
            0 <= k < insert_match(s, m).len() ==> s.contains(#[trigger] insert_match(s, m)[k])
                || insert_match(s, m)[k] == m,
        forall|x: Match| #[trigger] s.contains(x) ==> insert_match(s, m).contains(x),
        forall|l: usize| #[trigger]
            has_lineno(insert_match(s, m), l) <==> has_lineno(s, l) || l == m.lineno,
        has_lineno(s, m.lineno) ==> insert_match(s, m) == s,
        !has_lineno(s, m.lineno) ==> insert_match(s, m).len() == s.len() + 1
            && insert_match(s, m).contains(m),
    decreases s.len(),
{
    let ins = insert_match(s, m);
    if s.len() == 0 {
        assert(ins == seq![m]);
        assert(ins[0] == m);
        assert(ins.contains(m));
        lemma_has_lineno_cons(m, Seq::empty());
        assert(seq![m] + Seq::<Match>::empty() =~= seq![m]);
        assert forall|l: usize| #[trigger]
            has_lineno(ins, l) <==> has_lineno(s, l) || l == m.lineno by {
            if has_lineno(ins, l) {
                let i = choose|i: int| 0 <= i < ins.len() && ins[i].lineno == l;
                assert(i == 0);
            }
            if l == m.lineno {
                assert(ins[0].lineno == l);
            }
        }
    } else if m.lineno < s[0].lineno {
        assert(ins == seq![m] + s);
        lemma_has_lineno_cons(m, s);
        assert forall|i: int, j: int| 0 <= i < j < ins.len() implies ins[i].lineno
            < ins[j].lineno by {
            if i > 0 {
                assert(ins[i] == s[i - 1]);
            }
            assert(ins[j] == s[j - 1]);
            if i == 0 && j > 1 {
                assert(s[0].lineno < s[j - 1].lineno);
            }
        }
        assert forall|k: int| 0 <= k < ins.len() implies s.contains(#[trigger] ins[k]) || ins[k]
            == m by {
            if k > 0 {
                assert(ins[k] == s[k - 1]);
            }
        }
        assert forall|x: Match| #[trigger] s.contains(x) implies ins.contains(x) by {
            let i = choose|i: int| 0 <= i < s.len() && s[i] == x;
            assert(ins[i + 1] == x);
        }
        assert(!has_lineno(s, m.lineno)) by {
            if has_lineno(s, m.lineno) {
                let i = choose|i: int| 0 <= i < s.len() && s[i].lineno == m.lineno;
                if i > 0 {
                    assert(s[0].lineno < s[i].lineno);
                }
            }
        }
        assert(ins[0] == m);
        assert(ins.contains(m));
    } else if m.lineno == s[0].lineno {
        assert(ins == s);
        assert(s[0].lineno == m.lineno);
        assert(has_lineno(s, m.lineno));
    } else {
        let tail = s.drop_first();
        assert(matches_sorted(tail)) by {
            assert forall|i: int, j: int| 0 <= i < j < tail.len() implies tail[i].lineno
                < tail[j].lineno by {
                assert(tail[i] == s[i + 1]);
                assert(tail[j] == s[j + 1]);
            }
        }
        lemma_insert_match_props(tail, m);
        let ins_tail = insert_match(tail, m);
        assert(ins == seq![s[0]] + ins_tail);
        lemma_has_lineno_cons(s[0], ins_tail);
        assert(s =~= seq![s[0]] + tail);
        lemma_has_lineno_cons(s[0], tail);
        // sortedness: the head is below everything in the inserted tail
        assert forall|i: int, j: int| 0 <= i < j < ins.len() implies ins[i].lineno
            < ins[j].lineno by {
            if i > 0 {
                assert(ins[i] == ins_tail[i - 1]);
                assert(ins[j] == ins_tail[j - 1]);
            } else {
                assert(ins[j] == ins_tail[j - 1]);
                assert(tail.contains(ins_tail[j - 1]) || ins_tail[j - 1] == m);
                if tail.contains(ins_tail[j - 1]) {
                    let k = choose|k: int| 0 <= k < tail.len() && tail[k] == ins_tail[j - 1];
                    assert(s[k + 1] == tail[k]);
                    assert(s[0].lineno < s[k + 1].lineno);
                }
            }
        }
        assert forall|k: int| 0 <= k < ins.len() implies s.contains(#[trigger] ins[k]) || ins[k]
            == m by {
            if k == 0 {
                assert(ins[0] == s[0]);
                assert(s.contains(s[0]));
            } else {
                assert(ins[k] == ins_tail[k - 1]);
                if tail.contains(ins_tail[k - 1]) {
                    let t = choose|t: int| 0 <= t < tail.len() && tail[t] == ins_tail[k - 1];
                    assert(s[t + 1] == tail[t]);
                    assert(s.contains(s[t + 1]));
                }
            }
        }
        assert forall|x: Match| #[trigger] s.contains(x) implies ins.contains(x) by {
            let i = choose|i: int| 0 <= i < s.len() && s[i] == x;
            if i == 0 {
                assert(ins[0] == x);
            } else {
                assert(tail[i - 1] == x);
                assert(tail.contains(x));
                assert(ins_tail.contains(x));
                let t = choose|t: int| 0 <= t < ins_tail.len() && ins_tail[t] == x;
                assert(ins[t + 1] == x);
            }
        }
        if has_lineno(s, m.lineno) {
            assert(has_lineno(tail, m.lineno)) by {
                let i = choose|i: int| 0 <= i < s.len() && s[i].lineno == m.lineno;
                assert(i > 0);
                assert(tail[i - 1] == s[i]);
            }
            assert(ins_tail == tail);
            assert(ins =~= s);
        }
        if !has_lineno(s, m.lineno) {
            assert(!has_lineno(tail, m.lineno)) by {
                if has_lineno(tail, m.lineno) {
                    let i = choose|i: int| 0 <= i < tail.len() && tail[i].lineno == m.lineno;
                    assert(s[i + 1] == tail[i]);
                }
            }
            assert(ins_tail.contains(m));
            let t = choose|t: int| 0 <= t < ins_tail.len() && ins_tail[t] == m;
            assert(ins[t + 1] == m);
            assert(ins.contains(m));
        }
    }
}

/// What a whole merge does: the result is sorted, holds only matches that
/// were already present or came from the batch, keeps every match that was
/// present, and covers exactly the old lines plus the batch's lines.
pub proof fn lemma_merge_seq_props(s: Seq<Match>, batch: Seq<Match>)
    requires
        matches_sorted(s),
    ensures
        matches_sorted(merge_seq(s, batch)),
        forall|k: int|
            0 <= k < merge_seq(s, batch).len() ==> s.contains(#[trigger] merge_seq(s, batch)[k])
                || batch.contains(merge_seq(s, batch)[k]),
        forall|x: Match| #[trigger] s.contains(x) ==> merge_seq(s, batch).contains(x),
        forall|l: usize| #[trigger]
            has_lineno(merge_seq(s, batch), l) <==> has_lineno(s, l) || has_lineno(batch, l),
    decreases batch.len(),
{
    if batch.len() == 0 {
        assert(merge_seq(s, batch) == s);
    } else {
        let b0 = batch[0];
        let rest = batch.drop_first();
        let ins = insert_match(s, b0);
        lemma_insert_match_props(s, b0);
        lemma_merge_seq_props(ins, rest);
        let merged = merge_seq(s, batch);
        assert(merged == merge_seq(ins, rest));
        assert(batch =~= seq![b0] + rest);
        lemma_has_lineno_cons(b0, rest);
        assert forall|k: int| 0 <= k < merged.len() implies s.contains(#[trigger] merged[k])
            || batch.contains(merged[k]) by {
            if ins.contains(merged[k]) {
                if !s.contains(merged[k]) {
                    let t = choose|t: int| 0 <= t < ins.len() && ins[t] == merged[k];
                    assert(ins[t] == b0);
                    assert(batch[0] == merged[k]);
                    assert(batch.contains(merged[k]));
                }
            } else {
                assert(rest.contains(merged[k]));
                let t = choose|t: int| 0 <= t < rest.len() && rest[t] == merged[k];
                assert(batch[t + 1] == rest[t]);
                assert(batch.contains(merged[k]));
            }
        }
        assert forall|x: Match| #[trigger] s.contains(x) implies merged.contains(x) by {
            assert(ins.contains(x));
        }
    }
}

/// Merging a batch whose every line is already covered changes nothing.
pub proof fn lemma_merge_seq_noop(s: Seq<Match>, batch: Seq<Match>)
    requires
        matches_sorted(s),
        forall|j: int| 0 <= j < batch.len() ==> has_lineno(s, (#[trigger] batch[j]).lineno),
    ensures
        merge_seq(s, batch) == s,
    decreases batch.len(),
{
    if batch.len() > 0 {
        let b0 = batch[0];
        let rest = batch.drop_first();
        lemma_insert_match_props(s, b0);
        assert(insert_match(s, b0) == s);
        assert forall|j: int| 0 <= j < rest.len() implies has_lineno(
            s,
            (#[trigger] rest[j]).lineno,
        ) by {
            assert(rest[j] == batch[j + 1]);
        }
        lemma_merge_seq_noop(s, rest);
    }
}

/// Merging the same batch twice gives the same list as merging it once.
pub proof fn lemma_merge_seq_idempotent(s: Seq<Match>, batch: Seq<Match>)
    requires
        matches_sorted(s),
    ensures
        merge_seq(merge_seq(s, batch), batch) == merge_seq(s, batch),
{
    let m1 = merge_seq(s, batch);
    lemma_merge_seq_props(s, batch);
    assert forall|j: int| 0 <= j < batch.len() implies has_lineno(
        m1,
        (#[trigger] batch[j]).lineno,
    ) by {
        assert(batch[j].lineno == batch[j].lineno && 0 <= j < batch.len());
        assert(has_lineno(batch, batch[j].lineno));
    }
    lemma_merge_seq_noop(m1, batch);
}

/// Merging one more match at the end of the batch is one more insertion.
pub proof fn lemma_merge_seq_snoc(s: Seq<Match>, batch: Seq<Match>, m: Match)
    ensures
        merge_seq(s, batch.push(m)) == insert_match(merge_seq(s, batch), m),
    decreases batch.len(),
{
    if batch.len() == 0 {
        assert(batch.push(m)[0] == m);
        assert(batch.push(m).drop_first() =~= Seq::<Match>::empty());
        assert(merge_seq(s, batch.push(m)) == merge_seq(insert_match(s, m), Seq::empty()));
    } else {
        assert(batch.push(m)[0] == batch[0]);
        assert(batch.push(m).drop_first() =~= batch.drop_first().push(m));
        lemma_merge_seq_snoc(insert_match(s, batch[0]), batch.drop_first(), m);
    }
}

/// Placing a match at the slot a binary search found is the same as the
/// model's insertion.
pub proof fn lemma_insert_at_slot(s: Seq<Match>, m: Match, pos: int)
    requires
        matches_sorted(s),
        0 <= pos <= s.len(),
        forall|k: int| 0 <= k < pos ==> (#[trigger] s[k]).lineno < m.lineno,
        forall|k: int| pos <= k < s.len() ==> (#[trigger] s[k]).lineno > m.lineno,
    ensures
        s.insert(pos, m) == insert_match(s, m),
    decreases s.len(),
{
    if s.len() == 0 {
        assert(s.insert(0, m) =~= seq![m]);
    } else if m.lineno < s[0].lineno {
        assert(pos == 0);
        assert(s.insert(0, m) =~= seq![m] + s);
    } else {
        assert(pos > 0);
        let tail = s.drop_first();
        assert(matches_sorted(tail)) by {
            assert forall|i: int, j: int| 0 <= i < j < tail.len() implies tail[i].lineno
                < tail[j].lineno by {
                assert(tail[i] == s[i + 1]);
                assert(tail[j] == s[j + 1]);
            }
        }
        assert forall|k: int| 0 <= k < pos - 1 implies (#[trigger] tail[k]).lineno
            < m.lineno by {
            assert(tail[k] == s[k + 1]);
        }
        assert forall|k: int| pos - 1 <= k < tail.len() implies (#[trigger] tail[k]).lineno
            > m.lineno by {
            assert(tail[k] == s[k + 1]);
        }
        lemma_insert_at_slot(tail, m, pos - 1);
        assert(s.insert(pos, m) =~= seq![s[0]] + tail.insert(pos - 1, m));
    }
}

/// The slot for `l` in the sorted list `v`: either the position of the entry
/// that covers the line, or the position where a new entry would keep the
/// list sorted.
pub(crate) fn find_slot(v: &Vec<Match>, l: usize) -> (r: (bool, usize))
    requires
        matches_sorted(v@),
    ensures
        r.1 <= v@.len(),
        r.0 <==> has_lineno(v@, l),
        r.0 ==> r.1 < v@.len() && v@[r.1 as int].lineno == l,
        !r.0 ==> (forall|k: int| 0 <= k < r.1 ==> (#[trigger] v@[k]).lineno < l) && (forall|k: int|
            r.1 <= k < v@.len() ==> (#[trigger] v@[k]).lineno > l),
{
    let mut lo: usize = 0;
    let mut hi: usize = v.len();
    while lo < hi
        invariant
            lo <= hi <= v@.len(),
            matches_sorted(v@),
            forall|k: int| 0 <= k < lo ==> (#[trigger] v@[k]).lineno < l,
            forall|k: int| hi <= k < v@.len() ==> (#[trigger] v@[k]).lineno > l,
        decreases hi - lo,
    {
        let mid = lo + (hi - lo) / 2;
        let ml = v[mid].lineno;
        if ml < l {
            proof {
                assert forall|k: int| 0 <= k < mid + 1 implies (#[trigger] v@[k]).lineno < l by {
                    if k < mid {
                        assert(v@[k].lineno < v@[mid as int].lineno);
                    }
                }
            }
            lo = mid + 1;
        } else if ml > l {
            proof {
                assert forall|k: int| mid <= k < v@.len() implies (#[trigger] v@[k]).lineno
                    > l by {
                    if k > mid {
                        assert(v@[mid as int].lineno < v@[k].lineno);
                    }
                }
            }
            hi = mid;
        } else {
            proof {
                assert(v@[mid as int].lineno == l);
                assert(has_lineno(v@, l));
            }
            return (true, mid);
        }
    }
    proof {
        if has_lineno(v@, l) {
            let i = choose|i: int| 0 <= i < v@.len() && v@[i].lineno == l;
            assert(false);
        }
    }
    (false, lo)
}

} // verus!
