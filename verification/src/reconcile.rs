//! Merging the records of several fetch passes into one ordered data set.

use vstd::prelude::*;
use crate::date::Date;
use crate::record::BillingRecord;

verus! {

/// Whether `input[j]` is the first record of `input` with its period, and is `rec`.
pub open spec fn is_first_at(input: Seq<BillingRecord>, j: int, rec: BillingRecord) -> bool {
    &&& 0 <= j < input.len()
    &&& input[j] == rec
    &&& forall|k: int| 0 <= k < j ==> (#[trigger] input[k]).period != rec.period
}

/// Whether `out[i]` is a record of the period `period`.
pub open spec fn shown_at(out: Seq<BillingRecord>, i: int, period: Date) -> bool {
    0 <= i < out.len() && out[i].period == period
}

/// Whether `rec` is the first record of `input` with its period.
pub open spec fn is_first_of(input: Seq<BillingRecord>, rec: BillingRecord) -> bool {
    exists|j: int| is_first_at(input, j, rec)
}

/// Whether `out` holds a record of the period `period`.
pub open spec fn shows(out: Seq<BillingRecord>, period: Date) -> bool {
    exists|i: int| shown_at(out, i, period)
}

/// Whether the periods of `out` fall strictly from each record to the next.
pub open spec fn strictly_descending(out: Seq<BillingRecord>) -> bool {
    forall|i: int, j: int|
        0 <= i < j < out.len() ==> (#[trigger] out[j]).period.earlier_than(
            (#[trigger] out[i]).period,
        )
}

/// Whether `out` is the reconciled form of `input`: most recent period first,
/// one record for each period of `input`, and that record the first of
/// `input` with the period.
pub open spec fn is_merge_of(out: Seq<BillingRecord>, input: Seq<BillingRecord>) -> bool {
    &&& strictly_descending(out)
    &&& forall|i: int| 0 <= i < out.len() ==> is_first_of(input, #[trigger] out[i])
    &&& forall|j: int| 0 <= j < input.len() ==> shows(out, (#[trigger] input[j]).period)
}

/// Putting `r` in the place of a record of its own period reconciles the input
/// with `r` in front.
proof fn lemma_merge_replace(
    out: Seq<BillingRecord>,
    tail: Seq<BillingRecord>,
    r: BillingRecord,
    p: int,
)
    requires
        is_merge_of(out, tail),
        0 <= p < out.len(),
        out[p].period == r.period,
    ensures
        is_merge_of(out.update(p, r), seq![r] + tail),
{
    let next = out.update(p, r);
    let input = seq![r] + tail;
    assert forall|i: int, j: int| 0 <= i < j < next.len() implies (#[trigger] next[j]).period.earlier_than(
        (#[trigger] next[i]).period,
    ) by {
        assert(out[j].period.earlier_than(out[i].period));
    }
    assert forall|i: int| 0 <= i < next.len() implies is_first_of(input, #[trigger] next[i]) by {
        if i == p {
            assert(is_first_at(input, 0, next[i]));
        } else {
            let j = choose|j: int| is_first_at(tail, j, out[i]);
            if i < p {
                assert(out[p].period.earlier_than(out[i].period));
            } else {
                assert(out[i].period.earlier_than(out[p].period));
            }
            assert forall|k: int| 0 <= k < j + 1 implies (#[trigger] input[k]).period
                != next[i].period by {
                if k > 0 {
                    assert(input[k] == tail[k - 1]);
                }
            }
            assert(input[j + 1] == tail[j]);
            assert(is_first_at(input, j + 1, next[i]));
        }
    }
    assert forall|j: int| 0 <= j < input.len() implies shows(
        next,
        (#[trigger] input[j]).period,
    ) by {
        if j == 0 {
            assert(shown_at(next, p, input[j].period));
        } else {
            assert(input[j] == tail[j - 1]);
            let wanted = tail[j - 1].period;
            let i = choose|i: int| shown_at(out, i, wanted);
            assert(shown_at(next, i, input[j].period));
        }
    }
}

/// Putting `r` between the later periods and the earlier ones reconciles the
/// input with `r` in front.
proof fn lemma_merge_insert(
    out: Seq<BillingRecord>,
    tail: Seq<BillingRecord>,
    r: BillingRecord,
    p: int,
)
    requires
        is_merge_of(out, tail),
        0 <= p <= out.len(),
        forall|i: int| 0 <= i < p ==> r.period.earlier_than((#[trigger] out[i]).period),
        p < out.len() ==> out[p].period.earlier_than(r.period),
    ensures
        is_merge_of(out.insert(p, r), seq![r] + tail),
{
    let next = out.insert(p, r);
    let input = seq![r] + tail;
    assert forall|i: int| 0 <= i < out.len() implies (#[trigger] out[i]).period != r.period by {
        if i > p {
            assert(out[i].period.earlier_than(out[p].period));
        }
    }
    assert forall|i: int, j: int| 0 <= i < j < next.len() implies (#[trigger] next[j]).period.earlier_than(
        (#[trigger] next[i]).period,
    ) by {
        if j < p {
            assert(out[j].period.earlier_than(out[i].period));
        } else if j == p {
        } else if i < p {
            assert(out[j - 1].period.earlier_than(out[i].period));
        } else if i == p {
            if j - 1 > p {
                assert(out[j - 1].period.earlier_than(out[p].period));
            }
        } else {
            assert(out[j - 1].period.earlier_than(out[i - 1].period));
        }
    }
    assert forall|i: int| 0 <= i < next.len() implies is_first_of(input, #[trigger] next[i]) by {
        if i == p {
            assert(is_first_at(input, 0, next[i]));
        } else {
            let before = if i < p {
                i
            } else {
                i - 1
            };
            assert(next[i] == out[before]);
            let j = choose|j: int| is_first_at(tail, j, out[before]);
            assert forall|k: int| 0 <= k < j + 1 implies (#[trigger] input[k]).period
                != next[i].period by {
                if k > 0 {
                    assert(input[k] == tail[k - 1]);
                }
            }
            assert(input[j + 1] == tail[j]);
            assert(is_first_at(input, j + 1, next[i]));
        }
    }
    assert forall|j: int| 0 <= j < input.len() implies shows(
        next,
        (#[trigger] input[j]).period,
    ) by {
        if j == 0 {
            assert(shown_at(next, p, input[j].period));
        } else {
            assert(input[j] == tail[j - 1]);
            let wanted = tail[j - 1].period;
            let i = choose|i: int| shown_at(out, i, wanted);
            if i < p {
                assert(shown_at(next, i, input[j].period));
            } else {
                assert(next[i + 1] == out[i]);
                assert(shown_at(next, i + 1, input[j].period));
            }
        }
    }
}

/// Reconciles the records of all passes, given in the order in which they were
/// fetched: of several records for one period the first is kept, and the
/// result runs from the most recent period to the oldest.
pub fn reconcile(records: Vec<BillingRecord>) -> (out: Vec<BillingRecord>)
    ensures
        is_merge_of(out@, records@),
{
    let ghost input = records@;
    let mut rest = records;
    let mut out: Vec<BillingRecord> = Vec::new();
    assert(input.skip(input.len() as int) =~= Seq::<BillingRecord>::empty());
    while rest.len() > 0
        invariant
            rest@ == input.take(rest@.len() as int),
            rest@.len() <= input.len(),
            is_merge_of(out@, input.skip(rest@.len() as int)),
        decreases rest@.len(),
    {
        let ghost n = rest@.len() - 1;
        let ghost tail = input.skip(n + 1);
        let popped = rest.pop();
        if let Some(r) = popped {
            assert(r == input[n]);
            assert(rest@ =~= input.take(n));
            assert(input.skip(n) =~= seq![r] + tail);
            let mut p: usize = 0;
            while p < out.len() && r.period.is_before(&out[p].period)
                invariant
                    p <= out@.len(),
                    forall|i: int| 0 <= i < p ==> r.period.earlier_than((#[trigger] out@[i]).period),
                decreases out@.len() - p,
            {
                p = p + 1;
            }
            if p < out.len() && out[p].period == r.period {
                proof {
                    lemma_merge_replace(out@, tail, r, p as int);
                }
                out.set(p, r);
            } else {
                proof {
                    lemma_merge_insert(out@, tail, r, p as int);
                }
                out.insert(p, r);
            }
        }
    }
    assert(input.skip(0) =~= input);
    out
}

/// Reconciles two passes: the records of the pass that was fetched first,
/// then those of a later one.
pub fn merge_passes(first: Vec<BillingRecord>, later: Vec<BillingRecord>) -> (out: Vec<
    BillingRecord,
>)
    ensures
        is_merge_of(out@, first@ + later@),
{
    let mut all = first;
    let mut more = later;
    all.append(&mut more);
    reconcile(all)
}

/// In a reconciled data set no period occurs twice.
pub proof fn lemma_periods_distinct(out: Seq<BillingRecord>, i: int, j: int)
    requires
        strictly_descending(out),
        0 <= i < out.len(),
        0 <= j < out.len(),
        i != j,
    ensures
        out[i].period != out[j].period,
{
    if i < j {
        assert(out[j].period.earlier_than(out[i].period));
    } else {
        assert(out[i].period.earlier_than(out[j].period));
    }
}

/// A period that the first pass shows is reconciled to exactly one record, and
/// that record is the first pass's own, whether or not a later pass shows the
/// period again.
pub proof fn lemma_first_pass_wins(
    first: Seq<BillingRecord>,
    later: Seq<BillingRecord>,
    out: Seq<BillingRecord>,
    i: int,
) -> (k: int)
    requires
        is_merge_of(out, first + later),
        0 <= i < first.len(),
    ensures
        0 <= k < out.len(),
        out[k].period == first[i].period,
        is_first_of(first, out[k]),
        forall|m: int| 0 <= m < out.len() && m != k ==> (#[trigger] out[m]).period != first[i].period,
{
    let input = first + later;
    assert(input[i] == first[i]);
    assert(shows(out, input[i].period));
    let k = choose|k: int| shown_at(out, k, first[i].period);
    assert(is_first_of(input, out[k]));
    let j = choose|j: int| is_first_at(input, j, out[k]);
    if j > i {
        assert(input[i].period != out[k].period);
    }
    assert(input[j] == first[j]);
    assert forall|n: int| 0 <= n < j implies (#[trigger] first[n]).period != out[k].period by {
        assert(input[n] == first[n]);
    }
    assert(is_first_at(first, j, out[k]));
    assert forall|m: int| 0 <= m < out.len() && m != k implies (#[trigger] out[m]).period
        != first[i].period by {
        lemma_periods_distinct(out, m, k);
    }
    k
}

/// Two descending data sets that show the same periods show them at the same
/// places.
proof fn lemma_same_periods(a: Seq<BillingRecord>, b: Seq<BillingRecord>)
    requires
        strictly_descending(a),
        strictly_descending(b),
        forall|i: int| 0 <= i < a.len() ==> shows(b, (#[trigger] a[i]).period),
        forall|j: int| 0 <= j < b.len() ==> shows(a, (#[trigger] b[j]).period),
    ensures
        a.len() == b.len(),
        forall|i: int| 0 <= i < a.len() ==> (#[trigger] a[i]).period == b[i].period,
    decreases a.len(),
{
    if a.len() == 0 {
        if b.len() > 0 {
            assert(shows(a, b[0].period));
        }
    } else {
        assert(shows(b, a[0].period));
        let la = a.last();
        let lb = b.last();
        assert(shows(b, a[a.len() - 1].period));
        let j = choose|j: int| shown_at(b, j, la.period);
        assert(shows(a, b[b.len() - 1].period));
        let i = choose|i: int| shown_at(a, i, lb.period);
        if j < b.len() - 1 {
            assert(b[b.len() - 1].period.earlier_than(b[j].period));
            if i < a.len() - 1 {
                assert(a[a.len() - 1].period.earlier_than(a[i].period));
            }
        }
        assert(la.period == lb.period);
        let a1 = a.drop_last();
        let b1 = b.drop_last();
        assert forall|x: int| 0 <= x < a1.len() implies shows(b1, (#[trigger] a1[x]).period) by {
            assert(a1[x] == a[x]);
            assert(shows(b, a[x].period));
            let wanted = a[x].period;
            let y = choose|y: int| shown_at(b, y, wanted);
            lemma_periods_distinct(a, x, a.len() - 1);
            assert(shown_at(b1, y, wanted));
        }
        assert forall|y: int| 0 <= y < b1.len() implies shows(a1, (#[trigger] b1[y]).period) by {
            assert(b1[y] == b[y]);
            assert(shows(a, b[y].period));
            let wanted = b[y].period;
            let x = choose|x: int| shown_at(a, x, wanted);
            lemma_periods_distinct(b, y, b.len() - 1);
            assert(shown_at(a1, x, wanted));
        }
        assert(strictly_descending(a1)) by {
            assert forall|x: int, y: int| 0 <= x < y < a1.len() implies (#[trigger] a1[y]).period.earlier_than(
                (#[trigger] a1[x]).period,
            ) by {
                assert(a[y].period.earlier_than(a[x].period));
            }
        }
        assert(strictly_descending(b1)) by {
            assert forall|x: int, y: int| 0 <= x < y < b1.len() implies (#[trigger] b1[y]).period.earlier_than(
                (#[trigger] b1[x]).period,
            ) by {
                assert(b[y].period.earlier_than(b[x].period));
            }
        }
        lemma_same_periods(a1, b1);
        assert forall|x: int| 0 <= x < a.len() implies (#[trigger] a[x]).period == b[x].period by {
            if x < a.len() - 1 {
                assert(a1[x].period == b1[x].period);
            }
        }
    }
}

/// The reconciled form of an input is determined: two data sets that both
/// reconcile one input are the same.
pub proof fn lemma_merge_unique(
    a: Seq<BillingRecord>,
    b: Seq<BillingRecord>,
    input: Seq<BillingRecord>,
)
    requires
        is_merge_of(a, input),
        is_merge_of(b, input),
    ensures
        a == b,
{
    assert forall|i: int| 0 <= i < a.len() implies shows(b, (#[trigger] a[i]).period) by {
        assert(is_first_of(input, a[i]));
        let j = choose|j: int| is_first_at(input, j, a[i]);
        assert(shows(b, input[j].period));
    }
    assert forall|i: int| 0 <= i < b.len() implies shows(a, (#[trigger] b[i]).period) by {
        assert(is_first_of(input, b[i]));
        let j = choose|j: int| is_first_at(input, j, b[i]);
        assert(shows(a, input[j].period));
    }
    lemma_same_periods(a, b);
    assert forall|i: int| 0 <= i < a.len() implies a[i] == b[i] by {
        assert(is_first_of(input, a[i]));
        assert(is_first_of(input, b[i]));
        let x = choose|j: int| is_first_at(input, j, a[i]);
        let y = choose|j: int| is_first_at(input, j, b[i]);
        assert(a[i].period == b[i].period);
        if x < y {
            assert(input[x].period != b[i].period);
        } else if y < x {
            assert(input[y].period != a[i].period);
        }
    }
    assert(a =~= b);
}


} // verus!
