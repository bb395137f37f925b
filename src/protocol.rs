use vstd::prelude::*;

verus! {

/// The state of one slot at one moment: its counter, taken as an unbounded
/// integer, and its record as a sequence of fields.
pub struct SlotState<T> {
    pub seq: int,
    pub payload: Seq<T>,
}

/// One step of the single writer, or no step at all. From a stable (even)
/// counter it may only open a burst; inside a burst (odd counter) it may
/// overwrite any fields, or close the burst.
pub open spec fn writer_step<T>(a: SlotState<T>, b: SlotState<T>) -> bool {
    ||| b == a
    ||| a.seq % 2 == 0 && b.seq == a.seq + 1 && b.payload == a.payload
    ||| a.seq % 2 == 1 && b.seq == a.seq && b.payload.len() == a.payload.len()
    ||| a.seq % 2 == 1 && b.seq == a.seq + 1 && b.payload == a.payload
}

/// Every move from one state of the history to the next is a writer step.
pub open spec fn valid_history<T>(h: Seq<SlotState<T>>) -> bool {
    forall|k: int| 0 <= k < h.len() - 1 ==> #[trigger] writer_step(h[k], h[k + 1])
}

/// A reader's copy: field `f` was read at moment `at[f]` of the history.
pub open spec fn copied<T>(h: Seq<SlotState<T>>, at: Seq<int>, f: int) -> T {
    h[at[f]].payload[f]
}

proof fn lemma_counter_monotone<T>(h: Seq<SlotState<T>>, a: int, b: int)
    requires
        valid_history(h),
        0 <= a <= b < h.len(),
    ensures
        h[a].seq <= h[b].seq,
    decreases b - a,
{
    if a < b {
        lemma_counter_monotone(h, a, b - 1);
        assert(writer_step(h[b - 1], h[(b - 1) + 1]));
    }
}

proof fn lemma_quiet_window<T>(h: Seq<SlotState<T>>, i: int, j: int, k: int)
    requires
        valid_history(h),
        0 <= i <= k <= j < h.len(),
        h[i].seq == h[j].seq,
        h[i].seq % 2 == 0,
    ensures
        h[k] == h[i],
    decreases k - i,
{
    if i < k {
        lemma_quiet_window(h, i, j, k - 1);
        lemma_counter_monotone(h, k, j);
        assert(writer_step(h[k - 1], h[(k - 1) + 1]));
    }
}

/// Tear-freedom: when a reader's two counter reads, at moments `i` and `j`,
/// agree on an even value, every field it copied in between comes from the
/// stable record that the last complete burst before `i` left, never from a
/// mixture of bursts.
pub proof fn lemma_matching_reads_are_untorn<T>(
    h: Seq<SlotState<T>>,
    i: int,
    j: int,
    at: Seq<int>,
)
    requires
        valid_history(h),
        0 <= i <= j < h.len(),
        h[i].seq == h[j].seq,
        h[i].seq % 2 == 0,
        at.len() == h[i].payload.len(),
        forall|f: int| 0 <= f < at.len() ==> i <= #[trigger] at[f] <= j,
    ensures
        forall|f: int| 0 <= f < at.len() ==> #[trigger] copied(h, at, f) == h[i].payload[f],
        h[j] == h[i],
{
    lemma_quiet_window(h, i, j, j);
    assert forall|f: int| 0 <= f < at.len() implies #[trigger] copied(h, at, f)
        == h[i].payload[f] by {
        lemma_quiet_window(h, i, j, at[f]);
    }
}

/// Parity: the record only changes while the counter is odd, on both sides of
/// the change; a stable (even) counter always stands beside an unchanged record.
pub proof fn lemma_record_changes_only_mid_burst<T>(h: Seq<SlotState<T>>, k: int)
    requires
        valid_history(h),
        0 <= k < h.len() - 1,
        h[k].payload != h[k + 1].payload,
    ensures
        h[k].seq % 2 == 1,
        h[k + 1].seq % 2 == 1,
        h[k + 1].seq == h[k].seq,
{
    assert(writer_step(h[k], h[k + 1]));
}

} // verus!
