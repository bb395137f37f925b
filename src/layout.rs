use vstd::prelude::*;
use crate::error::ShmError;
use crate::slot::{next_seq, SnapshotSlot};
use crate::tick::TickRecord;

verus! {

/// Number of slots in a segment.
pub const MAX_SYMBOLS: usize = 2048;

/// The symbol identifier that lands on the first position of the index.
pub const SYMBOL_ID_BASE: u64 = 10000000;

/// Number of positions in the symbol index.
pub const SYMBOL_INDEX_SIZE: usize = 65536;

/// The validation marker of a well-made segment.
pub const SHM_MAGIC: u64 = 0x534E415053484F54;

/// The index entry of a position that has no slot.
pub const NO_SLOT: i32 = -1;

/// The index position of a symbol: its offset from the base identifier,
/// folded into the index's range.
pub open spec fn position_of(symbol_id: u64) -> int {
    (symbol_id - SYMBOL_ID_BASE) % (SYMBOL_INDEX_SIZE as int)
}

/// The segment as values: marker, index entries, slots and slot count.
pub struct LayoutView {
    pub magic: u64,
    pub index: Seq<i32>,
    pub slots: Seq<SnapshotSlot>,
    pub slot_count: i32,
}

impl LayoutView {
    /// The fixed sizes hold, the count is within capacity, every index entry is
    /// the sentinel or a claimed slot, and no two positions share a slot.
    pub open spec fn wf(self) -> bool {
        &&& self.index.len() == SYMBOL_INDEX_SIZE
        &&& self.slots.len() == MAX_SYMBOLS
        &&& 0 <= self.slot_count <= MAX_SYMBOLS
        &&& forall|p: int|
            0 <= p < self.index.len() ==> #[trigger] self.index[p] == NO_SLOT || (0
                <= self.index[p] < self.slot_count)
        &&& forall|p: int, q: int|
            0 <= p < self.index.len() && 0 <= q < self.index.len() && #[trigger] self.index[p]
                == #[trigger] self.index[q] && self.index[p] != NO_SLOT ==> p == q
    }

    /// The slot assigned to the symbol's index position, if any.
    pub open spec fn lookup(self, symbol_id: u64) -> Option<usize> {
        let e = self.index[position_of(symbol_id)];
        if e == NO_SLOT {
            None
        } else {
            Some(e as usize)
        }
    }

    /// No slot has a write in progress.
    pub open spec fn all_stable(self) -> bool {
        forall|i: int| 0 <= i < self.slots.len() ==> (#[trigger] self.slots[i]).is_stable()
    }

    /// What a reader obtains for the symbol with a retry budget of `budget`.
    pub open spec fn read_result(self, symbol_id: u64, budget: u32) -> Result<
        TickRecord,
        ShmError,
    > {
        match self.lookup(symbol_id) {
            None => Err(ShmError::UnknownSymbol),
            Some(p) => if budget > 0 && self.slots[p as int].is_stable() {
                Ok(self.slots[p as int].tick)
            } else {
                Err(ShmError::TransientUnavailable)
            },
        }
    }

    /// What allocating a slot for the symbol returns.
    pub open spec fn alloc_result(self, symbol_id: u64) -> Result<usize, ShmError> {
        match self.lookup(symbol_id) {
            Some(p) => Ok(p),
            None => if self.slot_count >= MAX_SYMBOLS {
                Err(ShmError::SegmentFull)
            } else {
                Ok(self.slot_count as usize)
            },
        }
    }

    /// The segment after allocating a slot for the symbol: a new symbol takes
    /// the next unused slot, anything else leaves the segment as it was.
    pub open spec fn after_alloc(self, symbol_id: u64) -> LayoutView {
        if self.lookup(symbol_id) is None && self.slot_count < MAX_SYMBOLS {
            LayoutView {
                magic: self.magic,
                index: self.index.update(position_of(symbol_id), self.slot_count),
                slots: self.slots,
                slot_count: (self.slot_count + 1) as i32,
            }
        } else {
            self
        }
    }
}

/// Allocation is idempotent: allocating the same symbol again returns what the
/// first allocation returned and changes nothing more, whether the first call
/// succeeded or failed.
pub proof fn lemma_allocate_idempotent(v: LayoutView, symbol_id: u64)
    requires
        v.wf(),
    ensures
        v.after_alloc(symbol_id).alloc_result(symbol_id) == v.alloc_result(symbol_id),
        v.after_alloc(symbol_id).after_alloc(symbol_id) == v.after_alloc(symbol_id),
        v.after_alloc(symbol_id).wf(),
{
    let w = v.after_alloc(symbol_id);
    if v.lookup(symbol_id) is None && v.slot_count < MAX_SYMBOLS {
        assert(w.index[position_of(symbol_id)] == v.slot_count);
        assert forall|p: int, q: int|
            0 <= p < w.index.len() && 0 <= q < w.index.len() && #[trigger] w.index[p]
                == #[trigger] w.index[q] && w.index[p] != NO_SLOT implies p == q by {
            if p != position_of(symbol_id) && q != position_of(symbol_id) {
                assert(v.index[p] == w.index[p]);
                assert(v.index[q] == w.index[q]);
            }
        }
    }
}

/// Capacity: once every slot is claimed, a symbol without a slot is refused
/// with `SegmentFull` and the segment, slot count included, stays as it was;
/// the slot count of a well-formed segment never exceeds the capacity.
pub proof fn lemma_full_segment_refuses_new_symbols(v: LayoutView, symbol_id: u64)
    requires
        v.wf(),
    ensures
        v.slot_count <= MAX_SYMBOLS,
        v.slot_count == MAX_SYMBOLS && v.lookup(symbol_id) is None ==> v.alloc_result(symbol_id)
            == Err::<usize, ShmError>(ShmError::SegmentFull) && v.after_alloc(symbol_id) == v,
{
}

/// The segment after allocating the symbols one after the other, in order.
pub open spec fn alloc_all(v: LayoutView, ids: Seq<u64>) -> LayoutView
    decreases ids.len(),
{
    if ids.len() == 0 {
        v
    } else {
        alloc_all(v, ids.drop_last()).after_alloc(ids.last())
    }
}

/// The symbols have no slot in `v` and lie on pairwise distinct index positions.
pub open spec fn fresh_symbols(v: LayoutView, ids: Seq<u64>) -> bool {
    &&& forall|k: int| 0 <= k < ids.len() ==> v.lookup(#[trigger] ids[k]) is None
    &&& forall|k: int, l: int|
        0 <= k < ids.len() && 0 <= l < ids.len() && k != l ==> position_of(#[trigger] ids[k])
            != position_of(#[trigger] ids[l])
}

proof fn lemma_alloc_all_state(v: LayoutView, ids: Seq<u64>)
    requires
        v.wf(),
        fresh_symbols(v, ids),
    ensures
        alloc_all(v, ids).wf(),
        alloc_all(v, ids).slot_count == if v.slot_count + ids.len() < MAX_SYMBOLS {
            v.slot_count + ids.len()
        } else {
            MAX_SYMBOLS as int
        },
        forall|p: int|
            0 <= p < SYMBOL_INDEX_SIZE && (forall|k: int|
                0 <= k < ids.len() ==> position_of(#[trigger] ids[k]) != p) ==> #[trigger] alloc_all(
                v,
                ids,
            ).index[p] == v.index[p],
    decreases ids.len(),
{
    if ids.len() > 0 {
        let pre = ids.drop_last();
        assert(fresh_symbols(v, pre)) by {
            assert forall|k: int| 0 <= k < pre.len() implies v.lookup(#[trigger] pre[k]) is None by {
                assert(pre[k] == ids[k]);
            }
            assert forall|k: int, l: int|
                0 <= k < pre.len() && 0 <= l < pre.len() && k != l implies position_of(
                #[trigger] pre[k],
            ) != position_of(#[trigger] pre[l]) by {
                assert(pre[k] == ids[k] && pre[l] == ids[l]);
            }
        }
        lemma_alloc_all_state(v, pre);
        let w = alloc_all(v, pre);
        let last = ids.last();
        assert forall|k: int| 0 <= k < pre.len() implies position_of(#[trigger] pre[k])
            != position_of(last) by {
            assert(pre[k] == ids[k]);
            assert(ids[ids.len() - 1] == last);
        }
        assert(w.index[position_of(last)] == v.index[position_of(last)]);
        assert(v.lookup(ids[ids.len() - 1]) is None);
        lemma_allocate_idempotent(w, last);
        assert forall|p: int|
            0 <= p < SYMBOL_INDEX_SIZE && (forall|k: int|
                0 <= k < ids.len() ==> position_of(#[trigger] ids[k]) != p) implies #[trigger] alloc_all(
            v,
            ids,
        ).index[p] == v.index[p] by {
            assert(position_of(ids[ids.len() - 1]) != p);
            assert forall|k: int| 0 <= k < pre.len() implies position_of(#[trigger] pre[k]) != p by {
                assert(pre[k] == ids[k]);
            }
        }
    }
}

/// Filling a segment: symbols that have no slot and lie on distinct index
/// positions, allocated one after the other, receive the next unused slots in
/// increasing order; once the capacity is reached every further one is refused
/// with `SegmentFull`.
pub proof fn lemma_distinct_symbols_fill_in_order(v: LayoutView, ids: Seq<u64>)
    requires
        v.wf(),
        fresh_symbols(v, ids),
    ensures
        forall|k: int|
            0 <= k < ids.len() ==> #[trigger] alloc_all(v, ids.take(k)).alloc_result(ids[k]) == if v.slot_count
                + k < MAX_SYMBOLS {
                Ok::<usize, ShmError>((v.slot_count + k) as usize)
            } else {
                Err::<usize, ShmError>(ShmError::SegmentFull)
            },
{
    assert forall|k: int| 0 <= k < ids.len() implies #[trigger] alloc_all(v, ids.take(k)).alloc_result(
        ids[k],
    ) == if v.slot_count + k < MAX_SYMBOLS {
        Ok::<usize, ShmError>((v.slot_count + k) as usize)
    } else {
        Err::<usize, ShmError>(ShmError::SegmentFull)
    } by {
        let pre = ids.take(k);
        assert(fresh_symbols(v, pre)) by {
            assert forall|a: int| 0 <= a < pre.len() implies v.lookup(#[trigger] pre[a]) is None by {
                assert(pre[a] == ids[a]);
            }
            assert forall|a: int, b: int|
                0 <= a < pre.len() && 0 <= b < pre.len() && a != b implies position_of(
                #[trigger] pre[a],
            ) != position_of(#[trigger] pre[b]) by {
                assert(pre[a] == ids[a] && pre[b] == ids[b]);
            }
        }
        lemma_alloc_all_state(v, pre);
        let p = position_of(ids[k]);
        assert forall|a: int| 0 <= a < pre.len() implies position_of(#[trigger] pre[a]) != p by {
            assert(pre[a] == ids[a]);
        }
        assert(alloc_all(v, pre).index[p] == v.index[p]);
    }
}

/// Computes the index position of a symbol identifier.
pub fn symbol_position(symbol_id: u64) -> (r: usize)
    ensures
        r as int == position_of(symbol_id),
        r < SYMBOL_INDEX_SIZE,
{
    let off = symbol_id.wrapping_sub(SYMBOL_ID_BASE);
    proof {
        if symbol_id < SYMBOL_ID_BASE {
            vstd::arithmetic::div_mod::lemma_mod_multiples_vanish(
                0x1_0000_0000_0000,
                symbol_id - SYMBOL_ID_BASE,
                65536,
            );
            assert(off == symbol_id - SYMBOL_ID_BASE + 65536 * 0x1_0000_0000_0000);
        }
    }
    (off % 65536) as usize
}

/// The whole shared segment: validation marker, symbol index, slot array and
/// the count of claimed slots.
pub struct ShmLayout {
    pub magic: u64,
    pub symbol_index: Vec<i32>,
    pub slots: Vec<SnapshotSlot>,
    pub slot_count: i32,
}

impl View for ShmLayout {
    type V = LayoutView;

    open spec fn view(&self) -> LayoutView {
        LayoutView {
            magic: self.magic,
            index: self.symbol_index@,
            slots: self.slots@,
            slot_count: self.slot_count,
        }
    }
}

impl ShmLayout {
    /// A freshly initialised segment: marker written, every index position
    /// empty, no slot claimed, every slot never written.
    pub fn new() -> (r: ShmLayout)
        ensures
            r@.wf(),
            r.magic == SHM_MAGIC,
            r.slot_count == 0,
            forall|p: int| 0 <= p < SYMBOL_INDEX_SIZE ==> #[trigger] r.symbol_index@[p] == NO_SLOT,
            forall|i: int|
                0 <= i < MAX_SYMBOLS ==> (#[trigger] r.slots@[i]).seq == 0
                    && r.slots@[i].tick.is_zeroed(),
    {
        let mut symbol_index: Vec<i32> = Vec::new();
        while symbol_index.len() < SYMBOL_INDEX_SIZE
            invariant
                symbol_index@.len() <= SYMBOL_INDEX_SIZE,
                forall|p: int| 0 <= p < symbol_index@.len() ==> #[trigger] symbol_index@[p] == NO_SLOT,
            decreases SYMBOL_INDEX_SIZE - symbol_index@.len(),
        {
            symbol_index.push(NO_SLOT);
        }
        let mut slots: Vec<SnapshotSlot> = Vec::new();
        while slots.len() < MAX_SYMBOLS
            invariant
                slots@.len() <= MAX_SYMBOLS,
                forall|i: int|
                    0 <= i < slots@.len() ==> (#[trigger] slots@[i]).seq == 0
                        && slots@[i].tick.is_zeroed(),
            decreases MAX_SYMBOLS - slots@.len(),
        {
            slots.push(SnapshotSlot::empty());
        }
        ShmLayout { magic: SHM_MAGIC, symbol_index, slots, slot_count: 0 }
    }

    /// Checks the validation marker before the segment is trusted.
    pub fn validate(&self) -> (r: Result<(), ShmError>)
        ensures
            r == (if self.magic == SHM_MAGIC {
                Ok::<(), ShmError>(())
            } else {
                Err::<(), ShmError>(ShmError::CorruptSegment)
            }),
    {
        if self.magic == SHM_MAGIC {
            Ok(())
        } else {
            Err(ShmError::CorruptSegment)
        }
    }

    /// The slot assigned to the symbol's index position, or `None`.
    pub fn lookup(&self, symbol_id: u64) -> (r: Option<usize>)
        requires
            self@.wf(),
        ensures
            r == self@.lookup(symbol_id),
            r matches Some(p) ==> p < self.slot_count,
    {
        let e = self.symbol_index[symbol_position(symbol_id)];
        if e == NO_SLOT {
            None
        } else {
            Some(e as usize)
        }
    }

    /// Returns the symbol's slot, claiming the next unused one for a symbol
    /// that has none; fails with `SegmentFull`, changing nothing, when all
    /// slots are taken.
    pub fn allocate_slot(&mut self, symbol_id: u64) -> (r: Result<usize, ShmError>)
        requires
            old(self)@.wf(),
        ensures
            final(self)@.wf(),
            r == old(self)@.alloc_result(symbol_id),
            final(self)@ == old(self)@.after_alloc(symbol_id),
    {
        match self.lookup(symbol_id) {
            Some(p) => Ok(p),
            None => {
                if self.slot_count >= MAX_SYMBOLS as i32 {
                    return Err(ShmError::SegmentFull);
                }
                let pos = symbol_position(symbol_id);
                let s = self.slot_count;
                self.symbol_index.set(pos, s);
                self.slot_count = s + 1;
                proof {
                    let v = self@;
                    assert forall|p: int, q: int|
                        0 <= p < v.index.len() && 0 <= q < v.index.len() && #[trigger] v.index[p]
                            == #[trigger] v.index[q] && v.index[p] != NO_SLOT implies p == q by {
                        if p != pos && q != pos {
                            assert(old(self).symbol_index@[p] == v.index[p]);
                            assert(old(self).symbol_index@[q] == v.index[q]);
                        }
                    }
                    assert(v =~= old(self)@.after_alloc(symbol_id));
                }
                Ok(s as usize)
            },
        }
    }

    /// Writes one complete burst into a claimed slot: the slot's counter
    /// advances by two and is even afterwards, its record becomes `tick`, and
    /// nothing else changes.
    pub fn publish(&mut self, slot: usize, tick: TickRecord)
        requires
            old(self)@.wf(),
            slot < old(self).slot_count,
            old(self).slots@[slot as int].is_stable(),
        ensures
            final(self)@.wf(),
            final(self).magic == old(self).magic,
            final(self).symbol_index@ == old(self).symbol_index@,
            final(self).slot_count == old(self).slot_count,
            final(self).slots@.len() == old(self).slots@.len(),
            forall|i: int|
                0 <= i < final(self).slots@.len() && i != slot ==> #[trigger] final(self).slots@[i]
                    == old(self).slots@[i],
            final(self).slots@[slot as int].seq == next_seq(next_seq(old(self).slots@[slot as int].seq)),
            final(self).slots@[slot as int].is_stable(),
            final(self).slots@[slot as int].tick == tick,
            final(self).slots@[slot as int]._pad == old(self).slots@[slot as int]._pad,
    {
        let mut s = self.slots[slot];
        s.publish(tick);
        self.slots.set(slot, s);
    }

    /// The writer's update for a symbol: find or claim its slot, then publish
    /// `tick` into it. Fails with `SegmentFull`, changing nothing, when the
    /// symbol has no slot and none is left.
    pub fn publish_symbol(&mut self, symbol_id: u64, tick: TickRecord) -> (r: Result<
        usize,
        ShmError,
    >)
        requires
            old(self)@.wf(),
            old(self)@.all_stable(),
        ensures
            final(self)@.wf(),
            final(self)@.all_stable(),
            r == old(self)@.alloc_result(symbol_id),
            final(self).magic == old(self).magic,
            final(self).symbol_index@ == old(self)@.after_alloc(symbol_id).index,
            final(self).slot_count == old(self)@.after_alloc(symbol_id).slot_count,
            final(self).slots@.len() == old(self).slots@.len(),
            r is Err ==> final(self).slots@ == old(self).slots@,
            r matches Ok(p) ==> final(self).slots@[p as int].tick == tick && final(self).slots@[p as int].seq
                == next_seq(next_seq(old(self).slots@[p as int].seq)),
            r matches Ok(p) ==> forall|i: int|
                0 <= i < final(self).slots@.len() && i != p ==> #[trigger] final(self).slots@[i]
                    == old(self).slots@[i],
    {
        let p = self.allocate_slot(symbol_id)?;
        self.publish(p, tick);
        Ok(p)
    }

    /// Reads the symbol's record under the reader protocol.
    pub fn read_symbol(&self, symbol_id: u64, budget: u32) -> (r: Result<TickRecord, ShmError>)
        requires
            self@.wf(),
        ensures
            r == self@.read_result(symbol_id, budget),
    {
        match self.lookup(symbol_id) {
            None => Err(ShmError::UnknownSymbol),
            Some(p) => self.slots[p].read(budget),
        }
    }
}

/// A read-only handle on a validated segment. It offers lookups and reads
/// only: the writer protocol cannot be reached through it.
pub struct SegmentReader<'a> {
    layout: &'a ShmLayout,
}

impl<'a> SegmentReader<'a> {
    /// The segment that the handle reads.
    pub closed spec fn segment(&self) -> LayoutView {
        self.layout@
    }

    #[verifier::type_invariant]
    spec fn inv(&self) -> bool {
        self.layout@.wf() && self.layout.magic == SHM_MAGIC
    }

    /// Attaches a reader: refused with `CorruptSegment` unless the marker is
    /// the reserved constant.
    pub fn attach(layout: &'a ShmLayout) -> (r: Result<SegmentReader<'a>, ShmError>)
        requires
            layout@.wf(),
        ensures
            layout.magic != SHM_MAGIC ==> r == Err::<SegmentReader<'a>, ShmError>(
                ShmError::CorruptSegment,
            ),
            layout.magic == SHM_MAGIC ==> (r matches Ok(h) && h.segment() == layout@),
    {
        match layout.validate() {
            Ok(()) => Ok(SegmentReader { layout }),
            Err(e) => Err(e),
        }
    }

    /// The slot assigned to the symbol, or `None`.
    pub fn lookup(&self, symbol_id: u64) -> (r: Option<usize>)
        ensures
            r == self.segment().lookup(symbol_id),
    {
        proof {
            use_type_invariant(self);
        }
        self.layout.lookup(symbol_id)
    }

    /// Reads the symbol's record under the reader protocol: `UnknownSymbol`
    /// without a slot, `TransientUnavailable` when no attempt of the budget
    /// saw a stable record.
    pub fn read_symbol(&self, symbol_id: u64, budget: u32) -> (r: Result<TickRecord, ShmError>)
        ensures
            r == self.segment().read_result(symbol_id, budget),
    {
        proof {
            use_type_invariant(self);
        }
        self.layout.read_symbol(symbol_id, budget)
    }
}

} // verus!
