use vstd::prelude::*;

verus! {

broadcast use vstd::array::group_array_axioms;

/// Number of operations whose latency a recorder keeps.
pub const OP_LATENCY_SLOTS: usize = 16;

/// Sum of all values of `s`, as a mathematical integer.
pub open spec fn latency_sum(s: Seq<u64>) -> int
    decreases s.len(),
{
    if s.len() == 0 {
        0
    } else {
        latency_sum(s.drop_last()) + s.last()
    }
}

/// The slots after an operation starts at time `now` in slot `idx`.
pub open spec fn slots_after_begin(slots: Seq<u64>, idx: nat, now: u64) -> Seq<u64> {
    slots.update(idx as int, now)
}

/// The slots after the operation in slot `idx` ends at time `now`:
/// the start time kept there is replaced by the elapsed time.
pub open spec fn slots_after_end(slots: Seq<u64>, idx: nat, now: u64) -> Seq<u64> {
    slots.update(idx as int, (now - slots[idx as int]) as u64)
}

/// One call on a recorder that changes it: the start or the end of an
/// operation, at the given time in microseconds.
pub enum RecorderStep {
    Begin(u64),
    End(u64),
}

/// Whether `step` may be taken on slots `slots` with next slot `idx`: there
/// must be a next slot, and an end may not come before the start time that
/// the slot holds. On any other step the recording would panic.
pub open spec fn step_allowed(slots: Seq<u64>, idx: nat, step: RecorderStep) -> bool {
    &&& idx < OP_LATENCY_SLOTS
    &&& idx < slots.len()
    &&& match step {
        RecorderStep::Begin(_) => true,
        RecorderStep::End(now) => slots[idx as int] <= now,
    }
}

/// The slots and next slot after `step`.
pub open spec fn apply_step(slots: Seq<u64>, idx: nat, step: RecorderStep) -> (Seq<u64>, nat) {
    match step {
        RecorderStep::Begin(now) => (slots_after_begin(slots, idx, now), idx),
        RecorderStep::End(now) => (slots_after_end(slots, idx, now), idx + 1),
    }
}

/// The slots and next slot after taking `steps` in order, or `None` where
/// one of them is not allowed.
pub open spec fn run_steps(slots: Seq<u64>, idx: nat, steps: Seq<RecorderStep>) -> Option<
    (Seq<u64>, nat),
>
    decreases steps.len(),
{
    if steps.len() == 0 {
        Some((slots, idx))
    } else if !step_allowed(slots, idx, steps[0]) {
        None
    } else {
        let (next_slots, next_idx) = apply_step(slots, idx, steps[0]);
        run_steps(next_slots, next_idx, steps.drop_first())
    }
}

/// The number of ends among `steps`.
pub open spec fn count_ends(steps: Seq<RecorderStep>) -> nat
    decreases steps.len(),
{
    if steps.len() == 0 {
        0
    } else {
        count_ends(steps.drop_first()) + match steps[0] {
            RecorderStep::End(_) => 1nat,
            RecorderStep::Begin(_) => 0nat,
        }
    }
}

/// The slots of a new recorder.
pub open spec fn initial_slots() -> Seq<u64> {
    Seq::new(OP_LATENCY_SLOTS as nat, |i: int| 0u64)
}

/// Latencies of up to `OP_LATENCY_SLOTS` operations, in microseconds.
///
/// Each slot below `next_slot()` holds the measured latency of one finished
/// operation. The slot at `next_slot()` holds the start time of the operation
/// that is being measured, once it has begun.
pub struct LatencyRecorder {
    ops_latency: [u64; 16],
    op_idx: usize,
}

impl LatencyRecorder {
    /// The values of the slots, in order.
    pub closed spec fn slots(self) -> Seq<u64> {
        self.ops_latency@
    }

    /// The slot that the next operation uses.
    pub closed spec fn next_slot(self) -> nat {
        self.op_idx as nat
    }

    /// The recorder's invariant: it has `OP_LATENCY_SLOTS` slots and the next
    /// slot is at most one past the last.
    pub closed spec fn wf(self) -> bool {
        &&& self.ops_latency@.len() == OP_LATENCY_SLOTS
        &&& self.op_idx <= OP_LATENCY_SLOTS
    }

    /// A recorder whose slots are all zero and whose next slot is the first.
    pub fn new() -> (r: Self)
        ensures
            r.wf(),
            r.slots() == initial_slots(),
            r.next_slot() == 0,
    {
        let r = LatencyRecorder { ops_latency: [0u64; 16], op_idx: 0 };
        assert(r.slots() =~= initial_slots());
        r
    }

    /// Whether every slot holds a finished measurement, so that no operation
    /// can be measured any more.
    pub fn is_full(&self) -> (full: bool)
        requires
            self.wf(),
        ensures
            full <==> self.next_slot() == OP_LATENCY_SLOTS,
    {
        self.op_idx == OP_LATENCY_SLOTS
    }

    /// The index of the slot that the next operation uses.
    pub fn next_slot_index(&self) -> (idx: usize)
        ensures
            idx == self.next_slot(),
    {
        self.op_idx
    }

    /// A copy of all slots.
    pub fn ops_latency(&self) -> (slots: [u64; 16])
        ensures
            slots@ == self.slots(),
    {
        self.ops_latency
    }

    /// The value held in slot `idx`.
    pub fn slot(&self, idx: usize) -> (v: u64)
        requires
            self.wf(),
            idx < OP_LATENCY_SLOTS,
        ensures
            v == self.slots()[idx as int],
    {
        self.ops_latency[idx]
    }

    /// Starts measuring an operation at time `now` (microseconds): the next
    /// slot takes the start time; which slot is next does not change.
    pub fn begin_record_op_latency(&mut self, now: u64)
        requires
            old(self).wf(),
            old(self).next_slot() < OP_LATENCY_SLOTS,
        ensures
            final(self).wf(),
            final(self).next_slot() == old(self).next_slot(),
            final(self).slots() == slots_after_begin(old(self).slots(), old(self).next_slot(), now),
            (final(self).slots(), final(self).next_slot()) == apply_step(
                old(self).slots(),
                old(self).next_slot(),
                RecorderStep::Begin(now),
            ),
            forall|j: int|
                0 <= j < old(self).next_slot() ==> final(self).slots()[j] == old(self).slots()[j],
            final(self).slots().len() == OP_LATENCY_SLOTS,
            final(self).slots()[old(self).next_slot() as int] == now,
            forall|j: int|
                0 <= j < OP_LATENCY_SLOTS && j != old(self).next_slot() ==> final(self).slots()[j]
                    == old(self).slots()[j],
            latency_sum(final(self).slots()) == latency_sum(old(self).slots()) - old(
                self,
            ).slots()[old(self).next_slot() as int] + now,
    {
        let idx = self.op_idx;
        proof {
            lemma_begin_changes_only_its_slot(self.slots(), idx as nat, now);
        }
        self.ops_latency[idx] = now;
    }

    /// Ends the operation being measured at time `now` (microseconds): the
    /// next slot takes the time elapsed since the start time it held, and the
    /// slot after it becomes the next one.
    pub fn end_record_op_latency(&mut self, now: u64)
        requires
            old(self).wf(),
            old(self).next_slot() < OP_LATENCY_SLOTS,
            old(self).slots()[old(self).next_slot() as int] <= now,
        ensures
            final(self).wf(),
            final(self).next_slot() == old(self).next_slot() + 1,
            final(self).slots() == slots_after_end(old(self).slots(), old(self).next_slot(), now),
            (final(self).slots(), final(self).next_slot()) == apply_step(
                old(self).slots(),
                old(self).next_slot(),
                RecorderStep::End(now),
            ),
            final(self).slots()[old(self).next_slot() as int] == now - old(self).slots()[old(
                self,
            ).next_slot() as int],
            forall|j: int|
                0 <= j < old(self).next_slot() ==> final(self).slots()[j] == old(self).slots()[j],
            final(self).slots().len() == OP_LATENCY_SLOTS,
            forall|j: int|
                0 <= j < OP_LATENCY_SLOTS && j != old(self).next_slot() ==> final(self).slots()[j]
                    == old(self).slots()[j],
            latency_sum(final(self).slots()) == latency_sum(old(self).slots()) - 2 * old(
                self,
            ).slots()[old(self).next_slot() as int] + now,
    {
        let idx = self.op_idx;
        proof {
            lemma_end_changes_only_its_slot(self.slots(), idx as nat, now);
        }
        let start = self.ops_latency[idx];
        self.ops_latency[idx] = now - start;
        self.op_idx = idx + 1;
    }

    /// The sum of all slots, or `None` where it does not fit in a `u64`.
    pub fn ops_latency_sum(&self) -> (sum: Option<u64>)
        requires
            self.wf(),
        ensures
            match sum {
                Some(s) => s == latency_sum(self.slots()),
                None => latency_sum(self.slots()) > u64::MAX,
            },
    {
        let mut total: u64 = 0;
        let mut i: usize = 0;
        while i < OP_LATENCY_SLOTS
            invariant
                self.wf(),
                i <= OP_LATENCY_SLOTS,
                total == latency_sum(self.slots().subrange(0, i as int)),
            decreases OP_LATENCY_SLOTS - i,
        {
            let x = self.ops_latency[i];
            proof {
                let s = self.slots();
                assert(s.subrange(0, i + 1).drop_last() =~= s.subrange(0, i as int));
            }
            match total.checked_add(x) {
                Some(t) => {
                    total = t;
                },
                None => {
                    proof {
                        lemma_latency_sum_prefix_le(self.slots(), (i + 1) as int);
                    }
                    return None;
                },
            }
            i = i + 1;
        }
        assert(self.slots().subrange(0, OP_LATENCY_SLOTS as int) =~= self.slots());
        Some(total)
    }
}

/// The sum of a prefix of latencies is at most the sum of all of them.
pub proof fn lemma_latency_sum_prefix_le(s: Seq<u64>, k: int)
    requires
        0 <= k <= s.len(),
    ensures
        latency_sum(s.subrange(0, k)) <= latency_sum(s),
    decreases s.len() - k,
{
    if k == s.len() {
        assert(s.subrange(0, k) =~= s);
    } else {
        lemma_latency_sum_prefix_le(s, k + 1);
        assert(s.subrange(0, k + 1).drop_last() =~= s.subrange(0, k));
    }
}

/// Measuring one operation that begins at `start` and ends at `stop`
/// (with `start <= stop`) leaves exactly `stop - start` in the slot it used
/// and every other slot as it was.
pub proof fn lemma_measure_records_elapsed(slots: Seq<u64>, idx: nat, start: u64, stop: u64)
    requires
        idx < slots.len(),
        start <= stop,
    ensures
        slots_after_end(slots_after_begin(slots, idx, start), idx, stop) == slots.update(
            idx as int,
            (stop - start) as u64,
        ),
        slots_after_end(slots_after_begin(slots, idx, start), idx, stop)[idx as int] == stop
            - start,
        forall|j: int|
            0 <= j < slots.len() && j != idx ==> slots_after_end(
                slots_after_begin(slots, idx, start),
                idx,
                stop,
            )[j] == slots[j],
{
    assert(slots_after_end(slots_after_begin(slots, idx, start), idx, stop) =~= slots.update(
        idx as int,
        (stop - start) as u64,
    ));
}

/// A well-formed recorder has `OP_LATENCY_SLOTS` slots, and its next slot is
/// at most one past the last.
pub proof fn lemma_wf_slots(r: LatencyRecorder)
    requires
        r.wf(),
    ensures
        r.slots().len() == OP_LATENCY_SLOTS,
        r.next_slot() <= OP_LATENCY_SLOTS,
{
}

/// Taking steps from slots `slots` with next slot `idx`, where none panics,
/// moves the next slot by the number of ends and keeps it within the slots.
proof fn lemma_run_steps_from(slots: Seq<u64>, idx: nat, steps: Seq<RecorderStep>)
    requires
        slots.len() == OP_LATENCY_SLOTS,
        idx <= OP_LATENCY_SLOTS,
    ensures
        run_steps(slots, idx, steps) matches Some((s, i)) ==> {
            &&& i == idx + count_ends(steps)
            &&& i <= OP_LATENCY_SLOTS
            &&& s.len() == OP_LATENCY_SLOTS
        },
    decreases steps.len(),
{
    if steps.len() > 0 && step_allowed(slots, idx, steps[0]) {
        let (next_slots, next_idx) = apply_step(slots, idx, steps[0]);
        lemma_run_steps_from(next_slots, next_idx, steps.drop_first());
    }
}

/// Starting from a new recorder, any sequence of begins and ends that never
/// panics leaves the next slot equal to the number of ends: only an end moves
/// it, by one, and nothing moves it back. So at most `OP_LATENCY_SLOTS`
/// operations are recorded, and once that many have ended no further begin
/// or end is allowed.
pub proof fn lemma_next_slot_counts_ends(steps: Seq<RecorderStep>, more: RecorderStep)
    ensures
        run_steps(initial_slots(), 0, steps) matches Some((s, i)) ==> {
            &&& i == count_ends(steps)
            &&& count_ends(steps) <= OP_LATENCY_SLOTS
            &&& s.len() == OP_LATENCY_SLOTS
            &&& (i == OP_LATENCY_SLOTS ==> !step_allowed(s, i, more))
        },
{
    lemma_run_steps_from(initial_slots(), 0, steps);
}

/// Changing one value of a sequence of latencies changes their sum by the
/// difference between the new value and the old one.
pub proof fn lemma_latency_sum_update(s: Seq<u64>, i: int, v: u64)
    requires
        0 <= i < s.len(),
    ensures
        latency_sum(s.update(i, v)) == latency_sum(s) - s[i] + v,
    decreases s.len(),
{
    let u = s.update(i, v);
    if i == s.len() - 1 {
        assert(u.drop_last() =~= s.drop_last());
    } else {
        lemma_latency_sum_update(s.drop_last(), i, v);
        assert(u.drop_last() =~= s.drop_last().update(i, v));
    }
}

/// Beginning an operation at `now` in slot `idx` puts `now` there and
/// changes no other slot, so the sum changes only by that slot.
pub proof fn lemma_begin_changes_only_its_slot(slots: Seq<u64>, idx: nat, now: u64)
    requires
        idx < slots.len(),
    ensures
        slots_after_begin(slots, idx, now).len() == slots.len(),
        slots_after_begin(slots, idx, now)[idx as int] == now,
        forall|j: int|
            0 <= j < slots.len() && j != idx ==> slots_after_begin(slots, idx, now)[j] == slots[j],
        latency_sum(slots_after_begin(slots, idx, now)) == latency_sum(slots) - slots[idx as int]
            + now,
{
    lemma_latency_sum_update(slots, idx as int, now);
}

/// Ending the operation in slot `idx` at `now`, no earlier than the start
/// time the slot holds, puts the elapsed time there and changes no other
/// slot, so the sum changes only by that slot.
pub proof fn lemma_end_changes_only_its_slot(slots: Seq<u64>, idx: nat, now: u64)
    requires
        idx < slots.len(),
        slots[idx as int] <= now,
    ensures
        slots_after_end(slots, idx, now).len() == slots.len(),
        slots_after_end(slots, idx, now)[idx as int] == now - slots[idx as int],
        forall|j: int|
            0 <= j < slots.len() && j != idx ==> slots_after_end(slots, idx, now)[j] == slots[j],
        latency_sum(slots_after_end(slots, idx, now)) == latency_sum(slots) - 2 * slots[idx as int]
            + now,
{
    lemma_latency_sum_update(slots, idx as int, (now - slots[idx as int]) as u64);
}

/// Beginning twice before an end restarts the measurement: the slot ends up
/// with the time elapsed since the second begin, every other slot is as it
/// was before the first begin, and the sum grows by that elapsed time less
/// what the slot held at first.
pub proof fn lemma_restarted_measurement(
    slots: Seq<u64>,
    idx: nat,
    first: u64,
    second: u64,
    stop: u64,
)
    requires
        idx < slots.len(),
        second <= stop,
    ensures
        ({
            let after = slots_after_end(
                slots_after_begin(slots_after_begin(slots, idx, first), idx, second),
                idx,
                stop,
            );
            &&& after.len() == slots.len()
            &&& after[idx as int] == stop - second
            &&& forall|j: int| 0 <= j < slots.len() && j != idx ==> after[j] == slots[j]
            &&& latency_sum(after) == latency_sum(slots) - slots[idx as int] + (stop - second)
        }),
{
    let s1 = slots_after_begin(slots, idx, first);
    let s2 = slots_after_begin(s1, idx, second);
    lemma_begin_changes_only_its_slot(slots, idx, first);
    lemma_begin_changes_only_its_slot(s1, idx, second);
    lemma_end_changes_only_its_slot(s2, idx, stop);
}

} // verus!
