use vstd::prelude::*;

verus! {

/// Heap capacity available to one profiled execution context. The
/// `remaining_heap` of a completed section is this capacity minus the heap
/// usage observed at the moment the section opened.
pub const HEAP_CAPACITY: u64 = 32_000;

/// Mathematical image of one still-open section.
#[verifier::ext_equal]
pub ghost struct ActiveModel {
    pub id: Seq<char>,
    pub start_cu: u64,
    pub start_sequence: nat,
    pub start_heap: Option<u64>,
}

/// Mathematical image of the heap metrics of a completed section.
#[verifier::ext_equal]
pub ghost struct HeapModel {
    pub start_heap: u64,
    pub end_heap: u64,
    pub total_heap: u64,
    pub net_heap: u64,
    pub remaining_heap: u64,
}

/// Mathematical image of one completed section.
#[verifier::ext_equal]
pub ghost struct CompletedModel {
    pub id: Seq<char>,
    pub start_cu: u64,
    pub end_cu: u64,
    pub start_sequence: nat,
    pub end_sequence: nat,
    pub total_cu: u64,
    pub net_cu: u64,
    pub remaining_cu: u64,
    pub heap: Option<HeapModel>,
}

/// Mathematical image of the whole engine: the stack of open sections, the
/// log of completed sections in completion order, and the event counter.
#[verifier::ext_equal]
pub ghost struct StateModel {
    pub active: Seq<ActiveModel>,
    pub completed: Seq<CompletedModel>,
    pub next_sequence: nat,
}

/// Subtraction clamped at zero: the meaning of every subtraction the engine
/// performs on budget and heap counters.
pub open spec fn clamp_sub(a: u64, b: int) -> u64
    recommends
        0 <= b,
{
    if b >= a { 0 } else { (a - b) as u64 }
}

/// An unbounded sum as the machine sees it: capped at the largest `u64`.
pub open spec fn cap_u64(x: int) -> int {
    if x > u64::MAX { u64::MAX as int } else { x }
}

/// Strict sequence-number containment: `c` is a child of `p` when `c`'s whole
/// span falls strictly inside `p`'s. Overlap without containment does not count.
pub open spec fn is_child(c: CompletedModel, p: CompletedModel) -> bool {
    c.start_sequence > p.start_sequence && c.end_sequence < p.end_sequence
}

/// Sum of the total compute units of every child of `p` in the log `s`.
pub open spec fn children_total_cu(s: Seq<CompletedModel>, p: CompletedModel) -> int
    decreases s.len(),
{
    if s.len() == 0 {
        0
    } else {
        children_total_cu(s.drop_last(), p) + if is_child(s.last(), p) {
            s.last().total_cu as int
        } else {
            0
        }
    }
}

/// What one entry contributes to a parent's heap sum: its total heap when it
/// carries heap metrics, zero otherwise.
pub open spec fn heap_contribution(c: CompletedModel) -> int {
    match c.heap {
        Some(h) => h.total_heap as int,
        None => 0,
    }
}

/// Sum of the total heap of every child of `p` in the log `s`; children
/// without heap metrics contribute zero.
pub open spec fn children_total_heap(s: Seq<CompletedModel>, p: CompletedModel) -> int
    decreases s.len(),
{
    if s.len() == 0 {
        0
    } else {
        children_total_heap(s.drop_last(), p) + if is_child(s.last(), p) {
            heap_contribution(s.last())
        } else {
            0
        }
    }
}

/// Extending the scanned prefix by one entry grows each children sum by that
/// entry's contribution, when it is a child.
pub proof fn lemma_children_sums_take_step(s: Seq<CompletedModel>, p: CompletedModel, k: int)
    requires
        0 <= k < s.len(),
    ensures
        children_total_cu(s.take(k + 1), p) == children_total_cu(s.take(k), p) + if is_child(
            s[k],
            p,
        ) {
            s[k].total_cu as int
        } else {
            0
        },
        children_total_heap(s.take(k + 1), p) == children_total_heap(s.take(k), p) + if is_child(
            s[k],
            p,
        ) {
            heap_contribution(s[k])
        } else {
            0
        },
{
    assert(s.take(k + 1).drop_last() =~= s.take(k));
    assert(s.take(k + 1).last() == s[k]);
}

/// The entry `p` after net computation against the log `s`: net compute is
/// total minus the children's totals, clamped at zero, and likewise for heap
/// when heap metrics are present. Every other field is kept.
pub open spec fn processed_entry(s: Seq<CompletedModel>, p: CompletedModel) -> CompletedModel {
    CompletedModel {
        id: p.id,
        start_cu: p.start_cu,
        end_cu: p.end_cu,
        start_sequence: p.start_sequence,
        end_sequence: p.end_sequence,
        total_cu: p.total_cu,
        net_cu: clamp_sub(p.total_cu, children_total_cu(s, p)),
        remaining_cu: p.remaining_cu,
        heap: match p.heap {
            Some(h) => Some(
                HeapModel {
                    start_heap: h.start_heap,
                    end_heap: h.end_heap,
                    total_heap: h.total_heap,
                    net_heap: clamp_sub(h.total_heap, children_total_heap(s, p)),
                    remaining_heap: h.remaining_heap,
                },
            ),
            None => None,
        },
    }
}

/// The whole completed log after net computation.
pub open spec fn processed_log(s: Seq<CompletedModel>) -> Seq<CompletedModel> {
    Seq::new(s.len(), |i: int| processed_entry(s, s[i]))
}

/// The open section that `start` records.
pub open spec fn opened_model(
    id: Seq<char>,
    current_cu: u64,
    sequence: nat,
    heap_value: u64,
    with_heap: bool,
) -> ActiveModel {
    ActiveModel {
        id,
        start_cu: current_cu,
        start_sequence: sequence,
        start_heap: if with_heap {
            Some(heap_value)
        } else {
            None
        },
    }
}

/// The completed section that `end` builds from the matched open section.
/// Heap metrics exist exactly when heap accounting was requested at both the
/// open (`a.start_heap` present) and the close (`with_heap`); net fields are
/// zero until post-processing.
pub open spec fn completed_of(
    a: ActiveModel,
    end_sequence: nat,
    end_cu: u64,
    heap_value: u64,
    with_heap: bool,
) -> CompletedModel {
    CompletedModel {
        id: a.id,
        start_cu: a.start_cu,
        end_cu,
        start_sequence: a.start_sequence,
        end_sequence,
        total_cu: clamp_sub(a.start_cu, end_cu as int),
        net_cu: 0,
        remaining_cu: a.start_cu,
        heap: if with_heap && a.start_heap is Some {
            Some(
                HeapModel {
                    start_heap: a.start_heap->0,
                    end_heap: heap_value,
                    total_heap: clamp_sub(heap_value, a.start_heap->0 as int),
                    net_heap: 0,
                    remaining_heap: clamp_sub(HEAP_CAPACITY, a.start_heap->0 as int),
                },
            )
        } else {
            None
        },
    }
}

/// Some open section with this id exists.
pub open spec fn has_open(active: Seq<ActiveModel>, id: Seq<char>) -> bool {
    exists|j: int| 0 <= j < active.len() && active[j].id == id
}

/// `j` is the position of the most recently opened section with this id:
/// it matches, and nothing above it on the stack does.
pub open spec fn is_last_match(active: Seq<ActiveModel>, id: Seq<char>, j: int) -> bool {
    &&& 0 <= j < active.len()
    &&& active[j].id == id
    &&& forall|k: int| j < k < active.len() ==> active[k].id != id
}

/// How one successful `end` call turns `pre` into `post`: the most recent
/// open section with the id leaves the stack, its completed form is appended,
/// and the event counter advances by one.
pub open spec fn end_step(
    pre: StateModel,
    post: StateModel,
    j: int,
    id: Seq<char>,
    end_cu: u64,
    heap_value: u64,
    with_heap: bool,
) -> bool {
    &&& is_last_match(pre.active, id, j)
    &&& post.active == pre.active.remove(j)
    &&& post.completed == pre.completed.push(
        completed_of(pre.active[j], pre.next_sequence, end_cu, heap_value, with_heap),
    )
    &&& post.next_sequence == pre.next_sequence + 1
}

/// The message carried by the one error the engine can raise.
pub open spec fn unmatched_end_message(id: Seq<char>) -> Seq<char> {
    "No active profiling section found for ID: "@ + id
}

impl StateModel {
    /// Well-formedness: every recorded sequence number lies below the event
    /// counter, the stack is ordered by opening time, and every completed
    /// section closed strictly after it opened.
    pub open spec fn wf(self) -> bool {
        &&& forall|i: int|
            0 <= i < self.active.len() ==> (#[trigger] self.active[i]).start_sequence
                < self.next_sequence
        &&& forall|i: int, j: int|
            #![trigger self.active[i], self.active[j]]
            0 <= i < j < self.active.len() ==> self.active[i].start_sequence
                < self.active[j].start_sequence
        &&& forall|i: int|
            0 <= i < self.completed.len() ==> (#[trigger] self.completed[i]).start_sequence
                < self.completed[i].end_sequence && self.completed[i].end_sequence
                < self.next_sequence
    }
}

} // verus!
