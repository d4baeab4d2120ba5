use vstd::prelude::*;
use vstd::string::StringExecFns;

use crate::model::ActiveModel;
use crate::model::CompletedModel;
use crate::model::HeapModel;
use crate::model::StateModel;
use crate::model::HEAP_CAPACITY;
use crate::model::cap_u64;
use crate::model::children_total_cu;
use crate::model::children_total_heap;
use crate::model::completed_of;
use crate::model::end_step;
use crate::model::lemma_children_sums_take_step;
use crate::model::processed_entry;
use crate::model::processed_log;
use crate::model::has_open;
use crate::model::is_last_match;
use crate::model::opened_model;
use crate::model::unmatched_end_message;

verus! {

/// A section that has been opened and not yet closed.
#[derive(Debug, Clone)]
pub struct ActiveEntry {
    pub id: String,
    pub start_cu: u64,
    pub start_sequence: usize,
    pub start_heap: Option<u64>,
}

/// Heap accounting attached to a completed section when heap accounting was
/// requested at both its open and its close.
#[derive(Debug, Clone)]
pub struct HeapMetrics {
    pub start_heap: u64,
    pub end_heap: u64,
    pub total_heap: u64,
    pub net_heap: u64,
    pub remaining_heap: u64,
}

/// A section that has been closed; `net_cu` and `net_heap` stay zero until
/// post-processing fills them.
#[derive(Debug, Clone)]
pub struct CompletedEntry {
    pub id: String,
    pub start_cu: u64,
    pub end_cu: u64,
    pub start_sequence: usize,
    pub end_sequence: usize,
    pub total_cu: u64,
    pub net_cu: u64,
    pub remaining_cu: u64,
    pub heap: Option<HeapMetrics>,
}

/// The accounting engine: a stack of open sections, the log of completed
/// sections in completion order, and the shared event counter.
#[derive(Debug)]
pub struct ProfilingState {
    active_stack: Vec<ActiveEntry>,
    completed: Vec<CompletedEntry>,
    next_sequence: usize,
}

impl View for ActiveEntry {
    type V = ActiveModel;

    open spec fn view(&self) -> ActiveModel {
        ActiveModel {
            id: self.id@,
            start_cu: self.start_cu,
            start_sequence: self.start_sequence as nat,
            start_heap: self.start_heap,
        }
    }
}

impl View for HeapMetrics {
    type V = HeapModel;

    open spec fn view(&self) -> HeapModel {
        HeapModel {
            start_heap: self.start_heap,
            end_heap: self.end_heap,
            total_heap: self.total_heap,
            net_heap: self.net_heap,
            remaining_heap: self.remaining_heap,
        }
    }
}

impl View for CompletedEntry {
    type V = CompletedModel;

    open spec fn view(&self) -> CompletedModel {
        CompletedModel {
            id: self.id@,
            start_cu: self.start_cu,
            end_cu: self.end_cu,
            start_sequence: self.start_sequence as nat,
            end_sequence: self.end_sequence as nat,
            total_cu: self.total_cu,
            net_cu: self.net_cu,
            remaining_cu: self.remaining_cu,
            heap: match self.heap {
                Some(h) => Some(h@),
                None => None,
            },
        }
    }
}

impl View for ProfilingState {
    type V = StateModel;

    closed spec fn view(&self) -> StateModel {
        StateModel {
            active: self.active_stack@.map_values(|e: ActiveEntry| e@),
            completed: self.completed@.map_values(|e: CompletedEntry| e@),
            next_sequence: self.next_sequence as nat,
        }
    }
}

impl Default for ProfilingState {
    /// An engine with no recorded events.
    fn default() -> (r: Self)
        ensures
            r@.active.len() == 0,
            r@.completed.len() == 0,
            r@.next_sequence == 0,
            r@.wf(),
    {
        ProfilingState { active_stack: Vec::new(), completed: Vec::new(), next_sequence: 0 }
    }
}

impl ProfilingState {
    /// An engine with no recorded events.
    pub fn new() -> (r: Self)
        ensures
            r@.active.len() == 0,
            r@.completed.len() == 0,
            r@.next_sequence == 0,
            r@.wf(),
    {
        Self::default()
    }

    /// Open a section: record the id, the budget observed now, the current
    /// event number, and — only when requested — the heap usage observed now.
    /// The event counter advances by one. Always succeeds.
    pub fn start(&mut self, id: String, current_cu: u64, heap_value: u64, with_heap: bool)
        requires
            old(self)@.next_sequence < usize::MAX,
        ensures
            final(self)@.active == old(self)@.active.push(
                opened_model(id@, current_cu, old(self)@.next_sequence, heap_value, with_heap),
            ),
            final(self)@.completed == old(self)@.completed,
            final(self)@.next_sequence == old(self)@.next_sequence + 1,
            old(self)@.wf() ==> final(self)@.wf(),
    {
        let entry = ActiveEntry {
            id,
            start_cu: current_cu,
            start_sequence: self.next_sequence,
            start_heap: if with_heap {
                Some(heap_value)
            } else {
                None
            },
        };
        self.active_stack.push(entry);
        self.next_sequence = self.next_sequence + 1;
        proof {
            assert(self@.active =~= old(self)@.active.push(
                opened_model(id@, current_cu, old(self)@.next_sequence, heap_value, with_heap),
            ));
            assert(self@.completed =~= old(self)@.completed);
            if old(self)@.wf() {
                let pre = old(self)@;
                assert forall|a: int|
                    0 <= a < self@.active.len() implies (#[trigger] self@.active[a]).start_sequence
                    < self@.next_sequence by {
                    if a < pre.active.len() {
                        assert(self@.active[a] == pre.active[a]);
                        assert(pre.active[a].start_sequence < pre.next_sequence);
                    }
                }
                assert forall|a: int, b: int|
                    #![trigger self@.active[a], self@.active[b]]
                    0 <= a < b < self@.active.len() implies self@.active[a].start_sequence
                    < self@.active[b].start_sequence by {
                    assert(self@.active[a] == pre.active[a]);
                    assert(pre.active[a].start_sequence < pre.next_sequence);
                    if b < pre.active.len() {
                        assert(self@.active[b] == pre.active[b]);
                        assert(pre.active[a].start_sequence < pre.active[b].start_sequence);
                    }
                }
                assert forall|a: int|
                    0 <= a < self@.completed.len() implies (#[trigger] self@.completed[a]).start_sequence
                    < self@.completed[a].end_sequence && self@.completed[a].end_sequence
                    < self@.next_sequence by {
                    assert(self@.completed[a] == pre.completed[a]);
                    assert(pre.completed[a].start_sequence < pre.completed[a].end_sequence);
                    assert(pre.completed[a].end_sequence < pre.next_sequence);
                }
                assert(self@.wf());
            }
        }
    }

    /// Close the most recently opened section with this id. On a match, that
    /// section leaves the stack, its completed form — totals clamped at zero,
    /// heap metrics present only when heap accounting was on at both ends,
    /// net fields zero — is appended to the log, and the event counter
    /// advances. When no open section has the id, the call fails with a
    /// message carrying the id, and nothing changes.
    pub fn end(&mut self, id: &str, current_cu: u64, heap_value: u64, with_heap: bool) -> (r:
        Result<(), String>)
        requires
            has_open(old(self)@.active, id@) ==> old(self)@.next_sequence < usize::MAX,
        ensures
            has_open(old(self)@.active, id@) ==> r is Ok && exists|j: int|
                #![auto]
                end_step(old(self)@, final(self)@, j, id@, current_cu, heap_value, with_heap),
            !has_open(old(self)@.active, id@) ==> {
                &&& r is Err
                &&& final(self)@ == old(self)@
                &&& r->Err_0@ == unmatched_end_message(id@)
            },
            old(self)@.wf() ==> final(self)@.wf(),
    {
        let owned: String = id.to_owned();
        let n: usize = self.active_stack.len();
        let mut k: usize = n;
        let mut found: bool = false;
        while k > 0 && !found
            invariant
                k <= n,
                n == self.active_stack.len(),
                *self == *old(self),
                owned@ == id@,
                !found ==> forall|m: int| k <= m < n ==> self@.active[m].id != id@,
                found ==> is_last_match(self@.active, id@, k as int),
            decreases k,
        {
            let probe: usize = k - 1;
            if self.active_stack[probe].id == owned {
                found = true;
            }
            k = probe;
        }
        if found {
            let ghost pre = self@;
            let ghost j: int = k as int;
            let active_entry = self.active_stack.remove(k);
            let total_cu: u64 = active_entry.start_cu.saturating_sub(current_cu);
            let heap: Option<HeapMetrics> = match active_entry.start_heap {
                Some(start_heap_value) => {
                    if with_heap {
                        Some(
                            HeapMetrics {
                                start_heap: start_heap_value,
                                end_heap: heap_value,
                                total_heap: heap_value.saturating_sub(start_heap_value),
                                net_heap: 0,
                                remaining_heap: HEAP_CAPACITY.saturating_sub(start_heap_value),
                            },
                        )
                    } else {
                        None
                    }
                },
                None => None,
            };
            let completed_entry = CompletedEntry {
                id: active_entry.id,
                start_cu: active_entry.start_cu,
                end_cu: current_cu,
                start_sequence: active_entry.start_sequence,
                end_sequence: self.next_sequence,
                total_cu,
                net_cu: 0,
                remaining_cu: active_entry.start_cu,
                heap,
            };
            self.completed.push(completed_entry);
            self.next_sequence = self.next_sequence + 1;
            proof {
                assert(self@.active =~= pre.active.remove(j));
                assert(completed_entry@ =~= completed_of(
                    pre.active[j],
                    pre.next_sequence,
                    current_cu,
                    heap_value,
                    with_heap,
                ));
                assert(self@.completed =~= pre.completed.push(
                    completed_of(pre.active[j], pre.next_sequence, current_cu, heap_value, with_heap),
                ));
                assert(end_step(pre, self@, j, id@, current_cu, heap_value, with_heap));
                if pre.wf() {
                    assert forall|a: int|
                        0 <= a < self@.active.len() implies (#[trigger] self@.active[a]).start_sequence
                        < self@.next_sequence by {
                        let src: int = if a < j {
                            a
                        } else {
                            a + 1
                        };
                        assert(self@.active[a] == pre.active[src]);
                        assert(pre.active[src].start_sequence < pre.next_sequence);
                    }
                    assert forall|a: int, b: int|
                        #![trigger self@.active[a], self@.active[b]]
                        0 <= a < b < self@.active.len() implies self@.active[a].start_sequence
                        < self@.active[b].start_sequence by {
                        let sa: int = if a < j {
                            a
                        } else {
                            a + 1
                        };
                        let sb: int = if b < j {
                            b
                        } else {
                            b + 1
                        };
                        assert(self@.active[a] == pre.active[sa]);
                        assert(self@.active[b] == pre.active[sb]);
                        assert(pre.active[sa].start_sequence < pre.active[sb].start_sequence);
                    }
                    assert forall|a: int|
                        0 <= a < self@.completed.len() implies (#[trigger] self@.completed[a]).start_sequence
                        < self@.completed[a].end_sequence && self@.completed[a].end_sequence
                        < self@.next_sequence by {
                        if a < pre.completed.len() {
                            assert(self@.completed[a] == pre.completed[a]);
                            assert(pre.completed[a].start_sequence < pre.completed[a].end_sequence);
                            assert(pre.completed[a].end_sequence < pre.next_sequence);
                        } else {
                            assert(self@.completed[a] == completed_of(
                                pre.active[j],
                                pre.next_sequence,
                                current_cu,
                                heap_value,
                                with_heap,
                            ));
                            assert(pre.active[j].start_sequence < pre.next_sequence);
                        }
                    }
                    assert(self@.wf());
                }
            }
            Ok(())
        } else {
            let mut message: String = "No active profiling section found for ID: ".to_owned();
            message.append(id);
            proof {
                assert(!has_open(old(self)@.active, id@));
            }
            Err(message)
        }
    }

    /// Fill the net fields of every completed section: net compute is total
    /// minus the totals of the sections strictly sequence-contained in it,
    /// clamped at zero, and likewise for heap on the sections carrying heap
    /// metrics. Reads only totals and sequence numbers, so repeating the call
    /// reproduces the same values.
    pub fn post_process(&mut self)
        ensures
            final(self)@.active == old(self)@.active,
            final(self)@.next_sequence == old(self)@.next_sequence,
            final(self)@.completed == processed_log(old(self)@.completed),
            old(self)@.wf() ==> final(self)@.wf(),
    {
        let ghost s0 = self@.completed;
        let n: usize = self.completed.len();
        let mut out: Vec<CompletedEntry> = Vec::new();
        let mut i: usize = 0;
        while i < n
            invariant
                i <= n,
                *self == *old(self),
                n == self.completed.len(),
                s0 == self@.completed,
                out@.len() == i,
                forall|q: int| #![auto] 0 <= q < i ==> out@[q]@ == processed_entry(s0, s0[q]),
            decreases n - i,
        {
            let p_start: usize = self.completed[i].start_sequence;
            let p_end: usize = self.completed[i].end_sequence;
            let mut children_cu: u64 = 0;
            let mut children_heap: u64 = 0;
            let mut j: usize = 0;
            proof {
                assert(s0.take(0) =~= Seq::<CompletedModel>::empty());
            }
            while j < n
                invariant
                    j <= n,
                    i < n,
                    *self == *old(self),
                    n == self.completed.len(),
                    s0 == self@.completed,
                    p_start == s0[i as int].start_sequence,
                    p_end == s0[i as int].end_sequence,
                    children_cu as int == cap_u64(
                        children_total_cu(s0.take(j as int), s0[i as int]),
                    ),
                    children_heap as int == cap_u64(
                        children_total_heap(s0.take(j as int), s0[i as int]),
                    ),
                decreases n - j,
            {
                proof {
                    lemma_children_sums_take_step(s0, s0[i as int], j as int);
                }
                let other = &self.completed[j];
                if other.start_sequence > p_start && other.end_sequence < p_end {
                    children_cu = children_cu.saturating_add(other.total_cu);
                    match &other.heap {
                        Some(h) => {
                            children_heap = children_heap.saturating_add(h.total_heap);
                        },
                        None => {},
                    }
                }
                j = j + 1;
            }
            proof {
                assert(s0.take(n as int) =~= s0);
            }
            let entry = &self.completed[i];
            let net_cu: u64 = entry.total_cu.saturating_sub(children_cu);
            let new_heap: Option<HeapMetrics> = match &entry.heap {
                Some(h) => Some(
                    HeapMetrics {
                        start_heap: h.start_heap,
                        end_heap: h.end_heap,
                        total_heap: h.total_heap,
                        net_heap: h.total_heap.saturating_sub(children_heap),
                        remaining_heap: h.remaining_heap,
                    },
                ),
                None => None,
            };
            let new_entry = CompletedEntry {
                id: entry.id.clone(),
                start_cu: entry.start_cu,
                end_cu: entry.end_cu,
                start_sequence: entry.start_sequence,
                end_sequence: entry.end_sequence,
                total_cu: entry.total_cu,
                net_cu,
                remaining_cu: entry.remaining_cu,
                heap: new_heap,
            };
            proof {
                assert(new_entry@ =~= processed_entry(s0, s0[i as int]));
            }
            out.push(new_entry);
            i = i + 1;
        }
        self.completed = out;
        proof {
            assert(self@.completed =~= processed_log(s0));
            if old(self)@.wf() {
                let pre = old(self)@;
                assert forall|a: int|
                    0 <= a < self@.completed.len() implies (#[trigger] self@.completed[a]).start_sequence
                    < self@.completed[a].end_sequence && self@.completed[a].end_sequence
                    < self@.next_sequence by {
                    assert(self@.completed[a] == processed_entry(s0, s0[a]));
                    assert(pre.completed[a].start_sequence < pre.completed[a].end_sequence);
                    assert(pre.completed[a].end_sequence < pre.next_sequence);
                }
                assert(self@.wf());
            }
        }
    }

    /// The completed sections, in completion order.
    pub fn get_completed(&self) -> (r: &[CompletedEntry])
        ensures
            r@.len() == self@.completed.len(),
            forall|i: int| #![auto] 0 <= i < r@.len() ==> r@[i]@ == self@.completed[i],
    {
        self.completed.as_slice()
    }

    /// The still-open sections, bottom of the stack first.
    pub fn get_active(&self) -> (r: &[ActiveEntry])
        ensures
            r@.len() == self@.active.len(),
            forall|i: int| #![auto] 0 <= i < r@.len() ==> r@[i]@ == self@.active[i],
    {
        self.active_stack.as_slice()
    }

    /// Drop every recorded section and restart the event counter. The sole
    /// way a new session begins.
    pub fn clear(&mut self)
        ensures
            final(self)@.active.len() == 0,
            final(self)@.completed.len() == 0,
            final(self)@.next_sequence == 0,
            final(self)@.wf(),
    {
        self.active_stack.clear();
        self.completed.clear();
        self.next_sequence = 0;
    }

    /// Whether any section remains open.
    pub fn has_active(&self) -> (r: bool)
        ensures
            r == (self@.active.len() != 0),
    {
        !self.active_stack.is_empty()
    }

    /// How many sections have completed.
    pub fn completed_count(&self) -> (r: usize)
        ensures
            r == self@.completed.len(),
    {
        self.completed.len()
    }

    /// The event number the next recorded start or end will receive.
    pub fn next_sequence(&self) -> (r: usize)
        ensures
            r == self@.next_sequence,
    {
        self.next_sequence
    }
}

} // verus!
