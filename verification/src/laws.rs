use vstd::prelude::*;

use crate::model::ActiveModel;
use crate::model::CompletedModel;
use crate::model::children_total_cu;
use crate::model::children_total_heap;
use crate::model::clamp_sub;
use crate::model::completed_of;
use crate::model::heap_contribution;
use crate::model::is_child;
use crate::model::is_last_match;
use crate::model::processed_entry;
use crate::model::processed_log;

verus! {

/// The fields of a completed entry that net computation reads: totals and
/// sequence numbers, never the net fields it writes.
pub open spec fn accounting_inputs_eq(a: CompletedModel, b: CompletedModel) -> bool {
    &&& a.total_cu == b.total_cu
    &&& a.start_sequence == b.start_sequence
    &&& a.end_sequence == b.end_sequence
    &&& heap_contribution(a) == heap_contribution(b)
}

/// The children sums depend only on the accounting inputs of the log and of
/// the parent.
proof fn lemma_children_sums_congruent(
    s1: Seq<CompletedModel>,
    s2: Seq<CompletedModel>,
    p1: CompletedModel,
    p2: CompletedModel,
)
    requires
        s1.len() == s2.len(),
        forall|i: int| 0 <= i < s1.len() ==> accounting_inputs_eq(#[trigger] s1[i], s2[i]),
        accounting_inputs_eq(p1, p2),
    ensures
        children_total_cu(s1, p1) == children_total_cu(s2, p2),
        children_total_heap(s1, p1) == children_total_heap(s2, p2),
    decreases s1.len(),
{
    if s1.len() > 0 {
        assert(forall|i: int|
            0 <= i < s1.drop_last().len() ==> accounting_inputs_eq(
                #[trigger] s1.drop_last()[i],
                s2.drop_last()[i],
            ));
        lemma_children_sums_congruent(s1.drop_last(), s2.drop_last(), p1, p2);
        assert(accounting_inputs_eq(s1.last(), s2.last()));
    }
}

/// A parent with no children in the log has children sums of zero.
proof fn lemma_children_sums_zero(s: Seq<CompletedModel>, p: CompletedModel)
    requires
        forall|j: int| 0 <= j < s.len() ==> !is_child(#[trigger] s[j], p),
    ensures
        children_total_cu(s, p) == 0,
        children_total_heap(s, p) == 0,
    decreases s.len(),
{
    if s.len() > 0 {
        assert(forall|j: int|
            0 <= j < s.drop_last().len() ==> !is_child(#[trigger] s.drop_last()[j], p));
        lemma_children_sums_zero(s.drop_last(), p);
        assert(!is_child(s.last(), p));
    }
}

/// Net computation never drops below zero: a parent's net is its total minus
/// its children's totals, clamped at zero, and likewise for heap.
pub proof fn lemma_net_is_total_minus_children(s: Seq<CompletedModel>, i: int)
    requires
        0 <= i < s.len(),
    ensures
        processed_log(s)[i].net_cu == clamp_sub(s[i].total_cu, children_total_cu(s, s[i])),
        s[i].heap is Some ==> processed_log(s)[i].heap is Some && processed_log(s)[i].heap->0.net_heap
            == clamp_sub(s[i].heap->0.total_heap, children_total_heap(s, s[i])),
{
}

/// Sections that are not nested keep their whole totals as their nets: an
/// entry that no other entry is sequence-contained in — a sibling, even a
/// time-overlapping one — has net equal to total after processing.
pub proof fn lemma_sibling_net_equals_total(s: Seq<CompletedModel>, i: int)
    requires
        0 <= i < s.len(),
        forall|j: int| 0 <= j < s.len() ==> !is_child(#[trigger] s[j], s[i]),
    ensures
        processed_log(s)[i].net_cu == s[i].total_cu,
        s[i].heap is Some ==> processed_log(s)[i].heap->0.net_heap == s[i].heap->0.total_heap,
{
    lemma_children_sums_zero(s, s[i]);
}

/// LIFO matching is deterministic: at most one stack position is the most
/// recent open section with a given id.
pub proof fn lemma_lifo_match_unique(active: Seq<ActiveModel>, id: Seq<char>, j1: int, j2: int)
    requires
        is_last_match(active, id, j1),
        is_last_match(active, id, j2),
    ensures
        j1 == j2,
{
}

/// LIFO matching: every open section with the id sits at or below the
/// matched position, so reopening an id and closing it twice pairs the
/// second open with the first close.
pub proof fn lemma_reentry_matches_most_recent(
    active: Seq<ActiveModel>,
    id: Seq<char>,
    j: int,
    k: int,
)
    requires
        is_last_match(active, id, j),
        0 <= k < active.len(),
        active[k].id == id,
    ensures
        k <= j,
{
}

/// Heap metrics are present on a completed entry exactly when heap
/// accounting was requested at both its open and its close; a single-sided
/// request yields none.
pub proof fn lemma_heap_iff_both_sides(
    a: ActiveModel,
    end_sequence: nat,
    end_cu: u64,
    heap_value: u64,
    with_heap: bool,
)
    ensures
        completed_of(a, end_sequence, end_cu, heap_value, with_heap).heap is Some <==> (
        a.start_heap is Some && with_heap),
{
}

/// Processing changes no accounting input of any entry.
proof fn lemma_processed_keeps_inputs(s: Seq<CompletedModel>, i: int)
    requires
        0 <= i < s.len(),
    ensures
        accounting_inputs_eq(processed_log(s)[i], s[i]),
{
}

/// Post-processing is idempotent: net computation reads only totals and
/// sequence numbers, which it never writes, so processing a processed log
/// reproduces it exactly.
pub proof fn lemma_post_process_idempotent(s: Seq<CompletedModel>)
    ensures
        processed_log(processed_log(s)) == processed_log(s),
{
    let ps = processed_log(s);
    assert forall|i: int| 0 <= i < ps.len() implies processed_log(ps)[i] == ps[i] by {
        assert forall|k: int| 0 <= k < ps.len() implies accounting_inputs_eq(
            #[trigger] ps[k],
            s[k],
        ) by {
            lemma_processed_keeps_inputs(s, k);
        }
        lemma_processed_keeps_inputs(s, i);
        lemma_children_sums_congruent(ps, s, ps[i], s[i]);
        assert(processed_entry(ps, ps[i]) =~= processed_entry(s, s[i]));
    }
    assert(processed_log(ps) =~= ps);
}

} // verus!
