//! The library's cross-cutting guarantees, stated and proved once: set
//! semantics of the result and term sets, the round trips of the editor
//! and the hive selection, the debounce window, and quiescence.
use vstd::prelude::*;
use crate::ordered_set::{
    insert_post, lemma_sorted_same_members, mem_str, remove_post, sorted_strs,
};
use crate::search_term_tracker::{debounce_elapsed, SearchTermTracker};
use crate::worker_manager::{
    ok_items, spec_results_emitted, spec_value_hits, SubkeyListing, WorkerManager,
};
use crate::root::Root;
use crate::DEBOUNCE;

verus! {

/// The search-term set is strictly ordered at every observable moment:
/// well-formedness of the tracker is exactly strict sortedness of the
/// stored terms, and every mutator keeps it.
pub proof fn lemma_terms_strictly_sorted(t: SearchTermTracker)
    requires
        t.wf(),
    ensures
        sorted_strs(t.search_terms@),
{
}

/// Results are a set: inserting a member again changes nothing.
pub proof fn lemma_insert_member_is_identity(pre: Seq<Seq<char>>, post: Seq<Seq<char>>, x: Seq<
    char,
>)
    requires
        sorted_strs(pre),
        mem_str(pre, x),
        insert_post(pre, post, x),
    ensures
        post == pre,
{
    assert forall|y: Seq<char>| #[trigger] mem_str(post, y) <==> mem_str(pre, y) by {}
    lemma_sorted_same_members(post, pre);
}

/// Results are a set: two insertions leave the same observable state in
/// whichever order they happen.
pub proof fn lemma_insert_order_irrelevant(
    s: Seq<Seq<char>>,
    s_a: Seq<Seq<char>>,
    s_ab: Seq<Seq<char>>,
    s_b: Seq<Seq<char>>,
    s_ba: Seq<Seq<char>>,
    a: Seq<char>,
    b: Seq<char>,
)
    requires
        sorted_strs(s),
        insert_post(s, s_a, a),
        insert_post(s_a, s_ab, b),
        insert_post(s, s_b, b),
        insert_post(s_b, s_ba, a),
    ensures
        s_ab == s_ba,
{
    assert forall|y: Seq<char>| #[trigger] mem_str(s_ab, y) <==> mem_str(s_ba, y) by {
        assert(mem_str(s_ab, y) <==> mem_str(s_a, y) || y == b);
        assert(mem_str(s_ba, y) <==> mem_str(s_b, y) || y == a);
    }
    lemma_sorted_same_members(s_ab, s_ba);
}

/// Adding a fresh term and then removing it returns the set to its prior
/// contents.
pub proof fn lemma_add_then_remove_restores(
    pre: Seq<Seq<char>>,
    mid: Seq<Seq<char>>,
    post: Seq<Seq<char>>,
    x: Seq<char>,
)
    requires
        sorted_strs(pre),
        !mem_str(pre, x),
        insert_post(pre, mid, x),
        remove_post(mid, post, x),
    ensures
        post == pre,
{
    assert forall|y: Seq<char>| #[trigger] mem_str(post, y) <==> mem_str(pre, y) by {
        assert(mem_str(post, y) <==> mem_str(mid, y) && y != x);
        assert(mem_str(mid, y) <==> mem_str(pre, y) || y == x);
    }
    lemma_sorted_same_members(post, pre);
}

/// Cursor movement over no terms is a no-op, and over one term leaves the
/// cursor where it was: the move is the identity modulo the debounce
/// clock.
pub proof fn lemma_cursor_move_small_sets(t: SearchTermTracker, now: u64)
    requires
        t.wf(),
    ensures
        t.search_terms@.len() == 0 ==> t.spec_up(now) == t && t.spec_down(now) == t,
        t.search_terms@.len() == 1 ==> t.spec_up(now).search_term_selected
            == t.search_term_selected && t.spec_up(now).search_terms == t.search_terms,
        t.search_terms@.len() == 1 ==> t.spec_down(now).search_term_selected
            == t.search_term_selected && t.spec_down(now).search_terms == t.search_terms,
{
}

/// The debounce window: a second move within the window is rejected
/// outright, and the first move at or past the window's end is accepted.
pub proof fn lemma_debounce_window(t: SearchTermTracker, t1: u64, t2: u64, t3: u64)
    requires
        t.wf(),
        t.search_terms@.len() > 0,
        debounce_elapsed(t.search_term_last_changed, t1),
        t2 < t1 + DEBOUNCE,
        t3 >= t1 + DEBOUNCE,
    ensures
        t.spec_up(t1).search_term_last_changed == t1,
        t.spec_up(t1).spec_up(t2) == t.spec_up(t1),
        t.spec_up(t1).spec_up(t3).search_term_last_changed == t3,
{
}

/// Quiescence with zero work: when the queue is empty and every worker
/// waits, the engine is quiescent, so the supervisor's first poll ends the
/// crawl; a worker popping from the empty queue gets nothing to do.
pub proof fn lemma_empty_queue_quiesces(e: WorkerManager)
    requires
        e.key_queue@.len() == 0,
        e.threads_waiting_for_work == e.threads,
    ensures
        e.spec_quiescent(),
{
}

/// Everything a processed item adds to results matches: it is either the
/// key's line, with a term in the path's lowercased form, or the line of
/// an enumerated value whose name or rendered data a term matches.
pub proof fn lemma_results_only_matches(
    terms: Seq<Seq<char>>,
    root: Root,
    path: Seq<char>,
    outcome: Result<SubkeyListing, String>,
    pre: Seq<Seq<char>>,
    post: Seq<Seq<char>>,
    y: Seq<char>,
)
    requires
        forall|z: Seq<char>|
            #[trigger] mem_str(post, z) <==> mem_str(pre, z) || spec_results_emitted(
                terms,
                root,
                path,
                outcome,
                z,
            ),
        mem_str(post, y),
        !mem_str(pre, y),
    ensures
        (crate::worker_manager::spec_any_match(terms, path) && y
            == crate::worker_manager::spec_key_line(root, path)) || (
        outcome matches Ok(listing) && spec_value_hits(
            terms,
            root,
            path,
            ok_items(listing.values@),
            y,
        )),
{
}

} // verus!
