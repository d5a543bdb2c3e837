//! The run supervisor's decisions: what a run starts from and what it
//! leaves behind. The channel, the sleeping and the spawning of workers
//! stay outside; they call these functions around the waiting.
use vstd::prelude::*;
use crate::clock;
use crate::ordered_set::OrderedStringSet;
use crate::static_selection::StaticSelection;

verus! {

/// Snapshot what a crawl runs over: the handles of the enabled hives and
/// the search terms as entered.
pub fn prepare_run(selection: &StaticSelection) -> (r: (Vec<isize>, Vec<String>))
    requires
        selection.wf(),
    ensures
        r.0@ == selection.selected_roots.spec_export(),
        r.1@.len() == selection.search_term_tracker.search_terms@.len(),
        forall|i: int|
            0 <= i < r.1@.len() ==> (#[trigger] r.1@[i])@
                == selection.search_term_tracker.search_terms@[i],
{
    let roots = selection.selected_roots.export_roots();
    let n = selection.search_term_tracker.search_terms.len();
    let mut terms: Vec<String> = Vec::new();
    let mut i: usize = 0;
    while i < n
        invariant
            n == selection.search_term_tracker.search_terms@.len(),
            i <= n,
            terms@.len() == i,
            forall|k: int|
                0 <= k < i ==> (#[trigger] terms@[k])@
                    == selection.search_term_tracker.search_terms@[k],
        decreases n - i,
    {
        terms.push(selection.search_term_tracker.search_terms.get(i).clone());
        i = i + 1;
    }
    (roots, terms)
}

/// Close out a finished crawl at `end_time`: publish the engine's results,
/// clear the stop request, clear the running and control-disabled flags,
/// and stamp the timer's end instant.
pub fn finish_run_at(selection: &mut StaticSelection, results: OrderedStringSet, end_time: u64)
    requires
        old(selection).wf(),
        results.wf(),
    ensures
        final(selection).wf(),
        final(selection).results == results,
        !final(selection).stop,
        !final(selection).running,
        !final(selection).run_control_temporarily_disabled,
        (match old(selection).timer {
            Some((start, _)) => final(selection).timer == Some((start, Some(end_time))),
            None => final(selection).timer is None,
        }),
        *final(selection) == (StaticSelection {
            results: final(selection).results,
            stop: false,
            running: false,
            run_control_temporarily_disabled: false,
            timer: final(selection).timer,
            ..*old(selection)
        }),
{
    selection.stop = false;
    match selection.timer {
        Some((start, _)) => {
            selection.timer = Some((start, Some(end_time)));
        },
        None => {},
    }
    selection.running = false;
    selection.run_control_temporarily_disabled = false;
    selection.results = results;
}

/// Close out a finished crawl at the present moment.
pub fn finish_run(selection: &mut StaticSelection, results: OrderedStringSet)
    requires
        old(selection).wf(),
        results.wf(),
    ensures
        final(selection).wf(),
        final(selection).results == results,
        !final(selection).stop,
        !final(selection).running,
        !final(selection).run_control_temporarily_disabled,
        (old(selection).timer is Some ==> final(selection).timer is Some
            && (final(selection).timer->0).0 == (old(selection).timer->0).0
            && (final(selection).timer->0).1 is Some),
        (old(selection).timer is None ==> final(selection).timer is None),
{
    let now = clock::now_millis();
    finish_run_at(selection, results, now);
}

} // verus!
