//! The crawl engine's state and decisions: the shared work queue, the
//! waiter count that quiescence detection rests on, term matching, and the
//! recording of results, errors and counters for each processed item.
//!
//! The platform registry calls stay outside: a worker hands the outcome of
//! one key's enumeration in as plain values, and every decision about it is
//! made here.
use vstd::prelude::*;
use std::collections::VecDeque;
use crate::ordered_set::{mem_str, OrderedStringSet};
use crate::root::Root;
use crate::strings::{contains_substring, is_substring, lower_of, lowercase};
use crate::{spec_reg_value_string, RegValue};

verus! {

/// Whether one already-lowercased term matches `s`: the lowercase form of
/// `s` contains the term.
pub open spec fn spec_term_matches(term: Seq<char>, s: Seq<char>) -> bool {
    is_substring(term, lower_of(s))
}

/// Whether any of the terms matches `s`.
pub open spec fn spec_any_match(terms: Seq<Seq<char>>, s: Seq<char>) -> bool {
    exists|i: int| 0 <= i < terms.len() && #[trigger] spec_term_matches(terms[i], s)
}

/// The entries of the Ok results, in order.
pub open spec fn ok_items<T, E>(s: Seq<Result<T, E>>) -> Seq<T>
    decreases s.len(),
{
    if s.len() == 0 {
        Seq::empty()
    } else {
        ok_items(s.drop_last()) + (match s.last() {
            Ok(t) => seq![t],
            Err(_) => Seq::<T>::empty(),
        })
    }
}

/// The outcome of enumerating one opened key: each child subkey name or
/// the error that stood for it, and each value or the error that stood
/// for it.
pub struct SubkeyListing {
    pub subkeys: Vec<Result<String, String>>,
    pub values: Vec<Result<(String, RegValue), String>>,
}

/// The line recorded for a key whose path matches.
pub open spec fn spec_key_line(root: Root, path: Seq<char>) -> Seq<char> {
    root.spec_name() + "\\"@ + path
}

/// The path of a child subkey below `path`.
pub open spec fn spec_child_path(path: Seq<char>, name: Seq<char>) -> Seq<char> {
    path + "\\"@ + name
}

/// The name a matched value is shown under: an empty name stands for the
/// key's default value.
pub open spec fn spec_value_name_shown(name: Seq<char>) -> Seq<char> {
    if name.len() == 0 {
        "(Default)"@
    } else {
        name
    }
}

/// The line recorded for a matched value.
pub open spec fn spec_value_line(root: Root, path: Seq<char>, name: Seq<char>, rv: RegValue) -> Seq<
    char,
> {
    root.spec_name() + "\\"@ + path + "\\"@ + spec_value_name_shown(name) + " = \""@
        + spec_reg_value_string(rv.vtype, rv.bytes@) + "\" ("@ + rv.vtype.spec_name() + ")"@
}

/// The diagnostic recorded when a key cannot be opened.
pub open spec fn spec_open_error_line(root: Root, path: Seq<char>, err: Seq<char>) -> Seq<char> {
    path + ": "@ + root.spec_name() + ", Key error: \""@ + err + "\""@
}

/// The diagnostic recorded when enumerating a child subkey fails.
pub open spec fn spec_subkey_error_line(path: Seq<char>, err: Seq<char>) -> Seq<char> {
    path + ", Subkey error: \""@ + err + "\""@
}

/// The diagnostic recorded when enumerating a value fails.
pub open spec fn spec_value_error_line(path: Seq<char>, err: Seq<char>) -> Seq<char> {
    path + ", Value error: \""@ + err + "\""@
}

/// What the engine may have put into results for one processed item: the
/// key's own line when its path matches, and one line for each enumerated
/// value whose name or rendered data matches.
pub open spec fn spec_results_emitted(
    terms: Seq<Seq<char>>,
    root: Root,
    path: Seq<char>,
    outcome: Result<SubkeyListing, String>,
    y: Seq<char>,
) -> bool {
    ||| (spec_any_match(terms, path) && y == spec_key_line(root, path))
    ||| (outcome matches Ok(listing) && spec_value_hits(
        terms,
        root,
        path,
        ok_items(listing.values@),
        y,
    ))
}

/// What the engine may have put into errors for one processed item: the
/// open failure, or one line per failed child or value enumeration.
pub open spec fn spec_errors_emitted(
    root: Root,
    path: Seq<char>,
    outcome: Result<SubkeyListing, String>,
    y: Seq<char>,
) -> bool {
    match outcome {
        Err(e) => y == spec_open_error_line(root, path, e@),
        Ok(listing) => {
            ||| spec_subkey_errs(path, listing.subkeys@, listing.subkeys@.len() as int, y)
            ||| spec_value_errs(path, listing.values@, listing.values@.len() as int, y)
        },
    }
}

/// What the supervisor decides on one poll.
#[derive(Clone, Copy, PartialEq, Eq, Structural, Debug)]
pub enum SupervisorStep {
    /// All workers wait and no work is queued: fire the no-work-left
    /// notification and return.
    Finish,
    /// All workers wait yet work is queued: wake them all.
    WakeWorkers,
    /// Some worker is still busy: sleep and poll again.
    Sleep,
}

/// The crawl engine: the lowercased terms, the shared work queue, the
/// count of workers blocked waiting for work, the result and diagnostic
/// sets, and the two enumeration counters.
pub struct WorkerManager {
    pub threads: usize,
    pub search_terms: Vec<String>,
    pub key_queue: VecDeque<(Root, String)>,
    pub threads_waiting_for_work: usize,
    pub results: OrderedStringSet,
    pub errors: OrderedStringSet,
    pub keys_seen: u64,
    pub values_seen: u64,
}

impl WorkerManager {
    /// The views of the stored terms, each already lowercased.
    pub open spec fn terms_view(self) -> Seq<Seq<char>> {
        self.search_terms@.map(|i: int, s: String| s@)
    }

    /// The engine's invariant: the sets are well formed and no more
    /// workers wait than exist.
    pub open spec fn wf(self) -> bool {
        &&& self.results.wf()
        &&& self.errors.wf()
        &&& self.threads_waiting_for_work <= self.threads
    }

    /// Whether all workers wait on an empty queue: the quiescence
    /// condition.
    pub open spec fn spec_quiescent(self) -> bool {
        self.threads_waiting_for_work == self.threads && self.key_queue@.len() == 0
    }

    /// A fresh engine over `results`: every term lowercased once, the
    /// queue empty, nobody waiting, the counters at zero.
    pub fn new(search_terms: Vec<String>, threads_to_use: usize, results: OrderedStringSet) -> (r:
        WorkerManager)
        requires
            results.wf(),
        ensures
            r.wf(),
            r.threads == threads_to_use,
            r.search_terms@.len() == search_terms@.len(),
            forall|i: int|
                0 <= i < search_terms@.len() ==> r.terms_view()[i] == lower_of(
                    #[trigger] search_terms@[i]@,
                ),
            r.key_queue@.len() == 0,
            r.threads_waiting_for_work == 0,
            r.results == results,
            r.errors@.len() == 0,
            r.keys_seen == 0,
            r.values_seen == 0,
    {
        let mut lowered: Vec<String> = Vec::new();
        let n = search_terms.len();
        let mut i: usize = 0;
        while i < n
            invariant
                n == search_terms@.len(),
                i <= n,
                lowered@.len() == i,
                forall|k: int|
                    0 <= k < i ==> (#[trigger] lowered@[k])@ == lower_of(search_terms@[k]@),
            decreases n - i,
        {
            lowered.push(lowercase(search_terms[i].as_str()));
            i = i + 1;
        }
        WorkerManager {
            threads: threads_to_use,
            search_terms: lowered,
            key_queue: VecDeque::new(),
            threads_waiting_for_work: 0,
            results,
            errors: OrderedStringSet::new(),
            keys_seen: 0,
            values_seen: 0,
        }
    }


    /// Decide whether the engine's invariant holds of this value.
    pub fn is_well_formed(&self) -> (r: bool)
        ensures
            r == self.wf(),
    {
        self.results.check_sorted() && self.errors.check_sorted()
            && self.threads_waiting_for_work <= self.threads
    }

    /// Whether any term matches `string`.
    pub fn string_matches(&self, string: &str) -> (r: bool)
        ensures
            r == spec_any_match(self.terms_view(), string@),
    {
        let lowered = lowercase(string);
        let n = self.search_terms.len();
        let mut i: usize = 0;
        while i < n
            invariant
                n == self.search_terms@.len(),
                i <= n,
                lowered@ == lower_of(string@),
                forall|j: int| 0 <= j < i ==> !spec_term_matches(#[trigger] self.terms_view()[j], string@),
            decreases n - i,
        {
            if contains_substring(lowered.as_str(), self.search_terms[i].as_str()) {
                proof {
                    assert(spec_term_matches(self.terms_view()[i as int], string@));
                }
                return true;
            }
            i = i + 1;
        }
        false
    }

    /// Whether any term matches `string` or `string2`.
    pub fn any_string_matches(&self, string: &str, string2: &str) -> (r: bool)
        ensures
            r == (spec_any_match(self.terms_view(), string@) || spec_any_match(
                self.terms_view(),
                string2@,
            )),
    {
        let first = self.string_matches(string);
        if first {
            true
        } else {
            self.string_matches(string2)
        }
    }

    /// Append work items to the back of the queue, in order.
    pub fn feed_queue(&mut self, keys: Vec<(Root, String)>)
        ensures
            final(self).key_queue@ == old(self).key_queue@ + keys@,
            *final(self) == (WorkerManager { key_queue: final(self).key_queue, ..*old(self) }),
    {
        let ghost pre = self.key_queue@;
        let ghost all = keys@;
        let mut keys = keys;
        let total: usize = keys.len();
        let mut moved: usize = 0;
        while keys.len() > 0
            invariant
                all.len() == total,
                moved + keys@.len() == all.len(),
                keys@ == all.skip(moved as int),
                self.key_queue@ == pre + all.take(moved as int),
                *self == (WorkerManager { key_queue: self.key_queue, ..*old(self) }),
            decreases keys@.len(),
        {
            let item = keys.remove(0);
            proof {
                assert(all.skip(moved as int).drop_first() =~= all.skip(moved + 1));
                assert(item == all[moved as int]);
            }
            self.key_queue.push_back(item);
            proof {
                assert(pre + all.take(moved as int) + seq![all[moved as int]] =~= pre + all.take(
                    moved + 1,
                ));
            }
            moved = moved + 1;
        }
        proof {
            assert(all.take(moved as int) =~= all);
        }
    }

    /// Take the item at the front of the queue, if there is one.
    pub fn get_work(&mut self) -> (r: Option<(Root, String)>)
        ensures
            *final(self) == (WorkerManager { key_queue: final(self).key_queue, ..*old(self) }),
            match r {
                Some(item) => old(self).key_queue@.len() > 0 && item == old(self).key_queue@[0]
                    && final(self).key_queue@ == old(self).key_queue@.drop_first(),
                None => old(self).key_queue@.len() == 0 && final(self).key_queue@ == old(
                    self,
                ).key_queue@,
            },
    {
        self.key_queue.pop_front()
    }

    /// A worker found the queue empty and is about to block: count it as
    /// a waiter.
    pub fn begin_wait(&mut self)
        requires
            old(self).threads_waiting_for_work < old(self).threads,
        ensures
            final(self).threads_waiting_for_work == old(self).threads_waiting_for_work + 1,
            *final(self) == (WorkerManager {
                threads_waiting_for_work: final(self).threads_waiting_for_work,
                ..*old(self)
            }),
    {
        self.threads_waiting_for_work = self.threads_waiting_for_work + 1;
    }

    /// A woken worker returns to popping work: it no longer counts as a
    /// waiter.
    pub fn end_wait(&mut self)
        requires
            old(self).threads_waiting_for_work > 0,
        ensures
            final(self).threads_waiting_for_work == old(self).threads_waiting_for_work - 1,
            *final(self) == (WorkerManager {
                threads_waiting_for_work: final(self).threads_waiting_for_work,
                ..*old(self)
            }),
    {
        self.threads_waiting_for_work = self.threads_waiting_for_work - 1;
    }

    /// Whether all workers wait on an empty queue.
    pub fn quiescent(&self) -> (r: bool)
        ensures
            r == self.spec_quiescent(),
    {
        self.threads_waiting_for_work == self.threads && self.key_queue.len() == 0
    }

    /// The supervisor's decision on one poll: finish exactly when all
    /// workers wait and the queue is empty; wake them all when they all
    /// wait over a non-empty queue; otherwise sleep and poll again.
    pub fn supervisor_step(&self) -> (r: SupervisorStep)
        ensures
            (r is Finish) == self.spec_quiescent(),
            (r is WakeWorkers) == (self.threads_waiting_for_work == self.threads
                && self.key_queue@.len() > 0),
            (r is Sleep) == (self.threads_waiting_for_work != self.threads),
    {
        if self.threads_waiting_for_work == self.threads {
            if self.key_queue.len() == 0 {
                SupervisorStep::Finish
            } else {
                SupervisorStep::WakeWorkers
            }
        } else {
            SupervisorStep::Sleep
        }
    }

    /// Process one popped work item against the outcome of its registry
    /// enumeration: record the key's line when its path matches, push each
    /// enumerated child onto the queue, count every successful callback,
    /// record each matched value, and record every error.
    #[verifier::loop_isolation(false)]
    #[verifier::rlimit(100)]
    #[verifier::spinoff_prover]
    pub fn process_work_item(
        &mut self,
        root: Root,
        key_path: String,
        outcome: Result<SubkeyListing, String>,
    )
        requires
            old(self).wf(),
            (outcome matches Ok(l) ==> old(self).keys_seen + l.subkeys@.len() <= u64::MAX
                && old(self).values_seen + l.values@.len() <= u64::MAX),
        ensures
            final(self).wf(),
            final(self).threads == old(self).threads,
            final(self).search_terms == old(self).search_terms,
            final(self).threads_waiting_for_work == old(self).threads_waiting_for_work,
            final(self).keys_seen == old(self).keys_seen + (match outcome {
                Ok(l) => ok_items(l.subkeys@).len(),
                Err(_) => 0,
            }),
            final(self).values_seen == old(self).values_seen + (match outcome {
                Ok(l) => ok_items(l.values@).len(),
                Err(_) => 0,
            }),
            final(self).key_queue@.len() == old(self).key_queue@.len() + (match outcome {
                Ok(l) => ok_items(l.subkeys@).len(),
                Err(_) => 0,
            }),
            forall|i: int|
                0 <= i < old(self).key_queue@.len() ==> final(self).key_queue@[i] == old(
                    self,
                ).key_queue@[i],
            (outcome matches Ok(l) ==> forall|m: int|
                0 <= m < ok_items(l.subkeys@).len() ==> {
                    let e = #[trigger] final(self).key_queue@[old(self).key_queue@.len() + m];
                    e.0 == root && e.1@ == spec_child_path(key_path@, ok_items(l.subkeys@)[m]@)
                }),
            forall|y: Seq<char>|
                #[trigger] mem_str(final(self).results@, y) <==> mem_str(old(self).results@, y)
                    || spec_results_emitted(old(self).terms_view(), root, key_path@, outcome, y),
            forall|y: Seq<char>|
                #[trigger] mem_str(final(self).errors@, y) <==> mem_str(old(self).errors@, y)
                    || spec_errors_emitted(root, key_path@, outcome, y),
    {
        let ghost tv = old(self).terms_view();
        let ghost results0 = old(self).results@;
        let ghost errors0 = old(self).errors@;
        let ghost queue0 = old(self).key_queue@;
        let ghost path = key_path@;
        let path_matched = self.string_matches(key_path.as_str());
        if path_matched {
            let line = key_line(root, key_path.as_str());
            self.results.insert(line);
        }
        let ghost results_a = self.results@;
        proof {
            assert forall|y: Seq<char>| #[trigger] mem_str(results_a, y) <==> (mem_str(
                results0,
                y,
            ) || (spec_any_match(tv, path) && y == spec_key_line(root, path))) by {}
        }
        match outcome {
            Err(err) => {
                let line = open_error_line(root, key_path.as_str(), err.as_str());
                self.errors.insert(line);
            },
            Ok(listing) => {
                let SubkeyListing { subkeys, values } = listing;
                let ghost subs = subkeys@;
                let ghost vals = values@;
                let ghost keys0 = old(self).keys_seen;
                let ghost vals0 = old(self).values_seen;
                let sn = subkeys.len();
                let mut k: usize = 0;
                while k < sn
                    invariant
                        sn == subs.len(),
                        k <= sn,
                        subkeys@ == subs,
                        keys0 + subs.len() <= u64::MAX,
                        self.threads == old(self).threads,
                        self.search_terms == old(self).search_terms,
                        self.threads_waiting_for_work == old(self).threads_waiting_for_work,
                        self.values_seen == vals0,
                        self.results@ == results_a,
                        self.results.wf(),
                        self.errors.wf(),
                        self.keys_seen == keys0 + ok_items(subs.take(k as int)).len(),
                        self.key_queue@.len() == queue0.len() + ok_items(
                            subs.take(k as int),
                        ).len(),
                        forall|i: int|
                            0 <= i < queue0.len() ==> self.key_queue@[i] == queue0[i],
                        forall|m: int|
                            0 <= m < ok_items(subs.take(k as int)).len() ==> {
                                let e = #[trigger] self.key_queue@[queue0.len() + m];
                                e.0 == root && e.1@ == spec_child_path(
                                    path,
                                    ok_items(subs.take(k as int))[m]@,
                                )
                            },
                        forall|y: Seq<char>|
                            #[trigger] mem_str(self.errors@, y) <==> mem_str(errors0, y)
                                || spec_subkey_errs(path, subs, k as int, y),
                    decreases sn - k,
                {
                    let ghost entries_pre = ok_items(subs.take(k as int));
                    let ghost errors_pre = self.errors@;
                    let ghost queue_pre = self.key_queue@;
                    proof {
                        lemma_ok_items_len::<String, String>(subs.take(k as int));
                        lemma_ok_items_step(subs, k as int);
                        assert forall|y: Seq<char>| #[trigger] mem_str(errors_pre, y) <==> (
                        mem_str(errors0, y) || spec_subkey_errs(path, subs, k as int, y)) by {
                            assert(mem_str(self.errors@, y) <==> mem_str(errors0, y)
                                || spec_subkey_errs(path, subs, k as int, y));
                        }
                        assert forall|m: int| 0 <= m < entries_pre.len() implies {
                            let e = #[trigger] queue_pre[queue0.len() + m];
                            e.0 == root && e.1@ == spec_child_path(path, entries_pre[m]@)
                        } by {
                            let e2 = self.key_queue@[queue0.len() + m];
                            assert(e2.0 == root && e2.1@ == spec_child_path(
                                path,
                                ok_items(subs.take(k as int))[m]@,
                            ));
                        }
                        assert forall|i: int| 0 <= i < queue0.len() implies #[trigger] queue_pre[i]
                            == queue0[i] by {
                            assert(self.key_queue@[i] == queue0[i]);
                        }
                    }
                    match &subkeys[k] {
                        Ok(name) => {
                            self.keys_seen = self.keys_seen + 1;
                            let child = child_path(key_path.as_str(), name.as_str());
                            let ghost gchild = child@;
                            proof {
                                assert(gchild == spec_child_path(path, subs[k as int]->Ok_0@));
                            }
                            self.key_queue.push_back((root, child));
                            proof {
                                let entry = subs[k as int]->Ok_0;
                                assert(ok_items(subs.take(k + 1)) =~= entries_pre.push(entry));
                                assert(self.key_queue@.len() == queue_pre.len() + 1);
                                assert(forall|i: int|
                                    0 <= i < queue_pre.len() ==> #[trigger] self.key_queue@[i]
                                        == queue_pre[i]);
                                assert(self.key_queue@[queue_pre.len() as int].0 == root);
                                assert(self.key_queue@[queue_pre.len() as int].1@ == gchild);
                                assert forall|m: int|
                                    0 <= m < ok_items(subs.take(k + 1)).len() implies {
                                    let e = #[trigger] self.key_queue@[queue0.len() + m];
                                    e.0 == root && e.1@ == spec_child_path(
                                        path,
                                        ok_items(subs.take(k + 1))[m]@,
                                    )
                                } by {
                                    if m < entries_pre.len() {
                                        assert(self.key_queue@[queue0.len() + m]
                                            == queue_pre[queue0.len() + m]);
                                        assert(ok_items(subs.take(k + 1))[m] == entries_pre[m]);
                                    } else {
                                        assert(m == entries_pre.len());
                                        assert(queue0.len() + m == queue_pre.len());
                                        assert(ok_items(subs.take(k + 1))[m] == entry);
                                    }
                                }
                                assert forall|i: int|
                                    0 <= i < queue0.len() implies #[trigger] self.key_queue@[i]
                                    == queue0[i] by {
                                    assert(self.key_queue@[i] == queue_pre[i]);
                                }
                                assert forall|y: Seq<char>|
                                    spec_subkey_errs(path, subs, k + 1, y) <==> spec_subkey_errs(
                                    path,
                                    subs,
                                    k as int,
                                    y,
                                ) by {
                                    if spec_subkey_errs(path, subs, k + 1, y) {
                                        let j = choose|j: int|
                                            0 <= j < k + 1 && j < subs.len() && (#[trigger] subs[j]) is Err
                                                && y == spec_subkey_error_line(
                                                path,
                                                subs[j]->Err_0@,
                                            );
                                        if j < k {
                                            assert(spec_subkey_errs(path, subs, k as int, y));
                                        }
                                    }
                                }
                            }
                        },
                        Err(e) => {
                            let line = subkey_error_line(key_path.as_str(), e.as_str());
                            self.errors.insert(line);
                            proof {
                                assert(e@ == subs[k as int]->Err_0@);
                                assert(ok_items(subs.take(k + 1)) =~= entries_pre);
                                assert forall|y: Seq<char>| #[trigger] mem_str(self.errors@, y)
                                    <==> (mem_str(errors0, y) || spec_subkey_errs(
                                    path,
                                    subs,
                                    k + 1,
                                    y,
                                )) by {
                                    assert(mem_str(self.errors@, y) <==> mem_str(errors_pre, y)
                                        || y == line@);
                                    if mem_str(self.errors@, y) {
                                        if !mem_str(errors0, y) {
                                            if spec_subkey_errs(path, subs, k as int, y) {
                                                let j = choose|j: int|
                                                    0 <= j < k && j < subs.len() && (
                                                    #[trigger] subs[j]) is Err && y
                                                        == spec_subkey_error_line(
                                                        path,
                                                        subs[j]->Err_0@,
                                                    );
                                                assert(spec_subkey_errs(path, subs, k + 1, y));
                                            } else {
                                                assert(!mem_str(errors_pre, y));
                                                assert(y == line@);
                                                assert(y == spec_subkey_error_line(
                                                    path,
                                                    e@,
                                                ));
                                                assert(0 <= (k as int) && (k as int) < k + 1
                                                    && (k as int) < subs.len() && subs[k as int] is Err
                                                    && y == spec_subkey_error_line(
                                                    path,
                                                    subs[k as int]->Err_0@,
                                                ));
                                                assert(spec_subkey_errs(path, subs, k + 1, y));
                                            }
                                        }
                                    } else {
                                        if spec_subkey_errs(path, subs, k + 1, y) {
                                            let j = choose|j: int|
                                                0 <= j < k + 1 && j < subs.len() && (
                                                #[trigger] subs[j]) is Err && y
                                                    == spec_subkey_error_line(
                                                    path,
                                                    subs[j]->Err_0@,
                                                );
                                            if j < k {
                                                assert(spec_subkey_errs(path, subs, k as int, y));
                                                assert(mem_str(errors_pre, y));
                                            } else {
                                                assert(y == line@);
                                            }
                                            assert(false);
                                        }
                                    }
                                }
                            }
                        },
                    }
                    k = k + 1;
                }
                proof {
                    assert(subs.take(sn as int) =~= subs);
                }
                let ghost keys_a = self.keys_seen;
                let ghost queue_a = self.key_queue@;
                let mut values_vec = values;
                let vn = values_vec.len();
                let mut v: usize = 0;
                while values_vec.len() > 0
                    invariant
                        vn == vals.len(),
                        v + values_vec@.len() == vn,
                        v <= vn,
                        values_vec@ == vals.skip(v as int),
                        vals0 + vals.len() <= u64::MAX,
                        self.threads == old(self).threads,
                        self.search_terms == old(self).search_terms,
                        self.terms_view() == tv,
                        self.threads_waiting_for_work == old(self).threads_waiting_for_work,
                        self.keys_seen == keys_a,
                        self.key_queue@ == queue_a,
                        self.results.wf(),
                        self.errors.wf(),
                        self.values_seen == vals0 + ok_items(vals.take(v as int)).len(),
                        forall|y: Seq<char>|
                            #[trigger] mem_str(self.results@, y) <==> mem_str(results0, y) || (
                            spec_any_match(tv, path) && y == spec_key_line(root, path))
                                || spec_value_hits(
                                tv,
                                root,
                                path,
                                ok_items(vals.take(v as int)),
                                y,
                            ),
                        forall|y: Seq<char>|
                            #[trigger] mem_str(self.errors@, y) <==> mem_str(errors0, y)
                                || spec_subkey_errs(path, subs, subs.len() as int, y)
                                || spec_value_errs(path, vals, v as int, y),
                    decreases values_vec@.len(),
                {
                    let ghost entries_pre = ok_items(vals.take(v as int));
                    let ghost results_pre = self.results@;
                    let ghost errors_pre = self.errors@;
                    proof {
                        lemma_ok_items_len::<(String, RegValue), String>(vals.take(v as int));
                        lemma_ok_items_step(vals, v as int);
                        assert(vals.skip(v as int).drop_first() =~= vals.skip(v + 1));
                        assert(values_vec@[0] == vals[v as int]);
                        assert forall|y: Seq<char>| #[trigger] mem_str(results_pre, y) <==> (
                        mem_str(results0, y) || (spec_any_match(tv, path) && y == spec_key_line(
                            root,
                            path,
                        )) || spec_value_hits(tv, root, path, entries_pre, y)) by {
                            assert(mem_str(self.results@, y) <==> mem_str(results0, y) || (
                            spec_any_match(tv, path) && y == spec_key_line(root, path))
                                || spec_value_hits(tv, root, path, entries_pre, y));
                        }
                        assert forall|y: Seq<char>| #[trigger] mem_str(errors_pre, y) <==> (
                        mem_str(errors0, y) || spec_subkey_errs(path, subs, subs.len() as int, y)
                            || spec_value_errs(path, vals, v as int, y)) by {
                            assert(mem_str(self.errors@, y) <==> mem_str(errors0, y)
                                || spec_subkey_errs(path, subs, subs.len() as int, y)
                                || spec_value_errs(path, vals, v as int, y));
                        }
                    }
                    match values_vec.remove(0) {
                        Ok(pair) => {
                            let (value_name, rv) = pair;
                            let ghost gname = value_name@;
                            let ghost grv = rv;
                            let ghost entry = vals[v as int]->Ok_0;
                            let vtype = rv.vtype;
                            self.values_seen = self.values_seen + 1;
                            let data = crate::alt_reg_value_to_string(rv);
                            let matched = self.any_string_matches(
                                value_name.as_str(),
                                data.as_str(),
                            );
                            let ghost cond = spec_any_match(tv, gname) || spec_any_match(
                                tv,
                                spec_reg_value_string(grv.vtype, grv.bytes@),
                            );
                            proof {
                                assert(data@ == spec_reg_value_string(grv.vtype, grv.bytes@));
                                assert(matched == cond);
                                assert(entry.0@ == gname && entry.1 == grv);
                                assert(ok_items(vals.take(v + 1)) =~= entries_pre.push(entry));
                            }
                            if matched {
                                let shown: String = if value_name.as_str().is_empty() {
                                    "(Default)".to_owned()
                                } else {
                                    value_name
                                };
                                let line = value_line(
                                    root,
                                    key_path.as_str(),
                                    shown.as_str(),
                                    data.as_str(),
                                    vtype,
                                );
                                proof {
                                    assert(shown@ == spec_value_name_shown(gname));
                                    assert(line@ == spec_value_line(root, path, gname, grv));
                                }
                                self.results.insert(line);
                            }
                            proof {
                                assert forall|y: Seq<char>| #[trigger] mem_str(self.results@, y)
                                    <==> (mem_str(results0, y) || (spec_any_match(tv, path) && y
                                    == spec_key_line(root, path)) || spec_value_hits(
                                    tv,
                                    root,
                                    path,
                                    entries_pre.push(entry),
                                    y,
                                )) by {
                                    if mem_str(self.results@, y) {
                                        if !mem_str(results_pre, y) {
                                            assert(cond && y == spec_value_line(
                                                root,
                                                path,
                                                gname,
                                                grv,
                                            ));
                                            assert(entries_pre.push(entry)[entries_pre.len() as int]
                                                == entry);
                                            assert(spec_value_hits(
                                                tv,
                                                root,
                                                path,
                                                entries_pre.push(entry),
                                                y,
                                            ));
                                        } else {
                                            if spec_value_hits(tv, root, path, entries_pre, y) {
                                                let m = choose|m: int|
                                                    0 <= m < entries_pre.len() && {
                                                        let en = #[trigger] entries_pre[m];
                                                        &&& (spec_any_match(tv, en.0@)
                                                            || spec_any_match(
                                                            tv,
                                                            spec_reg_value_string(
                                                                en.1.vtype,
                                                                en.1.bytes@,
                                                            ),
                                                        ))
                                                        &&& y == spec_value_line(
                                                            root,
                                                            path,
                                                            en.0@,
                                                            en.1,
                                                        )
                                                    };
                                                assert(entries_pre.push(entry)[m]
                                                    == entries_pre[m]);
                                                assert(spec_value_hits(
                                                    tv,
                                                    root,
                                                    path,
                                                    entries_pre.push(entry),
                                                    y,
                                                ));
                                            }
                                        }
                                    } else {
                                        if spec_value_hits(
                                            tv,
                                            root,
                                            path,
                                            entries_pre.push(entry),
                                            y,
                                        ) {
                                            let m = choose|m: int|
                                                0 <= m < entries_pre.push(entry).len() && {
                                                    let en = #[trigger] entries_pre.push(entry)[m];
                                                    &&& (spec_any_match(tv, en.0@)
                                                        || spec_any_match(
                                                        tv,
                                                        spec_reg_value_string(
                                                            en.1.vtype,
                                                            en.1.bytes@,
                                                        ),
                                                    ))
                                                    &&& y == spec_value_line(
                                                        root,
                                                        path,
                                                        en.0@,
                                                        en.1,
                                                    )
                                                };
                                            if m < entries_pre.len() {
                                                assert(entries_pre[m]
                                                    == entries_pre.push(entry)[m]);
                                                assert(spec_value_hits(
                                                    tv,
                                                    root,
                                                    path,
                                                    entries_pre,
                                                    y,
                                                ));
                                                assert(mem_str(results_pre, y));
                                            } else {
                                                assert(entries_pre.push(entry)[m] == entry);
                                                assert(y == spec_value_line(
                                                    root,
                                                    path,
                                                    gname,
                                                    grv,
                                                ));
                                                assert(cond);
                                            }
                                            assert(false);
                                        }
                                    }
                                }
                                assert forall|y: Seq<char>|
                                    spec_value_errs(path, vals, v + 1, y) <==> spec_value_errs(
                                    path,
                                    vals,
                                    v as int,
                                    y,
                                ) by {
                                    if spec_value_errs(path, vals, v + 1, y) {
                                        let j = choose|j: int|
                                            0 <= j < v + 1 && j < vals.len() && (#[trigger] vals[j]) is Err
                                                && y == spec_value_error_line(
                                                path,
                                                vals[j]->Err_0@,
                                            );
                                        if j < v {
                                            assert(spec_value_errs(path, vals, v as int, y));
                                        }
                                    }
                                }
                            }
                        },
                        Err(e) => {
                            let line = value_error_line(key_path.as_str(), e.as_str());
                            self.errors.insert(line);
                            proof {
                                assert(e@ == vals[v as int]->Err_0@);
                                assert(ok_items(vals.take(v + 1)) =~= entries_pre);
                                assert forall|y: Seq<char>| #[trigger] mem_str(self.errors@, y)
                                    <==> (mem_str(errors0, y) || spec_subkey_errs(
                                    path,
                                    subs,
                                    subs.len() as int,
                                    y,
                                ) || spec_value_errs(path, vals, v + 1, y)) by {
                                    assert(mem_str(self.errors@, y) <==> mem_str(errors_pre, y)
                                        || y == line@);
                                    if mem_str(self.errors@, y) {
                                        if !mem_str(errors0, y) && !spec_subkey_errs(
                                            path,
                                            subs,
                                            subs.len() as int,
                                            y,
                                        ) && !spec_value_errs(path, vals, v as int, y) {
                                            assert(!mem_str(errors_pre, y));
                                            assert(y == line@);
                                            assert(0 <= (v as int) && (v as int) < v + 1
                                                && (v as int) < vals.len() && vals[v as int] is Err
                                                && y == spec_value_error_line(
                                                path,
                                                vals[v as int]->Err_0@,
                                            ));
                                            assert(spec_value_errs(path, vals, v + 1, y));
                                        } else {
                                            if spec_value_errs(path, vals, v as int, y) {
                                                let j = choose|j: int|
                                                    0 <= j < v && j < vals.len() && (
                                                    #[trigger] vals[j]) is Err && y
                                                        == spec_value_error_line(
                                                        path,
                                                        vals[j]->Err_0@,
                                                    );
                                                assert(spec_value_errs(path, vals, v + 1, y));
                                            }
                                        }
                                    } else {
                                        if spec_value_errs(path, vals, v + 1, y) {
                                            let j = choose|j: int|
                                                0 <= j < v + 1 && j < vals.len() && (
                                                #[trigger] vals[j]) is Err && y
                                                    == spec_value_error_line(
                                                    path,
                                                    vals[j]->Err_0@,
                                                );
                                            if j < v {
                                                assert(spec_value_errs(path, vals, v as int, y));
                                                assert(mem_str(errors_pre, y));
                                            } else {
                                                assert(y == line@);
                                            }
                                            assert(false);
                                        }
                                    }
                                }
                            }
                        },
                    }
                    v = v + 1;
                }
                proof {
                    assert(vals.take(vn as int) =~= vals);
                }
            },
        }
    }

    /// Seed the queue from the enumeration of one enabled hive's top-level
    /// subkeys: each successful callback is counted and becomes a work
    /// item; each failed one becomes a diagnostic.
    #[verifier::loop_isolation(false)]
    pub fn seed_from_enumeration(&mut self, root: Root, children: Vec<Result<String, String>>)
        requires
            old(self).wf(),
            old(self).keys_seen + children@.len() <= u64::MAX,
        ensures
            final(self).wf(),
            final(self).threads == old(self).threads,
            final(self).search_terms == old(self).search_terms,
            final(self).threads_waiting_for_work == old(self).threads_waiting_for_work,
            final(self).values_seen == old(self).values_seen,
            final(self).results == old(self).results,
            final(self).keys_seen == old(self).keys_seen + ok_items(children@).len(),
            final(self).key_queue@.len() == old(self).key_queue@.len() + ok_items(
                children@,
            ).len(),
            forall|i: int|
                0 <= i < old(self).key_queue@.len() ==> final(self).key_queue@[i] == old(
                    self,
                ).key_queue@[i],
            forall|m: int|
                0 <= m < ok_items(children@).len() ==> {
                    let e = #[trigger] final(self).key_queue@[old(self).key_queue@.len() + m];
                    e.0 == root && e.1@ == ok_items(children@)[m]@
                },
            forall|y: Seq<char>|
                #[trigger] mem_str(final(self).errors@, y) <==> mem_str(old(self).errors@, y)
                    || spec_seed_errs(root, children@, children@.len() as int, y),
    {
        let ghost errors0 = self.errors@;
        let ghost queue0 = self.key_queue@;
        let ghost keys0 = self.keys_seen;
        let ghost kids = children@;
        let cn = children.len();
        let mut k: usize = 0;
        while k < cn
            invariant
                cn == kids.len(),
                k <= cn,
                children@ == kids,
                keys0 + kids.len() <= u64::MAX,
                self.threads == old(self).threads,
                self.search_terms == old(self).search_terms,
                self.threads_waiting_for_work == old(self).threads_waiting_for_work,
                self.values_seen == old(self).values_seen,
                self.results == old(self).results,
                self.results.wf(),
                self.errors.wf(),
                self.keys_seen == keys0 + ok_items(kids.take(k as int)).len(),
                self.key_queue@.len() == queue0.len() + ok_items(kids.take(k as int)).len(),
                forall|i: int| 0 <= i < queue0.len() ==> self.key_queue@[i] == queue0[i],
                forall|m: int|
                    0 <= m < ok_items(kids.take(k as int)).len() ==> {
                        let e = #[trigger] self.key_queue@[queue0.len() + m];
                        e.0 == root && e.1@ == ok_items(kids.take(k as int))[m]@
                    },
                forall|y: Seq<char>|
                    #[trigger] mem_str(self.errors@, y) <==> mem_str(errors0, y)
                        || spec_seed_errs(root, kids, k as int, y),
            decreases cn - k,
        {
            proof {
                lemma_ok_items_len::<String, String>(kids.take(k as int));
                lemma_ok_items_step(kids, k as int);
            }
            let ghost entries_pre = ok_items(kids.take(k as int));
            match &children[k] {
                Ok(name) => {
                    self.keys_seen = self.keys_seen + 1;
                    self.key_queue.push_back((root, name.clone()));
                    proof {
                        assert(ok_items(kids.take(k + 1)) =~= entries_pre.push(
                            kids[k as int]->Ok_0,
                        ));
                        assert forall|y: Seq<char>|
                            spec_seed_errs(root, kids, k + 1, y) <==> spec_seed_errs(
                            root,
                            kids,
                            k as int,
                            y,
                        ) by {
                            if spec_seed_errs(root, kids, k + 1, y) {
                                let j = choose|j: int|
                                    0 <= j < k + 1 && j < kids.len() && (#[trigger] kids[j]) is Err
                                        && y == spec_seed_error_line(root, kids[j]->Err_0@);
                                if j < k {
                                    assert(spec_seed_errs(root, kids, k as int, y));
                                }
                            }
                        }
                    }
                },
                Err(e) => {
                    let line = seed_error_line(root, e.as_str());
                    let ghost errors_pre = self.errors@;
                    self.errors.insert(line);
                    proof {
                        assert(ok_items(kids.take(k + 1)) =~= entries_pre);
                        assert(forall|y: Seq<char>|
                            #[trigger] mem_str(errors_pre, y) <==> mem_str(errors0, y)
                                || spec_seed_errs(root, kids, k as int, y));
                        assert forall|y: Seq<char>| #[trigger] mem_str(self.errors@, y) <==> (
                        mem_str(errors0, y) || spec_seed_errs(root, kids, k + 1, y)) by {
                            assert(mem_str(self.errors@, y) <==> mem_str(errors_pre, y) || y
                                == line@);
                            if mem_str(self.errors@, y) {
                                if !mem_str(errors0, y) && !spec_seed_errs(
                                    root,
                                    kids,
                                    k as int,
                                    y,
                                ) {
                                    assert(y == spec_seed_error_line(root, kids[k as int]->Err_0@));
                                    assert(spec_seed_errs(root, kids, k + 1, y));
                                } else {
                                    if spec_seed_errs(root, kids, k as int, y) {
                                        let j = choose|j: int|
                                            0 <= j < k && j < kids.len() && (#[trigger] kids[j]) is Err
                                                && y == spec_seed_error_line(
                                                root,
                                                kids[j]->Err_0@,
                                            );
                                        assert(spec_seed_errs(root, kids, k + 1, y));
                                    }
                                }
                            } else {
                                if spec_seed_errs(root, kids, k + 1, y) {
                                    let j = choose|j: int|
                                        0 <= j < k + 1 && j < kids.len() && (#[trigger] kids[j]) is Err
                                            && y == spec_seed_error_line(root, kids[j]->Err_0@);
                                    if j < k {
                                        assert(spec_seed_errs(root, kids, k as int, y));
                                    }
                                    assert(false);
                                }
                            }
                        }
                    }
                },
            }
            k = k + 1;
        }
        proof {
            assert(kids.take(cn as int) =~= kids);
        }
    }

}


/// The diagnostic recorded when enumerating a hive's top-level subkeys
/// fails while seeding.
pub open spec fn spec_seed_error_line(root: Root, err: Seq<char>) -> Seq<char> {
    root.spec_name() + ", Subkey error: \""@ + err + "\""@
}

/// Whether `y` is the diagnostic of a failed child enumeration among the
/// first `k` entries.
pub open spec fn spec_subkey_errs(
    path: Seq<char>,
    subs: Seq<Result<String, String>>,
    k: int,
    y: Seq<char>,
) -> bool {
    exists|j: int|
        0 <= j < k && j < subs.len() && (#[trigger] subs[j]) is Err && y == spec_subkey_error_line(
            path,
            subs[j]->Err_0@,
        )
}

/// Whether `y` is the diagnostic of a failed value enumeration among the
/// first `k` entries.
pub open spec fn spec_value_errs(
    path: Seq<char>,
    vals: Seq<Result<(String, RegValue), String>>,
    k: int,
    y: Seq<char>,
) -> bool {
    exists|j: int|
        0 <= j < k && j < vals.len() && (#[trigger] vals[j]) is Err && y == spec_value_error_line(
            path,
            vals[j]->Err_0@,
        )
}

/// Whether `y` is the diagnostic of a failed seeding enumeration among
/// the first `k` entries.
pub open spec fn spec_seed_errs(
    root: Root,
    children: Seq<Result<String, String>>,
    k: int,
    y: Seq<char>,
) -> bool {
    exists|j: int|
        0 <= j < k && j < children.len() && (#[trigger] children[j]) is Err && y
            == spec_seed_error_line(root, children[j]->Err_0@)
}

/// Whether `y` is the result line of a matched value among `entries`.
pub open spec fn spec_value_hits(
    terms: Seq<Seq<char>>,
    root: Root,
    path: Seq<char>,
    entries: Seq<(String, RegValue)>,
    y: Seq<char>,
) -> bool {
    exists|k: int|
        0 <= k < entries.len() && {
            let entry = #[trigger] entries[k];
            &&& (spec_any_match(terms, entry.0@) || spec_any_match(
                terms,
                spec_reg_value_string(entry.1.vtype, entry.1.bytes@),
            ))
            &&& y == spec_value_line(root, path, entry.0@, entry.1)
        }
}

/// The Ok entries of a prefix grow by the next entry exactly when it is
/// Ok.
proof fn lemma_ok_items_step<T, E>(s: Seq<Result<T, E>>, k: int)
    requires
        0 <= k < s.len(),
    ensures
        s[k] is Ok ==> ok_items(s.take(k + 1)) == ok_items(s.take(k)).push(s[k]->Ok_0),
        s[k] is Err ==> ok_items(s.take(k + 1)) == ok_items(s.take(k)),
{
    let t = s.take(k + 1);
    assert(t.drop_last() =~= s.take(k));
    assert(t.last() == s[k]);
    assert(t.len() == k + 1 > 0);
    match s[k] {
        Ok(v) => {
            assert(ok_items(t) == ok_items(s.take(k)) + seq![v]);
            assert(ok_items(s.take(k)) + seq![v] =~= ok_items(s.take(k)).push(v));
        },
        Err(_) => {
            assert(ok_items(t) == ok_items(s.take(k)) + Seq::<T>::empty());
            assert(ok_items(s.take(k)) + Seq::<T>::empty() =~= ok_items(s.take(k)));
        },
    }
}

/// There are no more Ok entries than entries.
proof fn lemma_ok_items_len<T, E>(s: Seq<Result<T, E>>)
    ensures
        ok_items(s).len() <= s.len(),
    decreases s.len(),
{
    if s.len() > 0 {
        lemma_ok_items_len(s.drop_last());
    }
}

/// The key's own line.
fn key_line(root: Root, key_path: &str) -> (r: String)
    ensures
        r@ == spec_key_line(root, key_path@),
{
    let mut s = root.name();
    s.append("\\");
    s.append(key_path);
    proof {
        assert(s@ =~= spec_key_line(root, key_path@));
    }
    s
}

/// The path of a child subkey.
fn child_path(key_path: &str, name: &str) -> (r: String)
    ensures
        r@ == spec_child_path(key_path@, name@),
{
    let mut s = key_path.to_owned();
    s.append("\\");
    s.append(name);
    proof {
        assert(s@ =~= spec_child_path(key_path@, name@));
    }
    s
}

/// The diagnostic of a failed open.
fn open_error_line(root: Root, key_path: &str, err: &str) -> (r: String)
    ensures
        r@ == spec_open_error_line(root, key_path@, err@),
{
    let mut s = key_path.to_owned();
    s.append(": ");
    let name = root.name();
    s.append(name.as_str());
    s.append(", Key error: \"");
    s.append(err);
    s.append("\"");
    proof {
        assert(s@ =~= spec_open_error_line(root, key_path@, err@));
    }
    s
}

/// The diagnostic of a failed child enumeration.
fn subkey_error_line(key_path: &str, err: &str) -> (r: String)
    ensures
        r@ == spec_subkey_error_line(key_path@, err@),
{
    let mut s = key_path.to_owned();
    s.append(", Subkey error: \"");
    s.append(err);
    s.append("\"");
    proof {
        assert(s@ =~= spec_subkey_error_line(key_path@, err@));
    }
    s
}

/// The diagnostic of a failed value enumeration.
fn value_error_line(key_path: &str, err: &str) -> (r: String)
    ensures
        r@ == spec_value_error_line(key_path@, err@),
{
    let mut s = key_path.to_owned();
    s.append(", Value error: \"");
    s.append(err);
    s.append("\"");
    proof {
        assert(s@ =~= spec_value_error_line(key_path@, err@));
    }
    s
}

/// The diagnostic of a failed seeding enumeration.
fn seed_error_line(root: Root, err: &str) -> (r: String)
    ensures
        r@ == spec_seed_error_line(root, err@),
{
    let mut s = root.name();
    s.append(", Subkey error: \"");
    s.append(err);
    s.append("\"");
    proof {
        assert(s@ =~= spec_seed_error_line(root, err@));
    }
    s
}

/// The result line of a matched value.
fn value_line(root: Root, key_path: &str, shown: &str, data: &str, vtype: crate::RegType) -> (r:
    String)
    ensures
        r@ == root.spec_name() + "\\"@ + key_path@ + "\\"@ + shown@ + " = \""@ + data@ + "\" ("@
            + vtype.spec_name() + ")"@,
{
    let mut s = root.name();
    s.append("\\");
    s.append(key_path);
    s.append("\\");
    s.append(shown);
    s.append(" = \"");
    s.append(data);
    s.append("\" (");
    let tn = vtype.name();
    s.append(tn.as_str());
    s.append(")");
    proof {
        assert(s@ =~= root.spec_name() + "\\"@ + key_path@ + "\\"@ + shown@ + " = \""@ + data@
            + "\" ("@ + vtype.spec_name() + ")"@);
    }
    s
}

} // verus!
