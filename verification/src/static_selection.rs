//! The shared application state: pane and hive cursors, search terms,
//! selected hives, run flags, timer and results.
use vstd::prelude::*;
use crate::ordered_set::OrderedStringSet;
use crate::root::{Root, SelectedRoots};
use crate::search_term_tracker::{debounce_elapsed, SearchTermTracker};
use crate::{clock, Row};

verus! {

/// One row of the hive pane: the hive's name, whether it is enabled, and
/// whether the cursor is on it.
pub struct RootRow {
    pub name: String,
    pub enabled: bool,
    pub selected: bool,
}

/// The state every activity of the application reads and mutates: cursors,
/// hive selection, search terms, run flags, the run timer and the results.
pub struct StaticSelection {
    pub pane_selected: u8,
    pub pane_last_changed: u64,
    pub root_selected: u8,
    pub root_selection_last_changed: u64,
    pub search_term_tracker: SearchTermTracker,
    pub selected_roots: SelectedRoots,
    pub running: bool,
    pub run_control_temporarily_disabled: bool,
    pub stop: bool,
    pub timer: Option<(u64, Option<u64>)>,
    pub results: OrderedStringSet,
}

impl StaticSelection {
    /// The state's invariant: the pane cursor is one of the three panes,
    /// the hive cursor one of the five hives, and the sets are well formed.
    pub open spec fn wf(self) -> bool {
        &&& self.pane_selected < 3
        &&& self.root_selected < 5
        &&& self.search_term_tracker.wf()
        &&& self.results.wf()
    }

    /// The state after a leftward pane move at `now`: 0 to 2, 1 to 0,
    /// 2 to 1, under the debounce rule.
    pub open spec fn spec_pane_left(self, now: u64) -> StaticSelection {
        if !debounce_elapsed(self.pane_last_changed, now) {
            self
        } else {
            let p: u8 = if self.pane_selected == 0 {
                2
            } else if self.pane_selected == 1 {
                0
            } else {
                1
            };
            StaticSelection { pane_selected: p, pane_last_changed: now, ..self }
        }
    }

    /// The state after a rightward pane move at `now`: 0 to 1, 1 to 2,
    /// 2 to 0, under the debounce rule.
    pub open spec fn spec_pane_right(self, now: u64) -> StaticSelection {
        if !debounce_elapsed(self.pane_last_changed, now) {
            self
        } else {
            let p: u8 = if self.pane_selected == 0 {
                1
            } else if self.pane_selected == 1 {
                2
            } else {
                0
            };
            StaticSelection { pane_selected: p, pane_last_changed: now, ..self }
        }
    }

    /// The state after an upward hive move at `now`: one step back with
    /// wrap-around over the five tags, under the debounce rule.
    pub open spec fn spec_root_up(self, now: u64) -> StaticSelection {
        if !debounce_elapsed(self.root_selection_last_changed, now) {
            self
        } else {
            let p: u8 = if self.root_selected == 0 {
                4
            } else {
                (self.root_selected - 1) as u8
            };
            StaticSelection { root_selected: p, root_selection_last_changed: now, ..self }
        }
    }

    /// The state after a downward hive move at `now`: one step forward with
    /// wrap-around over the five tags, under the debounce rule.
    pub open spec fn spec_root_down(self, now: u64) -> StaticSelection {
        if !debounce_elapsed(self.root_selection_last_changed, now) {
            self
        } else {
            let p: u8 = if self.root_selected < 4 {
                (self.root_selected + 1) as u8
            } else {
                0
            };
            StaticSelection { root_selected: p, root_selection_last_changed: now, ..self }
        }
    }

    /// The fresh state: cursors at the origin, default hive selection, no
    /// terms, no results, no run in progress.
    pub fn new() -> (r: StaticSelection)
        ensures
            r.wf(),
            r.pane_selected == 0,
            r.root_selected == 0,
            r.search_term_tracker.search_terms@.len() == 0,
            r.selected_roots == SelectedRoots::spec_default(),
            !r.running,
            !r.run_control_temporarily_disabled,
            !r.stop,
            r.timer is None,
            r.results@.len() == 0,
    {
        StaticSelection {
            pane_selected: 0,
            pane_last_changed: 0,
            root_selected: 0,
            root_selection_last_changed: 0,
            search_term_tracker: SearchTermTracker::new(),
            selected_roots: SelectedRoots::default(),
            running: false,
            run_control_temporarily_disabled: false,
            stop: false,
            timer: None,
            results: OrderedStringSet::new(),
        }
    }


    /// Decide whether the state's invariant holds of this value.
    pub fn is_well_formed(&self) -> (r: bool)
        ensures
            r == self.wf(),
    {
        self.pane_selected < 3 && self.root_selected < 5
            && self.search_term_tracker.is_well_formed() && self.results.check_sorted()
    }

    /// Move the pane cursor left at `now`.
    pub fn pane_left_at(&mut self, now: u64)
        requires
            old(self).wf(),
        ensures
            final(self).wf(),
            *final(self) == old(self).spec_pane_left(now),
    {
        if now < self.pane_last_changed || now - self.pane_last_changed < crate::DEBOUNCE {
            return ;
        }
        self.pane_selected = if self.pane_selected == 0 {
            2
        } else if self.pane_selected == 1 {
            0
        } else {
            1
        };
        self.pane_last_changed = now;
    }

    /// Move the pane cursor right at `now`.
    pub fn pane_right_at(&mut self, now: u64)
        requires
            old(self).wf(),
        ensures
            final(self).wf(),
            *final(self) == old(self).spec_pane_right(now),
    {
        if now < self.pane_last_changed || now - self.pane_last_changed < crate::DEBOUNCE {
            return ;
        }
        self.pane_selected = if self.pane_selected == 0 {
            1
        } else if self.pane_selected == 1 {
            2
        } else {
            0
        };
        self.pane_last_changed = now;
    }

    /// Move the hive cursor up at `now`.
    pub fn root_up_at(&mut self, now: u64)
        requires
            old(self).wf(),
        ensures
            final(self).wf(),
            *final(self) == old(self).spec_root_up(now),
    {
        if now < self.root_selection_last_changed || now - self.root_selection_last_changed
            < crate::DEBOUNCE {
            return ;
        }
        self.root_selected = if self.root_selected == 0 {
            4
        } else {
            self.root_selected - 1
        };
        self.root_selection_last_changed = now;
    }

    /// Move the hive cursor down at `now`.
    pub fn root_down_at(&mut self, now: u64)
        requires
            old(self).wf(),
        ensures
            final(self).wf(),
            *final(self) == old(self).spec_root_down(now),
    {
        if now < self.root_selection_last_changed || now - self.root_selection_last_changed
            < crate::DEBOUNCE {
            return ;
        }
        self.root_selected = if self.root_selected < 4 {
            self.root_selected + 1
        } else {
            0
        };
        self.root_selection_last_changed = now;
    }

    /// Move the pane cursor left at the present moment.
    pub fn pane_left(&mut self)
        requires
            old(self).wf(),
        ensures
            final(self).wf(),
            exists|now: u64| *final(self) == old(self).spec_pane_left(now),
    {
        let now = clock::now_millis();
        self.pane_left_at(now);
    }

    /// Move the pane cursor right at the present moment.
    pub fn pane_right(&mut self)
        requires
            old(self).wf(),
        ensures
            final(self).wf(),
            exists|now: u64| *final(self) == old(self).spec_pane_right(now),
    {
        let now = clock::now_millis();
        self.pane_right_at(now);
    }

    /// Move the hive cursor up at the present moment.
    pub fn root_up(&mut self)
        requires
            old(self).wf(),
        ensures
            final(self).wf(),
            exists|now: u64| *final(self) == old(self).spec_root_up(now),
    {
        let now = clock::now_millis();
        self.root_up_at(now);
    }

    /// Move the hive cursor down at the present moment.
    pub fn root_down(&mut self)
        requires
            old(self).wf(),
        ensures
            final(self).wf(),
            exists|now: u64| *final(self) == old(self).spec_root_down(now),
    {
        let now = clock::now_millis();
        self.root_down_at(now);
    }

    /// Flip the enabled flag of the hive under the hive cursor.
    pub fn root_toggle(&mut self)
        requires
            old(self).wf(),
        ensures
            final(self).wf(),
            (final(self).selected_roots == old(self).selected_roots.spec_toggle(
                Root::spec_from_u8(old(self).root_selected)->0,
            )),
            *final(self) == (StaticSelection {
                selected_roots: final(self).selected_roots,
                ..*old(self)
            }),
    {
        match Root::from_u8(self.root_selected) {
            Some(root) => {
                self.selected_roots.toggle(&root);
            },
            None => {
                proof {
                    assert(false);
                }
            },
        }
    }

    /// The hive pane's rows: each hive's name, enabled flag, and whether
    /// the cursor is on it while this pane has focus.
    pub fn generate_root_list(&self) -> (r: Vec<RootRow>)
        requires
            self.wf(),
        ensures
            r@.len() == 5,
            forall|i: int|
                0 <= i < 5 ==> {
                    let root = Root::spec_from_u8(i as u8)->0;
                    &&& (#[trigger] r@[i]).name@ == root.spec_name()
                    &&& r@[i].enabled == self.selected_roots.spec_enabled(root)
                    &&& r@[i].selected == (self.pane_selected == 0 && self.root_selected == i)
                },
    {
        let pane_selected = self.pane_selected == 0;
        let all = Root::all();
        let mut rows: Vec<RootRow> = Vec::new();
        let mut i: usize = 0;
        while i < all.len()
            invariant
                self.wf(),
                all@.len() == 5,
                forall|k: int| 0 <= k < 5 ==> (#[trigger] all@[k]).spec_tag() == k,
                pane_selected == (self.pane_selected == 0),
                i <= 5,
                rows@.len() == i,
                forall|k: int|
                    0 <= k < i ==> {
                        let root = Root::spec_from_u8(k as u8)->0;
                        &&& (#[trigger] rows@[k]).name@ == root.spec_name()
                        &&& rows@[k].enabled == self.selected_roots.spec_enabled(root)
                        &&& rows@[k].selected == (self.pane_selected == 0 && self.root_selected
                            == k)
                    },
            decreases 5 - i,
        {
            let root = all[i];
            let tag = root.tag();
            proof {
                assert(root.spec_tag() == i);
                assert(Root::spec_from_u8(i as u8)->0 == root);
            }
            rows.push(
                RootRow {
                    name: root.name(),
                    enabled: self.selected_roots.is_enabled(&root),
                    selected: pane_selected && tag == self.root_selected,
                },
            );
            i = i + 1;
        }
        rows
    }

    /// The result lines, in their sorted order.
    pub fn generate_results(&self) -> (r: Vec<String>)
        ensures
            r@.len() == self.results@.len(),
            forall|i: int| 0 <= i < r@.len() ==> (#[trigger] r@[i])@ == self.results@[i],
    {
        let n = self.results.len();
        let mut rows: Vec<String> = Vec::new();
        let mut i: usize = 0;
        while i < n
            invariant
                n == self.results@.len(),
                i <= n,
                rows@.len() == i,
                forall|k: int| 0 <= k < i ==> (#[trigger] rows@[k])@ == self.results@[k],
            decreases n - i,
        {
            rows.push(self.results.get(i).clone());
            i = i + 1;
        }
        rows
    }
}

impl Default for StaticSelection {
    /// The fresh state: cursors at the origin, default hive selection, no
    /// terms, no results, no run in progress.
    fn default() -> (r: StaticSelection)
        ensures
            r.wf(),
            r.pane_selected == 0,
            r.root_selected == 0,
            r.search_term_tracker.search_terms@.len() == 0,
            r.selected_roots == SelectedRoots::spec_default(),
            !r.running,
            !r.run_control_temporarily_disabled,
            !r.stop,
            r.timer is None,
            r.results@.len() == 0,
    {
        StaticSelection::new()
    }
}

} // verus!
