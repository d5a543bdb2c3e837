//! The ordered set of search terms with its cursor and debounce clock.
use vstd::prelude::*;
use crate::ordered_set::{mem_str, remove_post, OrderedStringSet};
use crate::{clock, EditorMode, Row, DEBOUNCE};

verus! {

/// Whether enough time has passed since the last accepted move for a new
/// move to be accepted.
pub open spec fn debounce_elapsed(last: u64, now: u64) -> bool {
    now >= last + DEBOUNCE
}

/// The search terms, the cursor into them, and the time of the last
/// accepted cursor move.
pub struct SearchTermTracker {
    pub search_term_selected: usize,
    pub search_term_last_changed: u64,
    pub search_terms: OrderedStringSet,
}

/// The term a resolution removes first: none when adding, the original
/// when editing.
pub open spec fn spec_removed(mode: EditorMode) -> Option<Seq<char>> {
    match mode {
        EditorMode::Add => None,
        EditorMode::Edit(original) => Some(original@),
    }
}

/// What resolving an editor leaves in the set: adding inserts the text;
/// editing removes the original and inserts the text.
pub open spec fn update_members_ok(
    pre: Seq<Seq<char>>,
    post: Seq<Seq<char>>,
    removed: Option<Seq<char>>,
    text: Seq<char>,
) -> bool {
    match removed {
        None => forall|y: Seq<char>|
            #[trigger] mem_str(post, y) <==> mem_str(pre, y) || y == text,
        Some(original) => forall|y: Seq<char>|
            #[trigger] mem_str(post, y) <==> (mem_str(pre, y) && y != original) || y == text,
    }
}

impl SearchTermTracker {
    /// The tracker's invariant: terms strictly sorted; when any terms exist
    /// the cursor points at one of them.
    pub open spec fn wf(self) -> bool {
        &&& self.search_terms.wf()
        &&& self.search_terms@.len() > 0 ==> self.search_term_selected < self.search_terms@.len()
    }

    /// The tracker after an accepted or rejected upward move at `now`: the
    /// cursor steps to (k - 1) modulo the term count.
    pub open spec fn spec_up(self, now: u64) -> SearchTermTracker {
        let n = self.search_terms@.len() as int;
        if !debounce_elapsed(self.search_term_last_changed, now) || n == 0 {
            self
        } else {
            SearchTermTracker {
                search_term_selected: if self.search_term_selected == 0 {
                    (n - 1) as usize
                } else {
                    (self.search_term_selected - 1) as usize
                },
                search_term_last_changed: now,
                search_terms: self.search_terms,
            }
        }
    }

    /// The tracker after an accepted or rejected downward move at `now`: the
    /// cursor steps to (k + 1) modulo the term count.
    pub open spec fn spec_down(self, now: u64) -> SearchTermTracker {
        let n = self.search_terms@.len() as int;
        if !debounce_elapsed(self.search_term_last_changed, now) || n == 0 {
            self
        } else {
            SearchTermTracker {
                search_term_selected: if self.search_term_selected + 1 < n {
                    (self.search_term_selected + 1) as usize
                } else {
                    0
                },
                search_term_last_changed: now,
                search_terms: self.search_terms,
            }
        }
    }

    /// An empty tracker with the cursor at the origin.
    pub fn new() -> (r: SearchTermTracker)
        ensures
            r.wf(),
            r.search_terms@.len() == 0,
            r.search_term_selected == 0,
            r.search_term_last_changed == 0,
    {
        SearchTermTracker {
            search_term_selected: 0,
            search_term_last_changed: 0,
            search_terms: OrderedStringSet::new(),
        }
    }


    /// Decide whether the tracker's invariant holds of this value.
    pub fn is_well_formed(&self) -> (r: bool)
        ensures
            r == self.wf(),
    {
        self.search_terms.check_sorted() && (self.search_terms.len() == 0
            || self.search_term_selected < self.search_terms.len())
    }

    /// The term at `index` in sorted order, if there is one.
    pub fn get_value_from_index(&self, index: usize) -> (r: Option<String>)
        ensures
            index < self.search_terms@.len() ==> (r matches Some(v) && v@
                == self.search_terms@[index as int]),
            index >= self.search_terms@.len() ==> r is None,
    {
        if index < self.search_terms.len() {
            Some(self.search_terms.get(index).clone())
        } else {
            None
        }
    }

    /// The term under the cursor, if any terms exist.
    pub fn get_value_at_current_index(&self) -> (r: Option<String>)
        requires
            self.wf(),
        ensures
            self.search_terms@.len() > 0 ==> (r matches Some(v) && v@
                == self.search_terms@[self.search_term_selected as int]),
            self.search_terms@.len() == 0 ==> r is None,
    {
        self.get_value_from_index(self.search_term_selected)
    }

    /// Apply an editor resolution: add inserts `state`; edit removes the
    /// original and inserts `state`. The cursor points at `state` after.
    pub fn update(&mut self, editor_mode: EditorMode, state: String)
        requires
            old(self).wf(),
        ensures
            final(self).wf(),
            update_members_ok(
                old(self).search_terms@,
                final(self).search_terms@,
                spec_removed(editor_mode),
                state@,
            ),
            final(self).search_terms@.len() > 0,
            final(self).search_terms@[final(self).search_term_selected as int] == state@,
            final(self).search_term_last_changed == old(self).search_term_last_changed,
    {
        match &editor_mode {
            EditorMode::Add => {
                self.search_terms.insert(state.clone());
            },
            EditorMode::Edit(original) => {
                self.search_terms.remove(original.as_str());
                self.search_terms.insert(state.clone());
            },
        }
        match self.search_terms.index_of(state.as_str()) {
            Some(i) => {
                self.search_term_selected = i;
            },
            None => {
                proof {
                    assert(false);
                }
            },
        }
    }

    /// Remove `term` from the set; the cursor keeps its ordinal position,
    /// clamped into range.
    pub fn remove(&mut self, term: String)
        requires
            old(self).wf(),
        ensures
            final(self).wf(),
            remove_post(old(self).search_terms@, final(self).search_terms@, term@),
            final(self).search_term_last_changed == old(self).search_term_last_changed,
            final(self).search_term_selected as int == if old(self).search_term_selected
                < final(self).search_terms@.len() {
                old(self).search_term_selected as int
            } else if final(self).search_terms@.len() > 0 {
                final(self).search_terms@.len() - 1
            } else {
                0
            },
    {
        self.search_terms.remove(term.as_str());
        let n = self.search_terms.len();
        if self.search_term_selected >= n {
            if n > 0 {
                self.search_term_selected = n - 1;
            } else {
                self.search_term_selected = 0;
            }
        }
    }

    /// Move the cursor up one term, wrapping, under the debounce rule.
    pub fn up_at(&mut self, now: u64)
        requires
            old(self).wf(),
        ensures
            final(self).wf(),
            *final(self) == old(self).spec_up(now),
    {
        if now < self.search_term_last_changed || now - self.search_term_last_changed < DEBOUNCE {
            return ;
        }
        let n = self.search_terms.len();
        if n == 0 {
            return ;
        }
        let current = self.search_term_selected;
        self.search_term_selected = if current == 0 {
            n - 1
        } else {
            current - 1
        };
        self.search_term_last_changed = now;
    }

    /// Move the cursor down one term, wrapping, under the debounce rule.
    pub fn down_at(&mut self, now: u64)
        requires
            old(self).wf(),
        ensures
            final(self).wf(),
            *final(self) == old(self).spec_down(now),
    {
        if now < self.search_term_last_changed || now - self.search_term_last_changed < DEBOUNCE {
            return ;
        }
        let n = self.search_terms.len();
        if n == 0 {
            return ;
        }
        let current = self.search_term_selected;
        self.search_term_selected = if current + 1 < n {
            current + 1
        } else {
            0
        };
        self.search_term_last_changed = now;
    }

    /// Move the cursor up at the present moment.
    pub fn up(&mut self)
        requires
            old(self).wf(),
        ensures
            final(self).wf(),
            exists|now: u64| *final(self) == old(self).spec_up(now),
    {
        let now = clock::now_millis();
        self.up_at(now);
    }

    /// Move the cursor down at the present moment.
    pub fn down(&mut self)
        requires
            old(self).wf(),
        ensures
            final(self).wf(),
            exists|now: u64| *final(self) == old(self).spec_down(now),
    {
        let now = clock::now_millis();
        self.down_at(now);
    }

    /// The terms as renderable rows; the cursor row is marked selected only
    /// while this pane has focus.
    pub fn render(&self, pane_selected: bool) -> (r: Vec<Row>)
        ensures
            r@.len() == self.search_terms@.len(),
            forall|i: int|
                0 <= i < r@.len() ==> (#[trigger] r@[i]).text@ == self.search_terms@[i]
                    && r@[i].selected == (pane_selected && i == self.search_term_selected),
    {
        let n = self.search_terms.len();
        let mut rows: Vec<Row> = Vec::new();
        let mut i: usize = 0;
        while i < n
            invariant
                n == self.search_terms@.len(),
                i <= n,
                rows@.len() == i,
                forall|k: int|
                    0 <= k < i ==> (#[trigger] rows@[k]).text@ == self.search_terms@[k]
                        && rows@[k].selected == (pane_selected && k
                        == self.search_term_selected),
            decreases n - i,
        {
            rows.push(
                Row {
                    text: self.search_terms.get(i).clone(),
                    selected: pane_selected && i == self.search_term_selected,
                },
            );
            i = i + 1;
        }
        rows
    }
}

impl Default for SearchTermTracker {
    /// An empty tracker with the cursor at the origin.
    fn default() -> (r: SearchTermTracker)
        ensures
            r.wf(),
            r.search_terms@.len() == 0,
            r.search_term_selected == 0,
            r.search_term_last_changed == 0,
    {
        SearchTermTracker::new()
    }
}

/// Resolving an editor on the term under the cursor with its own text
/// leaves both the set and the cursor unchanged.
pub proof fn lemma_edit_to_self_is_identity(
    pre: SearchTermTracker,
    post: SearchTermTracker,
    term: Seq<char>,
)
    requires
        pre.wf(),
        post.wf(),
        pre.search_terms@.len() > 0,
        pre.search_terms@[pre.search_term_selected as int] == term,
        update_members_ok(pre.search_terms@, post.search_terms@, Some(term), term),
        post.search_terms@.len() > 0,
        post.search_terms@[post.search_term_selected as int] == term,
    ensures
        post.search_terms@ == pre.search_terms@,
        post.search_term_selected == pre.search_term_selected,
{
    assert forall|y: Seq<char>| #[trigger] mem_str(post.search_terms@, y) <==> mem_str(
        pre.search_terms@,
        y,
    ) by {
        assert(mem_str(pre.search_terms@, term));
    }
    crate::ordered_set::lemma_sorted_same_members(post.search_terms@, pre.search_terms@);
    if post.search_term_selected != pre.search_term_selected {
        crate::ordered_set::lemma_sorted_distinct(
            pre.search_terms@,
            pre.search_term_selected as int,
            post.search_term_selected as int,
        );
    }
}

} // verus!
