//! A deduplicated set of strings kept in strict lexicographic order.
//!
//! Search terms and result lines are observable as ordered sets: iteration
//! is deterministic and two insertion histories with the same members are
//! indistinguishable. The set is a sorted vector without duplicates.
use vstd::prelude::*;
use crate::strings::{
    lex_lt, str_eq, str_lt, lemma_lex_lt_asym, lemma_lex_lt_irrefl, lemma_lex_lt_trans,
    lemma_lex_lt_trichotomy,
};

verus! {

/// Whether the sequence is strictly sorted in lexicographic order.
pub open spec fn sorted_strs(s: Seq<Seq<char>>) -> bool {
    forall|i: int, j: int| 0 <= i < j < s.len() ==> #[trigger] lex_lt(s[i], s[j])
}

/// Whether `x` is a member of the sequence.
pub open spec fn mem_str(s: Seq<Seq<char>>, x: Seq<char>) -> bool {
    exists|i: int| 0 <= i < s.len() && #[trigger] s[i] == x
}

/// What inserting `x` leaves behind: membership grows by `x`, order and
/// deduplication are kept.
pub open spec fn insert_post(pre: Seq<Seq<char>>, post: Seq<Seq<char>>, x: Seq<char>) -> bool {
    &&& forall|y: Seq<char>| #[trigger] mem_str(post, y) <==> mem_str(pre, y) || y == x
    &&& sorted_strs(post)
    &&& post.len() == if mem_str(pre, x) {
        pre.len()
    } else {
        pre.len() + 1
    }
}

/// What removing `x` leaves behind: membership shrinks by `x`, order is kept.
pub open spec fn remove_post(pre: Seq<Seq<char>>, post: Seq<Seq<char>>, x: Seq<char>) -> bool {
    &&& forall|y: Seq<char>| #[trigger] mem_str(post, y) <==> mem_str(pre, y) && y != x
    &&& sorted_strs(post)
    &&& post.len() == if mem_str(pre, x) {
        (pre.len() - 1) as nat
    } else {
        pre.len()
    }
}

/// A strictly sorted sequence has no duplicate members.
pub proof fn lemma_sorted_distinct(s: Seq<Seq<char>>, i: int, j: int)
    requires
        sorted_strs(s),
        0 <= i < s.len(),
        0 <= j < s.len(),
        i != j,
    ensures
        s[i] != s[j],
{
    if i < j {
        assert(lex_lt(s[i], s[j]));
        if s[i] == s[j] {
            lemma_lex_lt_irrefl(s[i]);
        }
    } else {
        assert(lex_lt(s[j], s[i]));
        if s[i] == s[j] {
            lemma_lex_lt_irrefl(s[i]);
        }
    }
}

/// Two strictly sorted sequences with the same members are the same
/// sequence: the observable contents determine the whole state.
pub proof fn lemma_sorted_same_members(a: Seq<Seq<char>>, b: Seq<Seq<char>>)
    requires
        sorted_strs(a),
        sorted_strs(b),
        forall|y: Seq<char>| #[trigger] mem_str(a, y) <==> mem_str(b, y),
    ensures
        a == b,
    decreases a.len(),
{
    if a.len() == 0 && b.len() == 0 {
        assert(a =~= b);
    } else if a.len() == 0 {
        assert(mem_str(b, b[0]));
        assert(mem_str(a, b[0]));
    } else if b.len() == 0 {
        assert(mem_str(a, a[0]));
        assert(mem_str(b, a[0]));
    } else {
        assert(mem_str(a, a[0]));
        assert(mem_str(b, b[0]));
        assert(mem_str(b, a[0]));
        assert(mem_str(a, b[0]));
        let ja = choose|j: int| 0 <= j < b.len() && #[trigger] b[j] == a[0];
        let jb = choose|j: int| 0 <= j < a.len() && #[trigger] a[j] == b[0];
        if ja > 0 {
            assert(lex_lt(b[0], b[ja]));
        }
        if jb > 0 {
            assert(lex_lt(a[0], a[jb]));
        }
        if a[0] != b[0] {
            assert(lex_lt(b[0], a[0]) && lex_lt(a[0], b[0]));
            lemma_lex_lt_asym(a[0], b[0]);
        }
        let at = a.drop_first();
        let bt = b.drop_first();
        assert forall|i: int, j: int| 0 <= i < j < at.len() implies #[trigger] lex_lt(
            at[i],
            at[j],
        ) by {
            assert(at[i] == a[i + 1] && at[j] == a[j + 1]);
        }
        assert forall|i: int, j: int| 0 <= i < j < bt.len() implies #[trigger] lex_lt(
            bt[i],
            bt[j],
        ) by {
            assert(bt[i] == b[i + 1] && bt[j] == b[j + 1]);
        }
        assert forall|y: Seq<char>| #[trigger] mem_str(at, y) implies mem_str(bt, y) by {
            let w = choose|w: int| 0 <= w < at.len() && #[trigger] at[w] == y;
            assert(a[w + 1] == y);
            assert(mem_str(a, y));
            assert(lex_lt(a[0], a[w + 1]));
            if y == a[0] {
                lemma_lex_lt_irrefl(a[0]);
            }
            assert(mem_str(b, y));
            let v = choose|v: int| 0 <= v < b.len() && #[trigger] b[v] == y;
            if v == 0 {
                assert(y == b[0]);
            }
            assert(bt[v - 1] == y);
        }
        assert forall|y: Seq<char>| #[trigger] mem_str(bt, y) implies mem_str(at, y) by {
            let w = choose|w: int| 0 <= w < bt.len() && #[trigger] bt[w] == y;
            assert(b[w + 1] == y);
            assert(mem_str(b, y));
            assert(lex_lt(b[0], b[w + 1]));
            if y == b[0] {
                lemma_lex_lt_irrefl(b[0]);
            }
            assert(mem_str(a, y));
            let v = choose|v: int| 0 <= v < a.len() && #[trigger] a[v] == y;
            if v == 0 {
                assert(y == a[0]);
            }
            assert(at[v - 1] == y);
        }
        lemma_sorted_same_members(at, bt);
        assert forall|j: int| 0 <= j < a.len() implies a[j] == b[j] by {
            if j > 0 {
                assert(a[j] == at[j - 1] && b[j] == bt[j - 1]);
            }
        }
        assert(a =~= b);
    }
}

/// Order between every adjacent pair spans to every pair.
proof fn lemma_lex_lt_span(s: Seq<Seq<char>>, i: int, j: int)
    requires
        forall|k: int| 0 <= k < s.len() - 1 ==> lex_lt(#[trigger] s[k], s[k + 1]),
        0 <= i < j < s.len(),
    ensures
        lex_lt(s[i], s[j]),
    decreases j - i,
{
    if j == i + 1 {
        assert(lex_lt(s[i], s[i + 1]));
    } else {
        lemma_lex_lt_span(s, i, j - 1);
        assert(lex_lt(s[j - 1], s[j]));
        lemma_lex_lt_trans(s[i], s[j - 1], s[j]);
    }
}

/// A deduplicated, strictly sorted set of strings.
#[derive(Clone)]
pub struct OrderedStringSet {
    pub items: Vec<String>,
}

impl View for OrderedStringSet {
    type V = Seq<Seq<char>>;

    open spec fn view(&self) -> Seq<Seq<char>> {
        self.items@.map(|i: int, s: String| s@)
    }
}

impl OrderedStringSet {
    /// The set's invariant: strictly sorted, hence deduplicated.
    pub open spec fn wf(self) -> bool {
        sorted_strs(self@)
    }

    /// Whether `x` is in the set.
    pub open spec fn spec_contains(self, x: Seq<char>) -> bool {
        mem_str(self@, x)
    }

    /// The empty set.
    pub fn new() -> (r: OrderedStringSet)
        ensures
            r@ == Seq::<Seq<char>>::empty(),
            r.wf(),
    {
        let r = OrderedStringSet { items: Vec::new() };
        proof {
            assert(r@ =~= Seq::<Seq<char>>::empty());
        }
        r
    }

    /// The number of members.
    pub fn len(&self) -> (r: usize)
        ensures
            r == self@.len(),
    {
        self.items.len()
    }

    /// The member at position `i` in sorted order.
    pub fn get(&self, i: usize) -> (r: &String)
        requires
            i < self@.len(),
        ensures
            r@ == self@[i as int],
    {
        &self.items[i]
    }


    /// Decide whether the set's invariant holds of this value.
    pub fn check_sorted(&self) -> (r: bool)
        ensures
            r == self.wf(),
    {
        let n = self.items.len();
        let mut i: usize = 1;
        while i < n
            invariant
                n == self@.len(),
                1 <= i || n == 0,
                i <= n || n == 0,
                forall|k: int| 0 <= k < i - 1 ==> lex_lt(#[trigger] self@[k], self@[k + 1]),
            decreases n - i,
        {
            if !str_lt(self.items[i - 1].as_str(), self.items[i].as_str()) {
                proof {
                    if sorted_strs(self@) {
                        assert(lex_lt(self@[i - 1], self@[i as int]));
                    }
                }
                return false;
            }
            i = i + 1;
        }
        proof {
            assert forall|a: int, b: int| 0 <= a < b < self@.len() implies #[trigger] lex_lt(
                self@[a],
                self@[b],
            ) by {
                lemma_lex_lt_span(self@, a, b);
            }
        }
        true
    }

    /// The position of `x` in sorted order, if it is a member.
    pub fn index_of(&self, x: &str) -> (r: Option<usize>)
        ensures
            match r {
                Some(i) => i < self@.len() && self@[i as int] == x@,
                None => !self.spec_contains(x@),
            },
    {
        let n = self.items.len();
        let mut i: usize = 0;
        while i < n
            invariant
                n == self@.len(),
                i <= n,
                forall|k: int| 0 <= k < i ==> #[trigger] self@[k] != x@,
            decreases n - i,
        {
            if str_eq(self.items[i].as_str(), x) {
                return Some(i);
            }
            i = i + 1;
        }
        proof {
            if self.spec_contains(x@) {
                let w = choose|w: int| 0 <= w < self@.len() && #[trigger] self@[w] == x@;
                assert(self@[w] != x@);
            }
        }
        None
    }

    /// Whether `x` is in the set.
    pub fn contains(&self, x: &str) -> (r: bool)
        ensures
            r == self.spec_contains(x@),
    {
        match self.index_of(x) {
            Some(_) => true,
            None => false,
        }
    }

    /// Insert `x`, keeping order; a member inserted again changes nothing.
    pub fn insert(&mut self, x: String)
        requires
            old(self).wf(),
        ensures
            final(self).wf(),
            insert_post(old(self)@, final(self)@, x@),
            final(self).spec_contains(x@),
    {
        let ghost pre = self@;
        let n = self.items.len();
        let mut pos: usize = 0;
        while pos < n && str_lt(self.items[pos].as_str(), x.as_str())
            invariant
                self == old(self),
                n == self@.len(),
                pos <= n,
                forall|k: int| 0 <= k < pos ==> lex_lt(#[trigger] self@[k], x@),
            decreases n - pos,
        {
            pos = pos + 1;
        }
        if pos < n && str_eq(self.items[pos].as_str(), x.as_str()) {
            proof {
                assert(self@[pos as int] == x@);
                assert(mem_str(pre, x@));
                assert forall|y: Seq<char>| #[trigger] mem_str(self@, y) <==> mem_str(pre, y) || y
                    == x@ by {
                    if y == x@ {
                        assert(mem_str(self@, y));
                    }
                }
            }
            return ;
        }
        proof {
            if pos < n {
                assert(!lex_lt(self@[pos as int], x@));
                assert(self@[pos as int] != x@);
                lemma_lex_lt_trichotomy(self@[pos as int], x@);
                assert(lex_lt(x@, self@[pos as int]));
            }
            if mem_str(pre, x@) {
                let w = choose|w: int| 0 <= w < pre.len() && #[trigger] pre[w] == x@;
                if w < pos {
                    lemma_lex_lt_irrefl(x@);
                } else {
                    assert(!lex_lt(pre[pos as int], x@));
                    if w > pos {
                        assert(lex_lt(pre[pos as int], pre[w]));
                    }
                }
            }
        }
        self.items.insert(pos, x);
        proof {
            let post = self@;
            assert(post =~= pre.insert(pos as int, x@));
            assert forall|i: int, j: int| 0 <= i < j < post.len() implies #[trigger] lex_lt(
                post[i],
                post[j],
            ) by {
                let p = pos as int;
                if i < p && j < p {
                    assert(post[i] == pre[i] && post[j] == pre[j]);
                } else if i < p && j == p {
                    assert(post[i] == pre[i] && post[j] == x@);
                } else if i < p && j > p {
                    assert(post[i] == pre[i] && post[j] == pre[j - 1]);
                    if i == j - 1 {
                        assert(lex_lt(pre[i], x@) && lex_lt(x@, pre[j - 1]));
                        lemma_lex_lt_trans(pre[i], x@, pre[j - 1]);
                    }
                } else if i == p && j > p {
                    assert(post[i] == x@ && post[j] == pre[j - 1]);
                    if j - 1 > p {
                        assert(lex_lt(x@, pre[p]) && lex_lt(pre[p], pre[j - 1]));
                        lemma_lex_lt_trans(x@, pre[p], pre[j - 1]);
                    }
                } else {
                    assert(post[i] == pre[i - 1] && post[j] == pre[j - 1]);
                }
            }
            assert forall|y: Seq<char>| #[trigger] mem_str(post, y) <==> mem_str(pre, y) || y
                == x@ by {
                let p = pos as int;
                if mem_str(pre, y) {
                    let w = choose|w: int| 0 <= w < pre.len() && #[trigger] pre[w] == y;
                    if w < p {
                        assert(post[w] == y);
                    } else {
                        assert(post[w + 1] == y);
                    }
                    assert(mem_str(post, y));
                }
                if y == x@ {
                    assert(post[p] == y);
                    assert(mem_str(post, y));
                }
                if mem_str(post, y) {
                    let w = choose|w: int| 0 <= w < post.len() && #[trigger] post[w] == y;
                    if w < p {
                        assert(pre[w] == y);
                        assert(mem_str(pre, y));
                    } else if w == p {
                        assert(y == x@);
                    } else {
                        assert(pre[w - 1] == y);
                        assert(mem_str(pre, y));
                    }
                }
            }
        }
    }

    /// Remove `x` if it is a member; order among the rest is kept.
    pub fn remove(&mut self, x: &str)
        requires
            old(self).wf(),
        ensures
            final(self).wf(),
            remove_post(old(self)@, final(self)@, x@),
    {
        let ghost pre = self@;
        match self.index_of(x) {
            None => {
                proof {
                    assert forall|y: Seq<char>| #[trigger] mem_str(self@, y) <==> mem_str(pre, y)
                        && y != x@ by {
                        if mem_str(pre, y) && y == x@ {
                            assert(!mem_str(pre, x@));
                        }
                    }
                }
            },
            Some(i) => {
                self.items.remove(i);
                proof {
                    let p = i as int;
                    let post = self@;
                    assert(post =~= pre.remove(p));
                    assert forall|a: int, b: int| 0 <= a < b < post.len() implies #[trigger] lex_lt(
                        post[a],
                        post[b],
                    ) by {
                        let oa = if a < p {
                            a
                        } else {
                            a + 1
                        };
                        let ob = if b < p {
                            b
                        } else {
                            b + 1
                        };
                        assert(post[a] == pre[oa] && post[b] == pre[ob]);
                    }
                    assert forall|y: Seq<char>| #[trigger] mem_str(post, y) <==> mem_str(pre, y)
                        && y != x@ by {
                        if mem_str(post, y) {
                            let w = choose|w: int| 0 <= w < post.len() && #[trigger] post[w] == y;
                            let ow = if w < p {
                                w
                            } else {
                                w + 1
                            };
                            assert(pre[ow] == y);
                            assert(mem_str(pre, y));
                            if y == x@ {
                                lemma_sorted_distinct(pre, ow, p);
                            }
                        }
                        if mem_str(pre, y) && y != x@ {
                            let w = choose|w: int| 0 <= w < pre.len() && #[trigger] pre[w] == y;
                            if w < p {
                                assert(post[w] == y);
                            } else {
                                assert(w != p);
                                assert(post[w - 1] == y);
                            }
                            assert(mem_str(post, y));
                        }
                    }
                    assert(mem_str(pre, x@));
                }
            },
        }
    }
}

} // verus!
