//! A set of names kept as a strictly sorted vector.
//!
//! The registry must iterate its type names, field names and header paths
//! in a deterministic order, whatever the order in which the declaration
//! events arrived.  `NameList` therefore keeps its entries strictly sorted
//! lexicographically and without duplicates; `lemma_sorted_same_elements_equal`
//! shows that this representation is canonical: two well-formed lists with
//! the same elements are the same sequence.

use vstd::prelude::*;
use vstd::string::StringExecFns;

use crate::text::{lex_lt, lemma_lex_asymmetric, lemma_lex_connected, lemma_lex_irreflexive,
    lemma_lex_transitive, str_eq, str_lt};

verus! {

/// Every pair of entries is ordered; in particular there are no duplicates.
pub open spec fn strictly_sorted(s: Seq<Seq<char>>) -> bool {
    forall|i: int, j: int| 0 <= i < j < s.len() ==> lex_lt(s[i], s[j])
}

/// A strictly sorted sequence is determined by the set of its elements.
pub proof fn lemma_sorted_same_elements_equal(x: Seq<Seq<char>>, y: Seq<Seq<char>>)
    requires
        strictly_sorted(x),
        strictly_sorted(y),
        forall|e: Seq<char>| x.contains(e) <==> y.contains(e),
    ensures
        x == y,
    decreases x.len(),
{
    if x.len() == 0 {
        if y.len() > 0 {
            assert(y.contains(y[0]));
            assert(false);
        }
        assert(x =~= y);
    } else {
        assert(x.contains(x[0]));
        assert(y.contains(x[0]));
        let j = choose|j: int| 0 <= j < y.len() && y[j] == x[0];
        assert(y.contains(y[0]));
        assert(x.contains(y[0]));
        let i = choose|i: int| 0 <= i < x.len() && x[i] == y[0];
        if i > 0 && j > 0 {
            assert(lex_lt(x[0], x[i]));
            assert(lex_lt(y[0], y[j]));
            lemma_lex_asymmetric(x[0], y[0]);
            assert(false);
        } else if i > 0 {
            // j == 0, so y[0] == x[0], yet i > 0 gives lex_lt(x[0], y[0])
            assert(lex_lt(x[0], x[i]));
            lemma_lex_irreflexive(x[0]);
            assert(false);
        } else if j > 0 {
            assert(lex_lt(y[0], y[j]));
            lemma_lex_irreflexive(y[0]);
            assert(false);
        }
        assert(x[0] == y[0]);

        let xt = x.drop_first();
        let yt = y.drop_first();
        assert forall|p: int, q: int| 0 <= p < q < xt.len() implies lex_lt(xt[p], xt[q]) by {
            assert(xt[p] == x[p + 1]);
            assert(xt[q] == x[q + 1]);
        }
        assert forall|p: int, q: int| 0 <= p < q < yt.len() implies lex_lt(yt[p], yt[q]) by {
            assert(yt[p] == y[p + 1]);
            assert(yt[q] == y[q + 1]);
        }
        assert forall|e: Seq<char>| xt.contains(e) implies (x.contains(e) && e != x[0]) by {
            let k = choose|k: int| 0 <= k < xt.len() && xt[k] == e;
            assert(x[k + 1] == e);
            assert(lex_lt(x[0], x[k + 1]));
            lemma_lex_irreflexive(x[0]);
        }
        assert forall|e: Seq<char>| x.contains(e) && e != x[0] implies xt.contains(e) by {
            let k = choose|k: int| 0 <= k < x.len() && x[k] == e;
            assert(k != 0);
            assert(xt[k - 1] == e);
        }
        assert forall|e: Seq<char>| yt.contains(e) implies (y.contains(e) && e != y[0]) by {
            let k = choose|k: int| 0 <= k < yt.len() && yt[k] == e;
            assert(y[k + 1] == e);
            assert(lex_lt(y[0], y[k + 1]));
            lemma_lex_irreflexive(y[0]);
        }
        assert forall|e: Seq<char>| y.contains(e) && e != y[0] implies yt.contains(e) by {
            let k = choose|k: int| 0 <= k < y.len() && y[k] == e;
            assert(k != 0);
            assert(yt[k - 1] == e);
        }
        assert(forall|e: Seq<char>| xt.contains(e) <==> yt.contains(e));
        lemma_sorted_same_elements_equal(xt, yt);
        assert(x.len() == y.len());
        assert forall|k: int| 0 <= k < x.len() implies x[k] == y[k] by {
            if k > 0 {
                assert(x[k] == xt[k - 1]);
                assert(y[k] == yt[k - 1]);
            }
        }
        assert(x =~= y);
    }
}

/// A deduplicated collection of names, iterated in lexicographic order.
#[derive(Debug)]
pub struct NameList {
    items: Vec<String>,
}

impl View for NameList {
    type V = Seq<Seq<char>>;

    closed spec fn view(&self) -> Seq<Seq<char>> {
        self.items@.map_values(|s: String| s@)
    }
}

impl NameList {
    pub open spec fn wf(&self) -> bool {
        strictly_sorted(self@)
    }

    pub fn new() -> (r: NameList)
        ensures
            r@ == Seq::<Seq<char>>::empty(),
            r.wf(),
    {
        let r = NameList { items: Vec::new() };
        proof {
            assert(r@ =~= Seq::<Seq<char>>::empty());
        }
        r
    }

    pub fn len(&self) -> (n: usize)
        ensures
            n == self@.len(),
    {
        self.items.len()
    }

    pub fn get(&self, i: usize) -> (r: &str)
        requires
            i < self@.len(),
        ensures
            r@ == self@[i as int],
    {
        self.items[i].as_str()
    }

    pub fn contains(&self, s: &str) -> (r: bool)
        ensures
            r == self@.contains(s@),
    {
        let n = self.items.len();
        let mut i: usize = 0;
        while i < n
            invariant
                i <= n,
                n == self@.len(),
                forall|k: int| 0 <= k < i ==> self@[k] != s@,
            decreases n - i,
        {
            if str_eq(self.items[i].as_str(), s) {
                assert(self@[i as int] == s@);
                return true;
            }
            i = i + 1;
        }
        false
    }

    /// Inserts a name, keeping the list sorted; inserting a name that is
    /// already present leaves the list unchanged.
    pub fn insert(&mut self, s: &str)
        requires
            old(self).wf(),
        ensures
            final(self).wf(),
            forall|e: Seq<char>|
                final(self)@.contains(e) <==> (old(self)@.contains(e) || e == s@),
    {
        let ghost prev = self@;
        let n = self.items.len();
        let mut i: usize = 0;
        while i < n && str_lt(self.items[i].as_str(), s)
            invariant
                i <= n,
                n == self@.len(),
                self@ == prev,
                forall|k: int| 0 <= k < i ==> lex_lt(self@[k], s@),
            decreases n - i,
        {
            i = i + 1;
        }
        // every entry before position i is below s; entry i (if any) is not
        if i < n && str_eq(self.items[i].as_str(), s) {
            // already present: nothing to do
            assert(self@.contains(s@)) by {
                assert(self@[i as int] == s@);
            }
            return;
        }
        proof {
            if i < n {
                lemma_lex_connected(prev[i as int], s@);
                assert(lex_lt(s@, prev[i as int]));
            }
        }
        let ghost prev_items = self.items@;
        let t = String::from_str(s);
        self.items.insert(i, t);
        proof {
            prev_items.insert_ensures(i as int, t);
            let cur = self@;
            assert(cur.len() == prev.len() + 1);
            assert forall|k: int| 0 <= k < cur.len() implies cur[k] == (if k < i {
                prev[k]
            } else if k == i {
                s@
            } else {
                prev[k - 1]
            }) by {
                assert(cur[k] == self.items@[k]@);
                if k < i {
                    assert(self.items@[k] == prev_items[k]);
                    assert(prev[k] == prev_items[k]@);
                } else if k > i {
                    assert(self.items@[(k - 1) + 1] == prev_items[k - 1]);
                    assert(prev[k - 1] == prev_items[k - 1]@);
                }
            }
            assert forall|p: int, q: int| 0 <= p < q < cur.len() implies lex_lt(
                cur[p],
                cur[q],
            ) by {
                if q < i {
                    assert(lex_lt(prev[p], prev[q]));
                } else if p < i && q == i {
                    assert(lex_lt(prev[p], s@));
                } else if p < i && q > i {
                    assert(p < q - 1);
                    assert(lex_lt(prev[p], prev[q - 1]));
                } else if p == i {
                    assert(lex_lt(s@, prev[i as int]));
                    if q - 1 > i {
                        lemma_lex_transitive(s@, prev[i as int], prev[q - 1]);
                    }
                } else {
                    assert(lex_lt(prev[p - 1], prev[q - 1]));
                }
            }
            assert forall|e: Seq<char>| cur.contains(e) implies (prev.contains(e) || e == s@) by {
                let k = choose|k: int| 0 <= k < cur.len() && cur[k] == e;
                if k < i {
                    assert(prev[k] == e);
                } else if k > i {
                    assert(prev[k - 1] == e);
                }
            }
            assert forall|e: Seq<char>| prev.contains(e) implies cur.contains(e) by {
                let k = choose|k: int| 0 <= k < prev.len() && prev[k] == e;
                if k < i {
                    assert(cur[k] == e);
                } else {
                    assert(cur[k + 1] == e);
                }
            }
            assert(cur.contains(s@)) by {
                assert(cur[i as int] == s@);
            }
        }
    }
}

} // verus!
