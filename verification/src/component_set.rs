//! A set of component names, kept in order.

use crate::text::{
    comes_before, lemma_text_less_irreflexive, lemma_text_less_total, lemma_text_less_transitive,
    same_text, text_less,
};
use vstd::prelude::*;

verus! {

/// A set of names.
#[derive(Debug, PartialEq, Eq)]
pub struct ComponentSet {
    names: Vec<String>,
}

/// The texts in the strings.
pub open spec fn texts(strings: Seq<String>) -> Seq<Seq<char>> {
    strings.map_values(|s: String| s@)
}

/// Each text comes before those that follow, so none occurs twice.
pub open spec fn ascending(names: Seq<Seq<char>>) -> bool {
    forall|i: int, j: int| 0 <= i < j < names.len() ==> #[trigger] text_less(names[i], names[j])
}

impl View for ComponentSet {
    type V = Seq<Seq<char>>;

    closed spec fn view(&self) -> Seq<Seq<char>> {
        texts(self.names@)
    }
}

impl ComponentSet {
    /// The names are in order and none occurs twice.
    pub open spec fn wf(&self) -> bool {
        ascending(self@)
    }

    /// The set of these names.
    pub fn from_names(names: &Vec<String>) -> (r: Self)
        ensures
            r.wf(),
            forall|name: Seq<char>| #[trigger]
                r@.contains(name) <==> texts(names@).contains(name),
    {
        let mut set = ComponentSet { names: Vec::new() };
        let mut i: usize = 0;
        while i < names.len()
            invariant
                set.wf(),
                i <= names.len(),
                forall|name: Seq<char>| #[trigger]
                    set@.contains(name) <==> texts(names@).take(i as int).contains(name),
            decreases names.len() - i,
        {
            let ghost before = set@;
            set.insert(names[i].as_str());
            proof {
                let all = texts(names@);
                assert forall|name: Seq<char>| #[trigger]
                    set@.contains(name) <==> all.take(i + 1).contains(name) by {
                    assert(all.take(i + 1) =~= all.take(i as int).push(all[i as int]));
                    if all.take(i as int).contains(name) {
                        let k = choose|k: int| 0 <= k < i && all.take(i as int)[k] == name;
                        assert(all.take(i + 1)[k] == name);
                    }
                    if name == all[i as int] {
                        assert(all.take(i + 1)[i as int] == name);
                    }
                    assert(before.contains(name) <==> all.take(i as int).contains(name));
                }
            }
            i += 1;
        }
        assert(texts(names@).take(i as int) =~= texts(names@));
        set
    }

    /// Where the name is or would have to stand.
    fn position(&self, name: &str) -> (r: usize)
        requires
            self.wf(),
        ensures
            r <= self@.len(),
            forall|i: int| 0 <= i < r ==> text_less(#[trigger] self@[i], name@),
            forall|i: int|
                r <= i < self@.len() ==> #[trigger] self@[i] == name@ || text_less(name@, self@[i]),
    {
        let mut i: usize = 0;
        while i < self.names.len()
            invariant
                self.wf(),
                i <= self.names.len(),
                forall|j: int| 0 <= j < i ==> text_less(#[trigger] self@[j], name@),
            decreases self.names.len() - i,
        {
            assert(self@[i as int] == self.names@[i as int]@);
            if !comes_before(self.names[i].as_str(), name) {
                proof {
                    let here = self@[i as int];
                    lemma_text_less_total(here, name@);
                    assert forall|j: int| i <= j < self@.len() implies #[trigger] self@[j] == name@
                        || text_less(name@, self@[j]) by {
                        if j > i {
                            assert(text_less(here, self@[j]));
                            if here != name@ {
                                lemma_text_less_transitive(name@, here, self@[j]);
                            }
                        }
                    }
                }
                return i;
            }
            i += 1;
        }
        i
    }

    /// Adds a name, if it is not there yet.
    pub fn insert(&mut self, name: &str)
        requires
            old(self).wf(),
        ensures
            final(self).wf(),
            forall|other: Seq<char>| #[trigger]
                final(self)@.contains(other) <==> old(self)@.contains(other) || other == name@,
    {
        let ghost before = self@;
        let at: usize = self.position(name);
        if at < self.names.len() {
            assert(self@[at as int] == self.names@[at as int]@);
            if same_text(self.names[at].as_str(), name) {
                assert(before.contains(before[at as int]));
                return;
            }
        }
        self.names.insert(at, name.to_owned());
        proof {
            let after = self@;
            assert(after =~= before.insert(at as int, name@));
            assert forall|i: int, j: int| 0 <= i < j < after.len() implies #[trigger] text_less(
                after[i],
                after[j],
            ) by {
                if j < at {
                    assert(text_less(before[i], before[j]));
                } else if i < at && j == at {
                    assert(text_less(before[i], name@));
                } else if i < at {
                    assert(text_less(before[i], before[j - 1]));
                } else if i == at {
                    assert(before[j - 1] == name@ || text_less(name@, before[j - 1]));
                    if before[j - 1] == name@ && j - 1 > at {
                        assert(text_less(before[at as int], before[j - 1]));
                        assert(before[at as int] == name@ || text_less(name@, before[at as int]));
                        lemma_text_less_transitive(name@, before[at as int], name@);
                        lemma_text_less_irreflexive(name@);
                    }
                } else {
                    assert(text_less(before[i - 1], before[j - 1]));
                }
            }
            assert forall|other: Seq<char>| #[trigger]
                after.contains(other) <==> before.contains(other) || other == name@ by {
                if before.contains(other) {
                    let k = choose|k: int| 0 <= k < before.len() && before[k] == other;
                    if k < at {
                        assert(after[k] == other);
                    } else {
                        assert(after[k + 1] == other);
                    }
                }
                if other == name@ {
                    assert(after[at as int] == other);
                }
                if after.contains(other) {
                    let k = choose|k: int| 0 <= k < after.len() && after[k] == other;
                    if k < at {
                        assert(before[k] == other);
                    } else if k > at {
                        assert(before[k - 1] == other);
                    }
                }
            }
        }
    }

    /// Takes a name out. The result tells whether it was there.
    pub fn remove(&mut self, name: &str) -> (r: bool)
        requires
            old(self).wf(),
        ensures
            final(self).wf(),
            r == old(self)@.contains(name@),
            forall|other: Seq<char>| #[trigger]
                final(self)@.contains(other) <==> old(self)@.contains(other) && other != name@,
    {
        let ghost before = self@;
        let at: usize = self.position(name);
        proof {
            lemma_text_less_irreflexive(name@);
        }
        if at < self.names.len() {
            assert(before[at as int] == self.names@[at as int]@);
            if same_text(self.names[at].as_str(), name) {
                self.names.remove(at);
                proof {
                    let after = self@;
                    assert(after =~= before.remove(at as int));
                    assert(before.contains(before[at as int]));
                    assert forall|i: int, j: int|
                        0 <= i < j < after.len() implies #[trigger] text_less(
                        after[i],
                        after[j],
                    ) by {
                        let k = if i < at { i } else { i + 1 };
                        let l = if j < at { j } else { j + 1 };
                        assert(text_less(before[k], before[l]));
                    }
                    assert forall|other: Seq<char>| #[trigger]
                        after.contains(other) <==> before.contains(other) && other != name@ by {
                        if before.contains(other) && other != name@ {
                            let k = choose|k: int| 0 <= k < before.len() && before[k] == other;
                            if k < at {
                                assert(after[k] == other);
                            } else {
                                assert(after[k - 1] == other);
                            }
                        }
                        if after.contains(other) {
                            let k = choose|k: int| 0 <= k < after.len() && after[k] == other;
                            let l = if k < at { k } else { k + 1 };
                            assert(before[l] == other);
                            if k < at {
                                assert(text_less(before[l], before[at as int]));
                            } else {
                                assert(text_less(before[at as int], before[l]));
                            }
                        }
                    }
                }
                return true;
            }
        }
        proof {
            if before.contains(name@) {
                let k = choose|k: int| 0 <= k < before.len() && before[k] == name@;
                if k < at {
                    assert(text_less(before[k], name@));
                } else if k > at {
                    assert(text_less(before[at as int], before[k]));
                    assert(text_less(name@, before[at as int]));
                    lemma_text_less_transitive(name@, before[at as int], name@);
                }
            }
        }
        false
    }

    /// The names, in order.
    pub fn into_names(self) -> (r: Vec<String>)
        ensures
            texts(r@) == self@,
    {
        self.names
    }
}

/// Two sets with the same names hold them in the same order.
pub proof fn lemma_names_are_in_one_order(a: Seq<Seq<char>>, b: Seq<Seq<char>>)
    requires
        ascending(a),
        ascending(b),
        forall|name: Seq<char>| #[trigger] a.contains(name) <==> b.contains(name),
    ensures
        a == b,
    decreases a.len(),
{
    if a.len() == 0 {
        if b.len() > 0 {
            assert(b.contains(b[0]));
            assert(a.contains(b[0]));
        }
        assert(a =~= b);
    } else {
        assert(a.contains(a.last()));
        let k = choose|k: int| 0 <= k < b.len() && b[k] == a.last();
        assert(b.contains(b.last()));
        assert(a.contains(b.last()));
        let l = choose|l: int| 0 <= l < a.len() && a[l] == b.last();
        lemma_text_less_irreflexive(a.last());
        if k < b.len() - 1 && l < a.len() - 1 {
            assert(text_less(b[k], b.last()));
            assert(text_less(a[l], a.last()));
            lemma_text_less_transitive(a.last(), b.last(), a.last());
        }
        assert(a.last() == b.last());
        let c = a.drop_last();
        let d = b.drop_last();
        assert(ascending(c)) by {
            assert forall|i: int, j: int| 0 <= i < j < c.len() implies #[trigger] text_less(
                c[i],
                c[j],
            ) by {
                assert(text_less(a[i], a[j]));
            }
        }
        assert(ascending(d)) by {
            assert forall|i: int, j: int| 0 <= i < j < d.len() implies #[trigger] text_less(
                d[i],
                d[j],
            ) by {
                assert(text_less(b[i], b[j]));
            }
        }
        assert forall|name: Seq<char>| #[trigger] c.contains(name) <==> d.contains(name) by {
            if c.contains(name) {
                let m = choose|m: int| 0 <= m < c.len() && c[m] == name;
                assert(a[m] == name);
                assert(text_less(a[m], a.last()));
                assert(a.contains(name));
                let n = choose|n: int| 0 <= n < b.len() && b[n] == name;
                assert(d[n] == name);
            }
            if d.contains(name) {
                let m = choose|m: int| 0 <= m < d.len() && d[m] == name;
                assert(b[m] == name);
                assert(text_less(b[m], b.last()));
                assert(b.contains(name));
                assert(a.contains(name));
                let n = choose|n: int| 0 <= n < a.len() && a[n] == name;
                assert(c[n] == name);
            }
        }
        lemma_names_are_in_one_order(c, d);
        assert(a =~= c.push(a.last()));
        assert(b =~= d.push(b.last()));
    }
}

} // verus!
