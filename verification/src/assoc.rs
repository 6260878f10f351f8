//! A small map from names to values.

use vstd::prelude::*;

use crate::text::same_text;

verus! {

/// A map from names to values. No name occurs twice.
#[derive(Debug)]
pub struct TextMap<V> {
    list: Vec<(String, V)>,
}

spec fn holds<V>(list: Seq<(String, V)>, key: Seq<char>) -> bool {
    exists|i: int| 0 <= i < list.len() && (#[trigger] list[i]).0@ == key
}

spec fn place<V>(list: Seq<(String, V)>, key: Seq<char>) -> int {
    choose|i: int| 0 <= i < list.len() && (#[trigger] list[i]).0@ == key
}

spec fn distinct<V>(list: Seq<(String, V)>) -> bool {
    forall|i: int, j: int|
        0 <= i < j < list.len() ==> (#[trigger] list[i]).0@ != (#[trigger] list[j]).0@
}

spec fn as_map<V>(list: Seq<(String, V)>) -> Map<Seq<char>, V> {
    Map::new(|k: Seq<char>| holds(list, k), |k: Seq<char>| list[place(list, k)].1)
}

proof fn lemma_at<V>(list: Seq<(String, V)>, i: int)
    requires
        distinct(list),
        0 <= i < list.len(),
    ensures
        as_map(list).contains_key(list[i].0@),
        as_map(list)[list[i].0@] == list[i].1,
{
    let k = list[i].0@;
    assert(holds(list, k));
    let j = place(list, k);
    assert(0 <= j < list.len() && list[j].0@ == k);
    if j < i {
        assert(list[j].0@ != list[i].0@);
    } else if i < j {
        assert(list[i].0@ != list[j].0@);
    }
}

impl<V> View for TextMap<V> {
    type V = Map<Seq<char>, V>;

    closed spec fn view(&self) -> Map<Seq<char>, V> {
        as_map(self.list@)
    }
}

impl<V> TextMap<V> {
    pub closed spec fn wf(&self) -> bool {
        distinct(self.list@)
    }

    /// A map that holds nothing.
    pub fn new() -> (m: Self)
        ensures
            m.wf(),
            m@ == Map::<Seq<char>, V>::empty(),
    {
        let m = TextMap { list: Vec::new() };
        assert(m@ =~= Map::<Seq<char>, V>::empty());
        m
    }

    fn find(&self, key: &str) -> (at: usize)
        requires
            self.wf(),
        ensures
            at <= self.list@.len(),
            at < self.list@.len() ==> self.list@[at as int].0@ == key@,
            at < self.list@.len() <==> self@.contains_key(key@),
    {
        let n: usize = self.list.len();
        let mut at: usize = 0;
        while at < n && !same_text(self.list[at].0.as_str(), key)
            invariant
                at <= n == self.list@.len(),
                forall|i: int| 0 <= i < at ==> (#[trigger] self.list@[i]).0@ != key@,
            decreases n - at,
        {
            at += 1;
        }
        proof {
            if at < n {
                lemma_at(self.list@, at as int);
            }
        }
        at
    }

    /// Takes a name's value out.
    pub fn remove(&mut self, key: &str) -> (r: Option<V>)
        requires
            old(self).wf(),
        ensures
            final(self).wf(),
            final(self)@ == old(self)@.remove(key@),
            r == (if old(self)@.contains_key(key@) {
                Some(old(self)@[key@])
            } else {
                None
            }),
    {
        let ghost before = self.list@;
        let at: usize = self.find(key);
        if at >= self.list.len() {
            assert(self@ =~= old(self)@.remove(key@));
            return None;
        }
        let (_, v) = self.list.remove(at);
        proof {
            let after = self.list@;
            lemma_at(before, at as int);
            assert forall|i: int, j: int| 0 <= i < j < after.len() implies (
            #[trigger] after[i]).0@ != (#[trigger] after[j]).0@ by {
                let a = if i < at {
                    i
                } else {
                    i + 1
                };
                let b = if j < at {
                    j
                } else {
                    j + 1
                };
                assert(before[a] == after[i] && before[b] == after[j]);
            }
            assert forall|k: Seq<char>| #[trigger]
                holds(after, k) <==> holds(before, k) && k != key@ by {
                if holds(before, k) && k != key@ {
                    let j = place(before, k);
                    let i = if j < at {
                        j
                    } else {
                        j - 1
                    };
                    assert(after[i] == before[j]);
                }
                if holds(after, k) {
                    let i = place(after, k);
                    let j = if i < at {
                        i
                    } else {
                        i + 1
                    };
                    assert(before[j] == after[i]);
                    if k == key@ {
                        if j < at {
                            assert(before[j].0@ != before[at as int].0@);
                        } else {
                            assert(before[at as int].0@ != before[j].0@);
                        }
                    }
                }
            }
            assert forall|k: Seq<char>| holds(after, k) implies as_map(after)[k] == as_map(
                before,
            )[k] by {
                let i = place(after, k);
                let j = if i < at {
                    i
                } else {
                    i + 1
                };
                assert(before[j] == after[i]);
                lemma_at(before, j);
                lemma_at(after, i);
            }
            assert(as_map(after) =~= as_map(before).remove(key@));
        }
        Some(v)
    }

    /// Gives a name a value, instead of the one that it had.
    pub fn insert(&mut self, key: String, value: V)
        requires
            old(self).wf(),
        ensures
            final(self).wf(),
            final(self)@ == old(self)@.insert(key@, value),
    {
        let _ = self.remove(key.as_str());
        let ghost before = self.list@;
        let ghost k0 = key@;
        assert(!holds(before, k0)) by {
            assert(!self@.contains_key(k0));
        }
        self.list.push((key, value));
        proof {
            let after = self.list@;
            assert(distinct(after)) by {
                assert forall|i: int, j: int| 0 <= i < j < after.len() implies (
                #[trigger] after[i]).0@ != (#[trigger] after[j]).0@ by {
                    assert(before[i] == after[i]);
                    if j < before.len() {
                        assert(before[j] == after[j]);
                    }
                }
            }
            lemma_at(after, before.len() as int);
            assert forall|k: Seq<char>| k != k0 implies (#[trigger] holds(after, k) <==> holds(
                before,
                k,
            )) && (holds(before, k) ==> as_map(after)[k] == as_map(before)[k]) by {
                if holds(before, k) {
                    let i = place(before, k);
                    assert(after[i] == before[i]);
                    lemma_at(before, i);
                    lemma_at(after, i);
                }
                if holds(after, k) {
                    let i = place(after, k);
                    assert(before[i] == after[i]);
                }
            }
            let mid = as_map(before);
            assert(mid == old(self)@.remove(k0));
            assert forall|k: Seq<char>| as_map(after).contains_key(k) <==> mid.insert(
                k0,
                value,
            ).contains_key(k) by {
                assert(holds(after, k) || !holds(after, k));
            }
            assert forall|k: Seq<char>| as_map(after).contains_key(k) implies as_map(after)[k]
                == mid.insert(k0, value)[k] by {
                assert(holds(after, k));
            }
            assert(as_map(after) =~= mid.insert(k0, value));
            assert(mid.insert(k0, value) =~= old(self)@.insert(k0, value));
        }
    }
}

} // verus!
