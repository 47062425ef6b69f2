//! The mapping from original class names to generated class names that one
//! transformation pass builds up and returns to the caller.

use vstd::prelude::*;

verus! {

/// The mathematical contents of an entry list: later entries win, though the
/// well-formedness invariant keeps keys unique so the point never arises.
pub open spec fn map_of_entries(es: Seq<(String, String)>) -> Map<Seq<char>, Seq<char>>
    decreases es.len(),
{
    if es.len() == 0 {
        Map::<Seq<char>, Seq<char>>::empty()
    } else {
        map_of_entries(es.drop_last()).insert(es.last().0@, es.last().1@)
    }
}

/// Keys are pairwise distinct.
pub open spec fn entries_wf(es: Seq<(String, String)>) -> bool {
    forall|i: int, j: int| 0 <= i < j < es.len() ==> es[i].0@ != es[j].0@
}

proof fn lemma_map_of_entries_contains(es: Seq<(String, String)>, k: Seq<char>)
    ensures
        map_of_entries(es).contains_key(k) <==> exists|i: int| 0 <= i < es.len() && es[i].0@ == k,
    decreases es.len(),
{
    if es.len() > 0 {
        lemma_map_of_entries_contains(es.drop_last(), k);
        if es.last().0@ == k {
            assert(es[es.len() - 1].0@ == k);
        } else if map_of_entries(es).contains_key(k) {
            let i = choose|i: int| 0 <= i < es.drop_last().len() && es.drop_last()[i].0@ == k;
            assert(es[i].0@ == k);
        } else {
            assert(forall|i: int|
                0 <= i < es.drop_last().len() ==> es.drop_last()[i].0@ == es[i].0@);
        }
    }
}

proof fn lemma_map_of_entries_get(es: Seq<(String, String)>, i: int)
    requires
        entries_wf(es),
        0 <= i < es.len(),
    ensures
        map_of_entries(es).contains_key(es[i].0@),
        map_of_entries(es)[es[i].0@] == es[i].1@,
    decreases es.len(),
{
    if i == es.len() - 1 {
    } else {
        assert(es.drop_last()[i] == es[i]);
        lemma_map_of_entries_get(es.drop_last(), i);
        assert(es[i].0@ != es[es.len() - 1].0@);
    }
}

/// A map from original class names to generated class names, held as a list
/// of pairs with pairwise-distinct keys.
#[derive(Debug)]
pub struct ClassNameMap {
    entries: Vec<(String, String)>,
}

impl View for ClassNameMap {
    type V = Map<Seq<char>, Seq<char>>;

    closed spec fn view(&self) -> Map<Seq<char>, Seq<char>> {
        map_of_entries(self.entries@)
    }
}

impl ClassNameMap {
    /// The key uniqueness invariant.
    pub closed spec fn wf(&self) -> bool {
        entries_wf(self.entries@)
    }

    /// The entry list as the specification sees it.
    pub closed spec fn spec_entries(&self) -> Seq<(String, String)> {
        self.entries@
    }

    /// An empty map.
    pub fn new() -> (r: ClassNameMap)
        ensures
            r@ == Map::<Seq<char>, Seq<char>>::empty(),
            r.wf(),
            r.spec_entries().len() == 0,
    {
        ClassNameMap { entries: Vec::new() }
    }

    /// The number of class names recorded.
    pub fn len(&self) -> (r: usize)
        ensures
            r == self.spec_entries().len(),
    {
        self.entries.len()
    }

    /// The recorded pairs of original and generated class name.
    pub fn entries(&self) -> (r: &Vec<(String, String)>)
        ensures
            r@ == self.spec_entries(),
    {
        &self.entries
    }

    /// Looks the original class name `key` up; `Some` exactly when the map
    /// binds it, and then the binding's value.
    pub fn get(&self, key: &str) -> (r: Option<&String>)
        requires
            self.wf(),
        ensures
            match r {
                Some(v) => self@.contains_key(key@) && v@ == self@[key@],
                None => !self@.contains_key(key@),
            },
    {
        let owned = String::from_str(key);
        let mut i: usize = 0;
        while i < self.entries.len()
            invariant
                0 <= i <= self.entries@.len(),
                owned@ == key@,
                self.wf(),
                forall|j: int| 0 <= j < i ==> self.entries@[j].0@ != key@,
            decreases self.entries@.len() - i,
        {
            if self.entries[i].0 == owned {
                proof {
                    lemma_map_of_entries_get(self.entries@, i as int);
                }
                return Some(&self.entries[i].1);
            }
            i = i + 1;
        }
        proof {
            lemma_map_of_entries_contains(self.entries@, key@);
        }
        None
    }

    /// Records `key -> value`; an existing binding of `key` is replaced.
    pub fn insert(&mut self, key: String, value: String)
        requires
            old(self).wf(),
        ensures
            final(self)@ == old(self)@.insert(key@, value@),
            final(self).wf(),
            final(self).spec_entries().len() <= old(self).spec_entries().len() + 1,
    {
        let ghost es0 = self.entries@;
        let mut i: usize = 0;
        while i < self.entries.len()
            invariant
                0 <= i <= self.entries@.len(),
                self.entries@ == es0,
                es0 == old(self).spec_entries(),
                entries_wf(es0),
                forall|j: int| 0 <= j < i ==> es0[j].0@ != key@,
            decreases self.entries@.len() - i,
        {
            if self.entries[i].0 == key {
                let ghost k = i as int;
                let ghost kv = key@;
                let ghost vv = value@;
                self.entries.set(i, (key, value));
                proof {
                    assert(self.entries@[k].0@ == kv && self.entries@[k].1@ == vv);
                    assert(forall|j: int|
                        0 <= j < es0.len() && j != k ==> self.entries@[j] == es0[j]);
                    lemma_update_preserves_map(es0, k, self.entries@);
                    assert(map_of_entries(self.entries@) == map_of_entries(es0).insert(kv, vv));
                }
                return ;
            }
            i = i + 1;
        }
        self.entries.push((key, value));
        proof {
            assert(self.entries@.drop_last() =~= es0);
        }
    }
}

proof fn lemma_update_preserves_map(es: Seq<(String, String)>, k: int, es2: Seq<(String, String)>)
    requires
        entries_wf(es),
        0 <= k < es.len(),
        es2.len() == es.len(),
        es2[k].0@ == es[k].0@,
        forall|j: int| 0 <= j < es.len() && j != k ==> es2[j] == es[j],
    ensures
        entries_wf(es2),
        map_of_entries(es2) == map_of_entries(es).insert(es2[k].0@, es2[k].1@),
    decreases es.len(),
{
    assert forall|i: int, j: int| 0 <= i < j < es2.len() implies es2[i].0@ != es2[j].0@ by {
        assert(es[i].0@ != es[j].0@);
    }
    if k == es.len() - 1 {
        assert(es2.drop_last() =~= es.drop_last());
        assert(map_of_entries(es2) == map_of_entries(es.drop_last()).insert(
            es2[k].0@,
            es2[k].1@,
        ));
        assert(map_of_entries(es).insert(es2[k].0@, es2[k].1@) =~= map_of_entries(
            es.drop_last(),
        ).insert(es2[k].0@, es2[k].1@));
    } else {
        assert(es2.drop_last()[k] == es2[k]);
        assert(forall|j: int|
            0 <= j < es.drop_last().len() && j != k ==> es2.drop_last()[j] == es.drop_last()[j]);
        lemma_update_preserves_map(es.drop_last(), k, es2.drop_last());
        assert(es2.last() == es.last());
        assert(es[k].0@ != es.last().0@);
        assert(map_of_entries(es2) == map_of_entries(es2.drop_last()).insert(
            es2.last().0@,
            es2.last().1@,
        ));
        assert(map_of_entries(es.drop_last()).insert(es2[k].0@, es2[k].1@).insert(
            es.last().0@,
            es.last().1@,
        ) =~= map_of_entries(es.drop_last()).insert(es.last().0@, es.last().1@).insert(
            es2[k].0@,
            es2[k].1@,
        ));
    }
}

} // verus!
