//! The set of short names that pending records hold.

use crate::tags::texts;
use vstd::prelude::*;

verus! {

/// The short names reserved by records that are accepted but not yet handed to a
/// flush. Each name is held once.
pub struct ReservationSet {
    names: Vec<String>,
}

impl View for ReservationSet {
    type V = Set<Seq<char>>;

    closed spec fn view(&self) -> Set<Seq<char>> {
        texts(self.names@).to_set()
    }
}

/// Taking one entry out of a list without repeats leaves a list without repeats,
/// which holds what the list held but for that entry.
proof fn lemma_remove_entry(s: Seq<Seq<char>>, i: int)
    requires
        s.no_duplicates(),
        0 <= i < s.len(),
    ensures
        s.remove(i).no_duplicates(),
        s.remove(i).to_set() == s.to_set().remove(s[i]),
{
    let r = s.remove(i);
    assert forall|a: int, b: int| 0 <= a < r.len() && 0 <= b < r.len() && a != b implies r[a]
        != r[b] by {
        let a0 = if a < i { a } else { a + 1 };
        let b0 = if b < i { b } else { b + 1 };
        assert(r[a] == s[a0] && r[b] == s[b0]);
    }
    assert forall|x: Seq<char>| r.to_set().contains(x) <==> s.to_set().remove(s[i]).contains(
        x,
    ) by {
        if r.contains(x) {
            let k = choose|k: int| 0 <= k < r.len() && r[k] == x;
            let k0 = if k < i { k } else { k + 1 };
            assert(s[k0] == x);
        }
        if s.contains(x) && x != s[i] {
            let k = choose|k: int| 0 <= k < s.len() && s[k] == x;
            let k1 = if k < i { k } else { k - 1 };
            assert(r[k1] == x);
        }
    }
    assert(r.to_set() =~= s.to_set().remove(s[i]));
}

impl ReservationSet {
    /// No name is held twice.
    pub closed spec fn wf(&self) -> bool {
        texts(self.names@).no_duplicates()
    }

    /// A set that holds no name.
    pub fn new() -> (set: ReservationSet)
        ensures
            set.wf(),
            set@ == Set::<Seq<char>>::empty(),
    {
        let set = ReservationSet { names: Vec::new() };
        assert(texts(set.names@).to_set() =~= Set::<Seq<char>>::empty());
        set
    }

    /// How many names are held.
    pub fn len(&self) -> (n: usize)
        requires
            self.wf(),
        ensures
            n == self@.len(),
            self@.finite(),
    {
        proof {
            texts(self.names@).unique_seq_to_set();
            vstd::seq_lib::seq_to_set_is_finite(texts(self.names@));
        }
        self.names.len()
    }

    /// Where `name` stands in the list, if it is held.
    fn position(&self, name: &String) -> (at: Option<usize>)
        ensures
            match at {
                Some(i) => i < self.names.len() && texts(self.names@)[i as int] == name@,
                None => !texts(self.names@).contains(name@),
            },
    {
        let mut i: usize = 0;
        while i < self.names.len()
            invariant
                i <= self.names.len(),
                forall|k: int| 0 <= k < i ==> texts(self.names@)[k] != name@,
            decreases self.names.len() - i,
        {
            if self.names[i] == *name {
                return Some(i);
            }
            i = i + 1;
        }
        None
    }

    /// Whether `name` is reserved.
    pub fn contains(&self, name: &String) -> (held: bool)
        ensures
            held == self@.contains(name@),
    {
        self.position(name).is_some()
    }

    /// Reserves `name`. Says whether it was free; a name that is already held stays
    /// held once.
    pub fn insert(&mut self, name: String) -> (fresh: bool)
        requires
            old(self).wf(),
        ensures
            final(self).wf(),
            fresh == !old(self)@.contains(name@),
            final(self)@ == old(self)@.insert(name@),
    {
        if self.position(&name).is_some() {
            assert(self@.insert(name@) =~= self@);
            return false;
        }
        let ghost before = texts(self.names@);
        self.names.push(name);
        proof {
            assert(texts(self.names@) == before.push(name@));
            before.lemma_push_to_set_commute(name@);
        }
        true
    }

    /// Releases `name`. Says whether it was held.
    pub fn remove(&mut self, name: &String) -> (held: bool)
        requires
            old(self).wf(),
        ensures
            final(self).wf(),
            held == old(self)@.contains(name@),
            final(self)@ == old(self)@.remove(name@),
    {
        match self.position(name) {
            None => {
                assert(self@.remove(name@) =~= self@);
                false
            },
            Some(i) => {
                let ghost before = texts(self.names@);
                self.names.remove(i);
                proof {
                    assert(texts(self.names@) == before.remove(i as int));
                    lemma_remove_entry(before, i as int);
                }
                true
            },
        }
    }
}

} // verus!
