//! Interning: equal values share one short id.

use vstd::prelude::*;

use crate::collections::{views, Key};

verus! {

/// The interned values, each at the position that is its id.
pub struct Interner<T: Key> {
    values: Vec<T>,
}

impl<T: Key> View for Interner<T> {
    type V = Seq<T::V>;

    closed spec fn view(&self) -> Seq<T::V> {
        views(self.values@)
    }
}

/// The values after `v` is interned.
pub open spec fn interned_with<V>(s: Seq<V>, v: V) -> Seq<V> {
    if s.contains(v) {
        s
    } else {
        s.push(v)
    }
}

impl<T: Key> Interner<T> {
    #[verifier::type_invariant]
    closed spec fn inv(self) -> bool {
        self@.no_duplicates()
    }

    pub fn new() -> (res: Self)
        ensures
            res@ == Seq::<T::V>::empty(),
    {
        let res = Interner { values: Vec::new() };
        assert(res@ =~= Seq::<T::V>::empty());
        res
    }

    /// The number of interned values, which are all different.
    pub fn len(&self) -> (res: usize)
        ensures
            res == self@.len(),
            self@.no_duplicates(),
    {
        proof {
            use_type_invariant(self);
        }
        self.values.len()
    }

    /// The value behind an id.
    pub fn long(&self, id: u64) -> (res: &T)
        requires
            id < self@.len(),
        ensures
            res@ == self@[id as int],
    {
        let count: usize = self.values.len();
        assert(id < count);
        &self.values[id as usize]
    }

    /// The id of a value; a value that is not known yet gets the next free one.
    pub fn intern(&mut self, value: T) -> (id: u64)
        ensures
            final(self)@ == interned_with(old(self)@, value@),
            id < final(self)@.len(),
            final(self)@[id as int] == value@,
            final(self)@.no_duplicates(),
    {
        proof {
            use_type_invariant(&*self);
        }
        let ghost before = self@;
        let mut i: usize = 0;
        while i < self.values.len()
            invariant
                before == self@,
                i <= self.values.len(),
                self@.len() == self.values@.len(),
                self@.no_duplicates(),
                forall|j: int| 0 <= j < i ==> #[trigger] self@[j] != value@,
            decreases self.values.len() - i,
        {
            if self.values[i].same(&value) {
                assert(self@[i as int] == value@);
                assert(self@.contains(value@));
                return i as u64;
            }
            i += 1;
        }
        let ghost v = value@;
        let mut values: Vec<T> = Vec::new();
        std::mem::swap(&mut values, &mut self.values);
        let id: usize = values.len();
        assert(views(values@) == before);
        values.push(value);
        assert(views(values@) =~= before.push(v));
        *self = Interner { values };
        assert(self@ == before.push(v));
        id as u64
    }
}

/// Two ids of one interner are equal exactly when the values behind them are.
pub proof fn law_ids_equal_iff_values_equal<V>(s: Seq<V>, i: int, j: int)
    requires
        s.no_duplicates(),
        0 <= i < s.len(),
        0 <= j < s.len(),
    ensures
        (s[i] == s[j]) == (i == j),
{
}

/// Interning a value again gives the same id and changes nothing.
pub proof fn law_intern_twice<V>(s: Seq<V>, v: V)
    ensures
        interned_with(interned_with(s, v), v) == interned_with(s, v),
        interned_with(s, v).contains(v),
{
    if !s.contains(v) {
        assert(s.push(v)[s.len() as int] == v);
    }
}

/// Interning leaves every earlier id with its value.
pub proof fn law_intern_keeps_ids<V>(s: Seq<V>, v: V)
    ensures
        s.is_prefix_of(interned_with(s, v)),
{
}

} // verus!
