//! Insertion-ordered maps and sets.

use vstd::prelude::*;

verus! {

/// Values that can be compared and copied up to their view.
pub trait Key: View + Sized {
    /// Whether the two values have the same view.
    fn same(&self, other: &Self) -> (res: bool)
        ensures
            res == (self@ == other@),
    ;

    /// A second value with the same view.
    fn dup(&self) -> (res: Self)
        ensures
            res@ == self@,
    ;
}

/// Small values that are their own view.
pub trait Id: Copy {
    fn equals(self, other: Self) -> (res: bool)
        ensures
            res == (self == other),
    ;
}

/// Whether two lists hold the same ids in the same order.
pub fn same_ids<I: Id>(a: &Vec<I>, b: &Vec<I>) -> (res: bool)
    ensures
        res == (a@ == b@),
{
    if a.len() != b.len() {
        return false;
    }
    let mut i: usize = 0;
    while i < a.len()
        invariant
            i <= a.len(),
            a@.len() == b@.len(),
            forall|j: int| 0 <= j < i ==> #[trigger] a@[j] == b@[j],
        decreases a.len() - i,
    {
        if !a[i].equals(b[i]) {
            return false;
        }
        i += 1;
    }
    assert(a@ =~= b@);
    true
}

/// Whether a list holds an id.
pub fn has_id<I: Id>(a: &Vec<I>, x: I) -> (res: bool)
    ensures
        res == a@.contains(x),
{
    let mut i: usize = 0;
    while i < a.len()
        invariant
            i <= a.len(),
            forall|j: int| 0 <= j < i ==> #[trigger] a@[j] != x,
        decreases a.len() - i,
    {
        if a[i].equals(x) {
            return true;
        }
        i += 1;
    }
    false
}

/// A second list with the same ids.
pub fn copy_ids<I: Copy>(a: &Vec<I>) -> (res: Vec<I>)
    ensures
        res@ == a@,
{
    let mut res: Vec<I> = Vec::new();
    let mut i: usize = 0;
    while i < a.len()
        invariant
            i <= a.len(),
            res@ == a@.take(i as int),
        decreases a.len() - i,
    {
        res.push(a[i]);
        i += 1;
    }
    assert(a@.take(a@.len() as int) =~= a@);
    res
}

/// Whether some entry has the key `k`.
pub open spec fn has_key<K, V>(s: Seq<(K, V)>, k: K) -> bool {
    exists|i: int| 0 <= i < s.len() && (#[trigger] s[i]).0 == k
}

/// The position of an entry with the key `k`.
pub open spec fn key_index<K, V>(s: Seq<(K, V)>, k: K) -> int {
    choose|i: int| 0 <= i < s.len() && (#[trigger] s[i]).0 == k
}

/// The value stored under `k`.
pub open spec fn lookup<K, V>(s: Seq<(K, V)>, k: K) -> Option<V> {
    if has_key(s, k) {
        Some(s[key_index(s, k)].1)
    } else {
        None
    }
}

/// No key occurs twice.
pub open spec fn unique_keys<K, V>(s: Seq<(K, V)>) -> bool {
    forall|i: int, j: int|
        0 <= i < s.len() && 0 <= j < s.len() && (#[trigger] s[i]).0 == (#[trigger] s[j]).0 ==> i
            == j
}

/// The entries after `v` is stored under `k`: a known key keeps its place, a new one goes last.
pub open spec fn assoc_insert<K, V>(s: Seq<(K, V)>, k: K, v: V) -> Seq<(K, V)> {
    if has_key(s, k) {
        s.update(key_index(s, k), (k, v))
    } else {
        s.push((k, v))
    }
}

/// The keys in order.
pub open spec fn keys_of<K, V>(s: Seq<(K, V)>) -> Seq<K> {
    Seq::new(s.len(), |i: int| s[i].0)
}

/// The values in order.
pub open spec fn values_of<K, V>(s: Seq<(K, V)>) -> Seq<V> {
    Seq::new(s.len(), |i: int| s[i].1)
}

/// With unique keys, an entry is the one that its key finds.
pub proof fn lemma_lookup_at<K, V>(s: Seq<(K, V)>, i: int)
    requires
        unique_keys(s),
        0 <= i < s.len(),
    ensures
        has_key(s, s[i].0),
        key_index(s, s[i].0) == i,
        lookup(s, s[i].0) == Some(s[i].1),
{
    let k = s[i].0;
    assert(s[i].0 == k);
    let j = key_index(s, k);
    assert(0 <= j < s.len() && s[j].0 == k);
}

/// Inserting keeps the keys unique.
pub proof fn lemma_insert_unique<K, V>(s: Seq<(K, V)>, k: K, v: V)
    requires
        unique_keys(s),
    ensures
        unique_keys(assoc_insert(s, k, v)),
{
    let t = assoc_insert(s, k, v);
    if has_key(s, k) {
        let j = key_index(s, k);
        assert(0 <= j < s.len() && s[j].0 == k);
        assert forall|a: int, b: int|
            0 <= a < t.len() && 0 <= b < t.len() && (#[trigger] t[a]).0 == (
            #[trigger] t[b]).0 implies a == b by {
            assert(t[a].0 == s[a].0);
            assert(t[b].0 == s[b].0);
        }
    } else {
        assert forall|a: int, b: int|
            0 <= a < t.len() && 0 <= b < t.len() && (#[trigger] t[a]).0 == (
            #[trigger] t[b]).0 implies a == b by {
            if a < s.len() {
                assert(t[a] == s[a]);
            }
            if b < s.len() {
                assert(t[b] == s[b]);
            }
        }
    }
}

/// After an insertion the inserted key finds the inserted value, every other key finds what it
/// found before.
pub proof fn law_get_after_insert<K, V>(s: Seq<(K, V)>, k: K, v: V, q: K)
    requires
        unique_keys(s),
    ensures
        lookup(assoc_insert(s, k, v), q) == if q == k {
            Some(v)
        } else {
            lookup(s, q)
        },
{
    let t = assoc_insert(s, k, v);
    lemma_insert_unique(s, k, v);
    if q == k {
        if has_key(s, k) {
            let j = key_index(s, k);
            assert(0 <= j < s.len() && s[j].0 == k);
            assert(t[j] == (k, v));
            lemma_lookup_at(t, j);
        } else {
            assert(t[s.len() as int] == (k, v));
            lemma_lookup_at(t, s.len() as int);
        }
    } else {
        if has_key(s, q) {
            let j = key_index(s, q);
            assert(0 <= j < s.len() && s[j].0 == q);
            if has_key(s, k) {
                let m = key_index(s, k);
                assert(0 <= m < s.len() && s[m].0 == k);
            }
            assert(t[j] == s[j]);
            lemma_lookup_at(t, j);
        } else {
            if has_key(t, q) {
                let j = key_index(t, q);
                assert(0 <= j < t.len() && t[j].0 == q);
                if j < s.len() {
                    assert(t[j].0 == s[j].0) by {
                        if has_key(s, k) {
                            let m = key_index(s, k);
                            assert(0 <= m < s.len() && s[m].0 == k);
                        }
                    }
                    assert(s[j].0 == q);
                }
            }
        }
    }
}

/// The entries after those of `t` are stored one by one.
pub open spec fn assoc_extend<K, V>(s: Seq<(K, V)>, t: Seq<(K, V)>) -> Seq<(K, V)>
    decreases t.len(),
{
    if t.len() == 0 {
        s
    } else {
        assoc_insert(assoc_extend(s, t.drop_last()), t.last().0, t.last().1)
    }
}

/// Storing entries keeps the keys unique, and a key finds the entry that was stored last.
pub proof fn law_later_entries_win<K, V>(s: Seq<(K, V)>, t: Seq<(K, V)>, k: K)
    requires
        unique_keys(s),
        unique_keys(t),
    ensures
        unique_keys(assoc_extend(s, t)),
        lookup(assoc_extend(s, t), k) == match lookup(t, k) {
            Some(v) => Some(v),
            None => lookup(s, k),
        },
    decreases t.len(),
{
    if t.len() > 0 {
        let init = t.drop_last();
        let last = t.last();
        assert forall|i: int, j: int|
            0 <= i < init.len() && 0 <= j < init.len() && (#[trigger] init[i]).0 == (
            #[trigger] init[j]).0 implies i == j by {
            assert(t[i] == init[i]);
            assert(t[j] == init[j]);
        }
        law_later_entries_win(s, init, k);
        lemma_insert_unique(assoc_extend(s, init), last.0, last.1);
        law_get_after_insert(assoc_extend(s, init), last.0, last.1, k);
        lemma_lookup_at(t, t.len() - 1);
        if k != last.0 {
            if has_key(init, k) {
                let i = key_index(init, k);
                assert(init[i].0 == k && t[i] == init[i]);
                lemma_lookup_at(t, i);
                lemma_lookup_at(init, i);
            } else if has_key(t, k) {
                let i = key_index(t, k);
                assert(t[i].0 == k);
                assert(init[i].0 == k);
            }
        }
    }
}

/// A filtered sequence has the members that pass the filter.
pub proof fn lemma_filter_members<A>(s: Seq<A>, keep: spec_fn(A) -> bool, x: A)
    ensures
        s.filter(keep).contains(x) <==> s.contains(x) && keep(x),
{
    let t = s.filter(keep);
    if t.contains(x) {
        let i = choose|i: int| 0 <= i < t.len() && t[i] == x;
        s.lemma_filter_contains_rev(keep, x);
        s.lemma_filter_pred(keep, i);
    }
    if s.contains(x) && keep(x) {
        let i = choose|i: int| 0 <= i < s.len() && s[i] == x;
        s.lemma_filter_contains(keep, i);
    }
}

/// The members of two lists are those of either.
pub proof fn lemma_concat_members<A>(a: Seq<A>, b: Seq<A>, x: A)
    ensures
        (a + b).contains(x) <==> a.contains(x) || b.contains(x),
{
    if a.contains(x) {
        let i = choose|i: int| 0 <= i < a.len() && a[i] == x;
        assert((a + b)[i] == x);
    }
    if b.contains(x) {
        let i = choose|i: int| 0 <= i < b.len() && b[i] == x;
        assert((a + b)[a.len() + i] == x);
    }
}

/// More numbers than there are below a bound repeat.
pub proof fn lemma_pigeonhole(s: Seq<int>, bound: nat)
    requires
        s.len() > bound,
        forall|i: int| 0 <= i < s.len() ==> 0 <= #[trigger] s[i] < bound,
    ensures
        exists|i: int, j: int| 0 <= i < j < s.len() && #[trigger] s[i] == #[trigger] s[j],
{
    if s.no_duplicates() {
        s.unique_seq_to_set();
        vstd::set_lib::lemma_int_range(0, bound as int);
        vstd::set_lib::lemma_len_subset(
            s.to_set(),
            vstd::set_lib::set_int_range(0, bound as int),
        );
    } else {
        let (i, j) = choose|i: int, j: int|
            0 <= i < s.len() && 0 <= j < s.len() && i != j && s[i] == s[j];
        if i < j {
            assert(s[i] == s[j]);
        } else {
            assert(s[j] == s[i]);
        }
    }
}

spec fn entries_view<K: View, V>(s: Seq<(K, V)>) -> Seq<(K::V, V)> {
    Seq::new(s.len(), |i: int| (s[i].0@, s[i].1))
}

/// A map that remembers the order in which its keys first came.
pub struct OrderedHashMap<K: Key, V> {
    entries: Vec<(K, V)>,
}

impl<K: Key, V> View for OrderedHashMap<K, V> {
    type V = Seq<(K::V, V)>;

    closed spec fn view(&self) -> Seq<(K::V, V)> {
        entries_view(self.entries@)
    }
}

impl<K: Key, V> OrderedHashMap<K, V> {
    #[verifier::type_invariant]
    closed spec fn inv(self) -> bool {
        unique_keys(self@)
    }

    pub fn new() -> (res: Self)
        ensures
            res@ == Seq::<(K::V, V)>::empty(),
    {
        let res = OrderedHashMap { entries: Vec::new() };
        assert(res@ =~= Seq::<(K::V, V)>::empty());
        res
    }

    /// The number of entries, whose keys are unique.
    pub fn len(&self) -> (res: usize)
        ensures
            res == self@.len(),
            unique_keys(self@),
    {
        proof {
            use_type_invariant(self);
        }
        self.entries.len()
    }

    fn find(&self, k: &K) -> (res: Option<usize>)
        ensures
            match res {
                Some(i) => i < self@.len() && has_key(self@, k@) && key_index(self@, k@) == i,
                None => !has_key(self@, k@),
            },
    {
        proof {
            use_type_invariant(self);
        }
        let mut i: usize = 0;
        while i < self.entries.len()
            invariant
                unique_keys(self@),
                i <= self.entries.len(),
                self@.len() == self.entries@.len(),
                forall|j: int| 0 <= j < i ==> (#[trigger] self@[j]).0 != k@,
            decreases self.entries.len() - i,
        {
            if self.entries[i].0.same(k) {
                assert(self@[i as int].0 == k@);
                proof {
                    lemma_lookup_at(self@, i as int);
                }
                return Some(i);
            }
            i += 1;
        }
        None
    }

    pub fn get(&self, k: &K) -> (res: Option<&V>)
        ensures
            match res {
                Some(v) => lookup(self@, k@) == Some(*v),
                None => lookup(self@, k@) is None,
            },
    {
        match self.find(k) {
            Some(i) => Some(&self.entries[i].1),
            None => None,
        }
    }

    pub fn contains_key(&self, k: &K) -> (res: bool)
        ensures
            res == has_key(self@, k@),
    {
        self.find(k).is_some()
    }

    /// The entry at a position.
    pub fn entry_at(&self, i: usize) -> (res: (&K, &V))
        requires
            i < self@.len(),
        ensures
            (res.0@, *res.1) == self@[i as int],
    {
        (&self.entries[i].0, &self.entries[i].1)
    }

    /// Stores `v` under `k`; says whether the key was there before.
    pub fn insert(&mut self, k: K, v: V) -> (res: bool)
        ensures
            final(self)@ == assoc_insert(old(self)@, k@, v),
            lookup(final(self)@, k@) == Some(v),
            res == has_key(old(self)@, k@),
    {
        proof {
            use_type_invariant(&*self);
            lemma_insert_unique(self@, k@, v);
            law_get_after_insert(self@, k@, v, k@);
        }
        let ghost before = self@;
        let found = self.find(&k);
        let mut entries: Vec<(K, V)> = Vec::new();
        std::mem::swap(&mut entries, &mut self.entries);
        assert(entries_view(entries@) == before);
        match found {
            Some(i) => {
                entries[i] = (k, v);
                assert(entries_view(entries@) =~= assoc_insert(before, k@, v));
                *self = OrderedHashMap { entries };
                true
            },
            None => {
                entries.push((k, v));
                assert(entries_view(entries@) =~= assoc_insert(before, k@, v));
                *self = OrderedHashMap { entries };
                false
            },
        }
    }
}

impl<K: Key, V: Copy> OrderedHashMap<K, V> {
    /// A second map with the same entries.
    pub fn copy(&self) -> (res: Self)
        ensures
            res@ == self@,
    {
        proof {
            use_type_invariant(self);
        }
        let mut entries: Vec<(K, V)> = Vec::new();
        let mut i: usize = 0;
        while i < self.entries.len()
            invariant
                i <= self.entries.len(),
                entries@.len() == i,
                entries_view(entries@) =~= entries_view(self.entries@).take(i as int),
            decreases self.entries.len() - i,
        {
            entries.push((self.entries[i].0.dup(), self.entries[i].1));
            i += 1;
        }
        assert(entries_view(entries@) =~= entries_view(self.entries@));
        OrderedHashMap { entries }
    }
}

impl<K: Key, V: Id> OrderedHashMap<K, V> {
    /// Whether two maps hold the same entries in the same order.
    pub fn same_entries(&self, other: &Self) -> (res: bool)
        ensures
            res == (self@ == other@),
    {
        if self.entries.len() != other.entries.len() {
            return false;
        }
        let mut i: usize = 0;
        while i < self.entries.len()
            invariant
                i <= self.entries.len(),
                self@.len() == self.entries@.len(),
                other@.len() == other.entries@.len(),
                self@.len() == other@.len(),
                forall|j: int| 0 <= j < i ==> #[trigger] self@[j] == other@[j],
            decreases self.entries.len() - i,
        {
            if !(self.entries[i].0.same(&other.entries[i].0) && self.entries[i].1.equals(
                other.entries[i].1,
            )) {
                assert(self@[i as int] != other@[i as int]);
                return false;
            }
            i += 1;
        }
        assert(self@ =~= other@);
        true
    }
}

/// The members after `k` is added: a known member changes nothing, a new one goes last.
pub open spec fn set_insert<K>(s: Seq<K>, k: K) -> Seq<K> {
    if s.contains(k) {
        s
    } else {
        s.push(k)
    }
}

/// The members after the elements of `t` are added one by one.
pub open spec fn set_extend<K>(s: Seq<K>, t: Seq<K>) -> Seq<K>
    decreases t.len(),
{
    if t.len() == 0 {
        s
    } else {
        set_insert(set_extend(s, t.drop_last()), t.last())
    }
}

/// Adding members keeps them unique, keeps the earlier ones in front, and adds exactly those of
/// `t`.
pub proof fn law_set_extend<K>(s: Seq<K>, t: Seq<K>)
    requires
        s.no_duplicates(),
    ensures
        set_extend(s, t).no_duplicates(),
        s.is_prefix_of(set_extend(s, t)),
        forall|k: K| #[trigger]
            set_extend(s, t).contains(k) <==> s.contains(k) || t.contains(k),
    decreases t.len(),
{
    if t.len() > 0 {
        let init = t.drop_last();
        law_set_extend(s, init);
        let r = set_extend(s, init);
        let e = set_extend(s, t);
        assert forall|k: K| #[trigger] e.contains(k) <==> s.contains(k) || t.contains(k) by {
            if t.contains(k) {
                let i = choose|i: int| 0 <= i < t.len() && t[i] == k;
                if i < init.len() {
                    assert(init[i] == k);
                    assert(init.contains(k));
                }
            }
            if init.contains(k) {
                let i = choose|i: int| 0 <= i < init.len() && init[i] == k;
                assert(t[i] == k);
            }
            if !r.contains(t.last()) {
                if r.contains(k) {
                    let i = choose|i: int| 0 <= i < r.len() && r[i] == k;
                    assert(e[i] == k);
                }
                if k == t.last() {
                    assert(e[r.len() as int] == k);
                }
                if e.contains(k) {
                    let i = choose|i: int| 0 <= i < e.len() && e[i] == k;
                    if i < r.len() {
                        assert(r[i] == k);
                    }
                }
            }
            assert(t[t.len() - 1] == t.last());
        }
    } else {
        assert(set_extend(s, t) == s);
        assert forall|k: K| #[trigger]
            set_extend(s, t).contains(k) <==> s.contains(k) || t.contains(k) by {
            if t.contains(k) {
                let i = choose|i: int| 0 <= i < t.len() && t[i] == k;
            }
        }
    }
}

/// Storing the members of one list and then those of another is storing those of both.
pub proof fn lemma_set_extend_concat<K>(s: Seq<K>, a: Seq<K>, b: Seq<K>)
    ensures
        set_extend(set_extend(s, a), b) == set_extend(s, a + b),
    decreases b.len(),
{
    if b.len() == 0 {
        assert(a + b =~= a);
    } else {
        assert((a + b).drop_last() =~= a + b.drop_last());
        lemma_set_extend_concat(s, a, b.drop_last());
    }
}

/// The views of the elements.
pub open spec fn views<K: View>(s: Seq<K>) -> Seq<K::V> {
    Seq::new(s.len(), |i: int| s[i]@)
}

/// A set that remembers the order in which its members first came.
pub struct OrderedHashSet<K: Key> {
    members: Vec<K>,
}

impl<K: Key> View for OrderedHashSet<K> {
    type V = Seq<K::V>;

    closed spec fn view(&self) -> Seq<K::V> {
        views(self.members@)
    }
}

impl<K: Key> OrderedHashSet<K> {
    #[verifier::type_invariant]
    closed spec fn inv(self) -> bool {
        self@.no_duplicates()
    }

    pub fn new() -> (res: Self)
        ensures
            res@ == Seq::<K::V>::empty(),
    {
        let res = OrderedHashSet { members: Vec::new() };
        assert(res@ =~= Seq::<K::V>::empty());
        res
    }

    /// The number of members, which are unique.
    pub fn len(&self) -> (res: usize)
        ensures
            res == self@.len(),
            self@.no_duplicates(),
    {
        proof {
            use_type_invariant(self);
        }
        self.members.len()
    }

    pub fn contains(&self, k: &K) -> (res: bool)
        ensures
            res == self@.contains(k@),
    {
        let mut i: usize = 0;
        while i < self.members.len()
            invariant
                i <= self.members.len(),
                self@.len() == self.members@.len(),
                forall|j: int| 0 <= j < i ==> #[trigger] self@[j] != k@,
            decreases self.members.len() - i,
        {
            if self.members[i].same(k) {
                assert(self@[i as int] == k@);
                return true;
            }
            i += 1;
        }
        false
    }

    /// The member at a position.
    pub fn at(&self, i: usize) -> (res: &K)
        requires
            i < self@.len(),
        ensures
            res@ == self@[i as int],
    {
        &self.members[i]
    }

    /// Adds a member; says whether it is new.
    pub fn insert(&mut self, k: K) -> (res: bool)
        ensures
            final(self)@ == set_insert(old(self)@, k@),
            res == !old(self)@.contains(k@),
    {
        if self.contains(&k) {
            return false;
        }
        proof {
            use_type_invariant(&*self);
        }
        let ghost before = self@;
        let mut members: Vec<K> = Vec::new();
        std::mem::swap(&mut members, &mut self.members);
        assert(views(members@) == before);
        members.push(k);
        assert(views(members@) =~= before.push(k@));
        *self = OrderedHashSet { members };
        true
    }

    /// Adds the elements of a list in order.
    pub fn extend(&mut self, list: &Vec<K>)
        ensures
            final(self)@ == set_extend(old(self)@, views(list@)),
    {
        let ghost before = self@;
        let mut i: usize = 0;
        assert(views(list@).take(0) =~= Seq::<K::V>::empty());
        while i < list.len()
            invariant
                i <= list.len(),
                self@ == set_extend(before, views(list@).take(i as int)),
            decreases list.len() - i,
        {
            assert(views(list@).take(i + 1).drop_last() =~= views(list@).take(i as int));
            self.insert(list[i].dup());
            i += 1;
        }
        assert(views(list@).take(list@.len() as int) =~= views(list@));
    }
}

/// Of some entries that are stored one by one, in a table that is empty at first, each key that
/// occurs is found, and with it the last entry that has it.
pub proof fn law_last_entries_stay<K, V>(t: Seq<(K, V)>, k: K)
    ensures
        unique_keys(assoc_extend(Seq::empty(), t)),
        has_key(assoc_extend(Seq::empty(), t), k) <==> has_key(t, k),
        forall|i: int|
            0 <= i < t.len() && (#[trigger] t[i]).0 == k && (forall|j: int|
                i < j < t.len() ==> (#[trigger] t[j]).0 != k) ==> lookup(
                assoc_extend(Seq::empty(), t),
                k,
            ) == Some(t[i].1),
{
    lemma_entries_are_found(t, k);
    assert forall|i: int|
        0 <= i < t.len() && (#[trigger] t[i]).0 == k && (forall|j: int|
            i < j < t.len() ==> (#[trigger] t[j]).0 != k) implies lookup(
        assoc_extend(Seq::empty(), t),
        k,
    ) == Some(t[i].1) by {
        lemma_last_entry(t, k, i);
    }
}

proof fn lemma_entries_are_found<K, V>(t: Seq<(K, V)>, k: K)
    ensures
        unique_keys(assoc_extend(Seq::empty(), t)),
        has_key(assoc_extend(Seq::empty(), t), k) <==> has_key(t, k),
    decreases t.len(),
{
    if t.len() > 0 {
        let init = t.drop_last();
        let made = assoc_extend(Seq::empty(), init);
        let last = t.last();
        lemma_entries_are_found(init, k);
        lemma_insert_unique(made, last.0, last.1);
        law_get_after_insert(made, last.0, last.1, k);
        if has_key(init, k) {
            let i = key_index(init, k);
            assert(t[i] == init[i]);
        }
        if last.0 == k {
            assert(t[t.len() - 1].0 == k);
        }
        if has_key(t, k) && last.0 != k {
            let i = key_index(t, k);
            assert(init[i] == t[i]);
        }
    }
}

proof fn lemma_last_entry<K, V>(t: Seq<(K, V)>, k: K, i: int)
    requires
        0 <= i < t.len(),
        t[i].0 == k,
        forall|j: int| i < j < t.len() ==> (#[trigger] t[j]).0 != k,
    ensures
        lookup(assoc_extend(Seq::empty(), t), k) == Some(t[i].1),
    decreases t.len(),
{
    let init = t.drop_last();
    let made = assoc_extend(Seq::empty(), init);
    let last = t.last();
    lemma_entries_are_found(init, k);
    law_get_after_insert(made, last.0, last.1, k);
    if i < t.len() - 1 {
        assert(t[t.len() - 1].0 != k);
        assert forall|j: int| i < j < init.len() implies (#[trigger] init[j]).0 != k by {
            assert(t[j].0 != k);
        }
        lemma_last_entry(init, k, i);
    }
}

} // verus!
