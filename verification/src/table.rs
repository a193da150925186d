//! A table from names to values.

use crate::text::same_text;
use vstd::prelude::*;

verus! {

/// Values that can be copied without changing what they stand for.
pub trait Duplicate: View + Sized {
    /// A copy with the same view.
    fn duplicate(&self) -> (r: Self)
        ensures
            r@ == self@,
    ;
}

impl Duplicate for String {
    fn duplicate(&self) -> (r: Self) {
        self.clone()
    }
}

impl Duplicate for u64 {
    fn duplicate(&self) -> (r: Self) {
        *self
    }
}

/// The views of a sequence of values.
pub open spec fn views<T: View>(s: Seq<T>) -> Seq<T::V> {
    s.map_values(|t: T| t@)
}

/// Copies a list of values.
pub fn duplicate_vec<T: Duplicate>(v: &Vec<T>) -> (r: Vec<T>)
    ensures
        views(r@) == views(v@),
{
    let mut out: Vec<T> = Vec::new();
    for i in 0..v.len()
        invariant
            views(out@) == views(v@.subrange(0, i as int)),
    {
        let ghost before = out@;
        let item = v[i].duplicate();
        out.push(item);
        assert(views(out@) =~= views(before).push(item@));
        assert(views(v@.subrange(0, i + 1)) =~= views(v@.subrange(0, i as int)).push(
            v@[i as int]@,
        ));
    }
    assert(v@.subrange(0, v@.len() as int) =~= v@);
    out
}

/// Copies an optional value.
pub fn duplicate_option<T: Duplicate>(v: &Option<T>) -> (r: Option<T>)
    ensures
        r is Some <==> *v is Some,
        r matches Some(x) ==> x@ == (*v)->0@,
{
    match v {
        Some(x) => Some(x.duplicate()),
        None => None,
    }
}

/// A table that maps names to values. Every name occurs at most once, and the
/// entries keep the order in which their names were first inserted.
#[derive(Debug)]
pub struct NameTable<T: View> {
    entries: Vec<(String, T)>,
}

/// Whether a name occurs in a list of entries.
pub open spec fn has_name<W>(s: Seq<(Seq<char>, W)>, k: Seq<char>) -> bool {
    exists|i: int| 0 <= i < s.len() && (#[trigger] s[i]).0 == k
}

/// A position at which a name occurs in a list of entries.
pub open spec fn name_position<W>(s: Seq<(Seq<char>, W)>, k: Seq<char>) -> int {
    choose|i: int| 0 <= i < s.len() && (#[trigger] s[i]).0 == k
}

/// Whether no name occurs twice in a list of entries.
pub open spec fn distinct_names<W>(s: Seq<(Seq<char>, W)>) -> bool {
    forall|i: int, j: int| 0 <= i < j < s.len() ==> (#[trigger] s[i]).0 != (#[trigger] s[j]).0
}

/// The map that a list of entries stands for.
pub open spec fn map_of_entries<W>(s: Seq<(Seq<char>, W)>) -> Map<Seq<char>, W> {
    Map::new(|k: Seq<char>| has_name(s, k), |k: Seq<char>| s[name_position(s, k)].1)
}

/// Entries with names and values by their views.
spec fn shown<T: View>(s: Seq<(String, T)>) -> Seq<(Seq<char>, T::V)> {
    s.map_values(|e: (String, T)| (e.0@, e.1@))
}

/// The map has every entry.
pub proof fn lemma_entry_in_map<W>(s: Seq<(Seq<char>, W)>, i: int)
    requires
        distinct_names(s),
        0 <= i < s.len(),
    ensures
        map_of_entries(s).contains_key(s[i].0),
        map_of_entries(s)[s[i].0] == s[i].1,
{
    assert(has_name(s, s[i].0));
    let p = name_position(s, s[i].0);
    assert(s[p].0 == s[i].0);
    assert(p == i) by {
        if p < i {
            assert(s[p].0 != s[i].0);
        }
        if i < p {
            assert(s[i].0 != s[p].0);
        }
    }
}

proof fn lemma_map_update<W>(s: Seq<(Seq<char>, W)>, i: int, w: W)
    requires
        distinct_names(s),
        0 <= i < s.len(),
    ensures
        distinct_names(s.update(i, (s[i].0, w))),
        map_of_entries(s.update(i, (s[i].0, w))) =~= map_of_entries(s).insert(s[i].0, w),
{
    let t = s.update(i, (s[i].0, w));
    let k = s[i].0;
    assert forall|a: int, b: int| 0 <= a < b < t.len() implies (#[trigger] t[a]).0 != (
    #[trigger] t[b]).0 by {
        assert(s[a].0 != s[b].0);
    }
    assert forall|n: Seq<char>| has_name(t, n) <==> map_of_entries(s).insert(k, w).contains_key(
        n,
    ) by {
        if has_name(t, n) {
            let p = name_position(t, n);
            assert(s[p].0 == n);
        }
        if has_name(s, n) {
            let p = name_position(s, n);
            assert(t[p].0 == n);
        }
        assert(t[i].0 == k);
    }
    assert forall|n: Seq<char>| has_name(t, n) implies map_of_entries(t)[n] == map_of_entries(
        s,
    ).insert(k, w)[n] by {
        let p = name_position(t, n);
        lemma_entry_in_map(t, p);
        assert(s[p].0 == n);
        lemma_entry_in_map(s, p);
        if n == k {
            assert(p == i) by {
                if p < i {
                    assert(t[p].0 != t[i].0);
                }
                if i < p {
                    assert(t[i].0 != t[p].0);
                }
            }
        }
    }
}

/// An entry with a new name adds one pair to the map.
pub proof fn lemma_map_push<W>(s: Seq<(Seq<char>, W)>, k: Seq<char>, w: W)
    requires
        distinct_names(s),
        !has_name(s, k),
    ensures
        distinct_names(s.push((k, w))),
        map_of_entries(s.push((k, w))) =~= map_of_entries(s).insert(k, w),
{
    let t = s.push((k, w));
    assert forall|a: int, b: int| 0 <= a < b < t.len() implies (#[trigger] t[a]).0 != (
    #[trigger] t[b]).0 by {
        if b < s.len() {
            assert(s[a].0 != s[b].0);
        } else {
            assert(s[a].0 != k);
        }
    }
    assert forall|n: Seq<char>| has_name(t, n) <==> map_of_entries(s).insert(k, w).contains_key(
        n,
    ) by {
        if has_name(t, n) {
            let p = name_position(t, n);
            if p < s.len() {
                assert(s[p].0 == n);
            }
        }
        if has_name(s, n) {
            let p = name_position(s, n);
            assert(t[p].0 == n);
        }
        assert(t[s.len() as int].0 == k);
    }
    assert forall|n: Seq<char>| has_name(t, n) implies map_of_entries(t)[n] == map_of_entries(
        s,
    ).insert(k, w)[n] by {
        let p = name_position(t, n);
        lemma_entry_in_map(t, p);
        if p < s.len() {
            assert(s[p].0 == n);
            lemma_entry_in_map(s, p);
        }
    }
}

/// The map has as many pairs as the list has entries.
pub proof fn lemma_map_len<W>(s: Seq<(Seq<char>, W)>)
    requires
        distinct_names(s),
    ensures
        map_of_entries(s).dom().finite(),
        map_of_entries(s).dom().len() == s.len(),
    decreases s.len(),
{
    if s.len() == 0 {
        assert(map_of_entries(s).dom() =~= Set::<Seq<char>>::empty());
    } else {
        let t = s.drop_last();
        let k = s.last().0;
        assert(distinct_names(t)) by {
            assert forall|a: int, b: int| 0 <= a < b < t.len() implies (#[trigger] t[a]).0 != (
            #[trigger] t[b]).0 by {
                assert(s[a].0 != s[b].0);
            }
        }
        if has_name(t, k) {
            let p = name_position(t, k);
            assert(s[p].0 != s[s.len() - 1].0);
        }
        lemma_map_len(t);
        lemma_map_push(t, k, s.last().1);
        assert(s =~= t.push((k, s.last().1)));
        assert(map_of_entries(s).dom() =~= map_of_entries(t).dom().insert(k));
    }
}

proof fn lemma_map_remove<W>(s: Seq<(Seq<char>, W)>, i: int)
    requires
        distinct_names(s),
        0 <= i < s.len(),
    ensures
        distinct_names(s.remove(i)),
        map_of_entries(s.remove(i)) =~= map_of_entries(s).remove(s[i].0),
{
    let t = s.remove(i);
    let k = s[i].0;
    assert forall|a: int, b: int| 0 <= a < b < t.len() implies (#[trigger] t[a]).0 != (
    #[trigger] t[b]).0 by {
        let a2 = if a < i { a } else { a + 1 };
        let b2 = if b < i { b } else { b + 1 };
        assert(s[a2].0 != s[b2].0);
    }
    assert forall|n: Seq<char>| has_name(t, n) <==> map_of_entries(s).remove(k).contains_key(n) by {
        if has_name(t, n) {
            let p = name_position(t, n);
            let q = if p < i { p } else { p + 1 };
            assert(s[q].0 == n);
            if q < i {
                assert(s[q].0 != s[i].0);
            } else {
                assert(s[i].0 != s[q].0);
            }
        }
        if has_name(s, n) && n != k {
            let p = name_position(s, n);
            let q = if p < i { p } else { p - 1 };
            assert(t[q].0 == n);
        }
    }
    assert forall|n: Seq<char>| has_name(t, n) implies map_of_entries(t)[n] == map_of_entries(
        s,
    ).remove(k)[n] by {
        let p = name_position(t, n);
        lemma_entry_in_map(t, p);
        let q = if p < i { p } else { p + 1 };
        assert(s[q].0 == n);
        lemma_entry_in_map(s, q);
    }
}

impl<T: View> View for NameTable<T> {
    type V = Map<Seq<char>, T::V>;

    open spec fn view(&self) -> Map<Seq<char>, T::V> {
        map_of_entries(self.pairs())
    }
}

impl<T: View> NameTable<T> {
    /// The entries in order, names and values by their views.
    pub closed spec fn pairs(&self) -> Seq<(Seq<char>, T::V)> {
        shown(self.entries@)
    }

    #[verifier::type_invariant]
    spec fn names_are_distinct(&self) -> bool {
        distinct_names(self.pairs())
    }

    /// An empty table.
    pub fn new() -> (r: Self)
        ensures
            r@ == Map::<Seq<char>, T::V>::empty(),
            r.pairs() == Seq::<(Seq<char>, T::V)>::empty(),
    {
        let r = NameTable { entries: Vec::new() };
        assert(r.pairs() =~= Seq::<(Seq<char>, T::V)>::empty());
        assert(r@ =~= Map::<Seq<char>, T::V>::empty());
        r
    }

    /// The number of entries.
    pub fn len(&self) -> (r: usize)
        ensures
            r == self.pairs().len(),
            r == self@.dom().len(),
            distinct_names(self.pairs()),
    {
        proof {
            use_type_invariant(self);
            lemma_map_len(self.pairs());
        }
        self.entries.len()
    }

    /// The name of entry `i`.
    pub fn name_at(&self, i: usize) -> (r: &String)
        requires
            i < self.pairs().len(),
        ensures
            r@ == self.pairs()[i as int].0,
            self@.contains_key(r@),
            self@[r@] == self.pairs()[i as int].1,
    {
        proof {
            use_type_invariant(self);
            lemma_entry_in_map(self.pairs(), i as int);
        }
        &self.entries[i].0
    }

    /// The value of entry `i`.
    pub fn value_at(&self, i: usize) -> (r: &T)
        requires
            i < self.pairs().len(),
        ensures
            r@ == self.pairs()[i as int].1,
    {
        &self.entries[i].1
    }

    fn position(&self, name: &str) -> (r: Option<usize>)
        ensures
            r is Some <==> self@.contains_key(name@),
            r matches Some(i) ==> i < self.pairs().len() && self.pairs()[i as int].0 == name@,
    {
        let mut i: usize = 0;
        while i < self.entries.len()
            invariant
                i <= self.pairs().len(),
                self.pairs().len() == self.entries@.len(),
                forall|j: int| 0 <= j < i ==> (#[trigger] self.pairs()[j]).0 != name@,
            decreases self.entries@.len() - i,
        {
            if same_text(self.entries[i].0.as_str(), name) {
                assert(self.pairs()[i as int].0 == name@);
                return Some(i);
            }
            i = i + 1;
        }
        None
    }

    /// The value for a name.
    pub fn get(&self, name: &str) -> (r: Option<&T>)
        ensures
            r is Some <==> self@.contains_key(name@),
            r matches Some(v) ==> v@ == self@[name@],
    {
        match self.position(name) {
            Some(i) => {
                proof {
                    use_type_invariant(self);
                    lemma_entry_in_map(self.pairs(), i as int);
                }
                Some(&self.entries[i].1)
            },
            None => None,
        }
    }

    /// Whether the table has the name.
    pub fn contains_key(&self, name: &str) -> (r: bool)
        ensures
            r == self@.contains_key(name@),
    {
        match self.position(name) {
            Some(_) => true,
            None => false,
        }
    }

    /// Sets the value for a name.
    pub fn insert(&mut self, name: String, value: T)
        ensures
            final(self)@ == old(self)@.insert(name@, value@),
    {
        proof {
            use_type_invariant(&*self);
        }
        let ghost before = self.pairs();
        let found = self.position(name.as_str());
        let mut entries: Vec<(String, T)> = Vec::new();
        std::mem::swap(&mut entries, &mut self.entries);
        match found {
            Some(i) => {
                entries.set(i, (name, value));
                proof {
                    assert(shown(entries@) =~= before.update(
                        i as int,
                        (before[i as int].0, value@),
                    ));
                    lemma_map_update(before, i as int, value@);
                }
            },
            None => {
                entries.push((name, value));
                proof {
                    assert(shown(entries@) =~= before.push((name@, value@)));
                    lemma_map_push(before, name@, value@);
                }
            },
        }
        self.entries = entries;
    }

    /// Removes a name and its value.
    pub fn remove(&mut self, name: &str)
        ensures
            final(self)@ == old(self)@.remove(name@),
    {
        proof {
            use_type_invariant(&*self);
        }
        let ghost before = self.pairs();
        match self.position(name) {
            Some(i) => {
                let mut entries: Vec<(String, T)> = Vec::new();
                std::mem::swap(&mut entries, &mut self.entries);
                let gone = entries.remove(i);
                proof {
                    assert(shown(entries@) =~= before.remove(i as int));
                    lemma_map_remove(before, i as int);
                }
                self.entries = entries;
            },
            None => {
                assert(self@.remove(name@) =~= self@);
            },
        }
    }
}

impl<T: Duplicate> Duplicate for NameTable<T> {
    fn duplicate(&self) -> (r: Self)
        ensures
            r.pairs() == self.pairs(),
    {
        proof {
            use_type_invariant(self);
        }
        let mut entries: Vec<(String, T)> = Vec::new();
        for i in 0..self.entries.len()
            invariant
                shown(entries@) == shown(self.entries@).subrange(0, i as int),
        {
            let ghost before = entries@;
            let name = self.entries[i].0.clone();
            let value = self.entries[i].1.duplicate();
            entries.push((name, value));
            assert(shown(entries@) =~= shown(before).push((name@, value@)));
            assert(shown(self.entries@).subrange(0, i + 1) =~= shown(self.entries@).subrange(
                0,
                i as int,
            ).push(shown(self.entries@)[i as int]));
        }
        assert(shown(self.entries@).subrange(0, self.entries@.len() as int) =~= shown(
            self.entries@,
        ));
        NameTable { entries }
    }
}

impl<T: Duplicate> Clone for NameTable<T> {
    fn clone(&self) -> (r: Self)
        ensures
            r@ == self@,
            r.pairs() == self.pairs(),
    {
        self.duplicate()
    }
}

impl<T: View> Default for NameTable<T> {
    fn default() -> (r: Self)
        ensures
            r@ == Map::<Seq<char>, T::V>::empty(),
            r.pairs() == Seq::<(Seq<char>, T::V)>::empty(),
    {
        NameTable::new()
    }
}

} // verus!
