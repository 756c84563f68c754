//! A map from text to values, kept in the order of its keys.
use crate::text::{
    is_before, same, text_before, text_before_irreflexive, text_before_total,
    text_before_transitive,
};
use vstd::prelude::*;

verus! {

/// The keys come in strictly increasing order, so none occurs twice.
pub open spec fn sorted_by_key<T>(pairs: Seq<(Seq<char>, T)>) -> bool {
    forall|i: int, j: int|
        0 <= i < j < pairs.len() ==> text_before(#[trigger] pairs[i].0, #[trigger] pairs[j].0)
}

/// The map that a list of pairs stands for.
pub open spec fn map_of<T>(pairs: Seq<(Seq<char>, T)>) -> Map<Seq<char>, T>
    decreases pairs.len(),
{
    if pairs.len() == 0 {
        Map::empty()
    } else {
        map_of(pairs.drop_last()).insert(pairs.last().0, pairs.last().1)
    }
}

/// A sorted list of pairs has exactly the keys and values of its map.
pub proof fn map_of_sorted<T>(pairs: Seq<(Seq<char>, T)>)
    requires
        sorted_by_key(pairs),
    ensures
        forall|i: int|
            0 <= i < pairs.len() ==> map_of(pairs).contains_key(#[trigger] pairs[i].0)
                && map_of(pairs)[pairs[i].0] == pairs[i].1,
        forall|k: Seq<char>|
            map_of(pairs).contains_key(k) ==> exists|i: int|
                0 <= i < pairs.len() && #[trigger] pairs[i].0 == k,
    decreases pairs.len(),
{
    if pairs.len() > 0 {
        let rest = pairs.drop_last();
        map_of_sorted(rest);
        assert forall|i: int| 0 <= i < pairs.len() implies map_of(pairs).contains_key(
            #[trigger] pairs[i].0,
        ) && map_of(pairs)[pairs[i].0] == pairs[i].1 by {
            if i < rest.len() {
                assert(rest[i] == pairs[i]);
                assert(text_before(pairs[i].0, pairs[pairs.len() - 1].0));
                text_before_irreflexive(pairs[i].0);
            }
        }
        assert forall|k: Seq<char>| map_of(pairs).contains_key(k) implies exists|i: int|
            0 <= i < pairs.len() && #[trigger] pairs[i].0 == k by {
            if k == pairs.last().0 {
                assert(pairs[pairs.len() - 1].0 == k);
            } else {
                assert(map_of(rest).contains_key(k));
                let i = choose|i: int| 0 <= i < rest.len() && #[trigger] rest[i].0 == k;
                assert(pairs[i].0 == k);
            }
        }
    }
}

/// Every key of a list of pairs is a key of its map.
pub proof fn map_of_has_keys<T>(pairs: Seq<(Seq<char>, T)>, i: int)
    requires
        0 <= i < pairs.len(),
    ensures
        map_of(pairs).contains_key(pairs[i].0),
    decreases pairs.len(),
{
    if i < pairs.len() - 1 {
        map_of_has_keys(pairs.drop_last(), i);
    }
}

/// A map has only one sorted list of pairs.
pub proof fn sorted_pairs_unique<T>(p: Seq<(Seq<char>, T)>, q: Seq<(Seq<char>, T)>)
    requires
        sorted_by_key(p),
        sorted_by_key(q),
        map_of(p) == map_of(q),
    ensures
        p == q,
    decreases p.len(),
{
    map_of_sorted(p);
    map_of_sorted(q);
    if p.len() == 0 {
        if q.len() > 0 {
            assert(map_of(q).contains_key(q[0].0));
        }
        assert(p =~= q);
    } else {
        assert(map_of(q).contains_key(p[p.len() - 1].0));
        let m = p.len() - 1;
        let k = choose|k: int| 0 <= k < q.len() && #[trigger] q[k].0 == p[m].0;
        let n = q.len() - 1;
        let l = choose|l: int| 0 <= l < p.len() && #[trigger] p[l].0 == q[n].0;
        assert(map_of(p).contains_key(q[n].0));
        if k < n {
            assert(text_before(q[k].0, q[n].0));
            text_before_irreflexive(q[k].0);
            if l < m {
                assert(text_before(p[l].0, p[m].0));
                text_before_transitive(q[k].0, q[n].0, q[k].0);
            }
        }
        assert(p.last().0 == q.last().0);
        let pr = p.drop_last();
        let qr = q.drop_last();
        assert(sorted_by_key(pr)) by {
            assert forall|i: int, j: int| 0 <= i < j < pr.len() implies text_before(
                #[trigger] pr[i].0,
                #[trigger] pr[j].0,
            ) by {
                assert(text_before(p[i].0, p[j].0));
            }
        }
        assert(sorted_by_key(qr)) by {
            assert forall|i: int, j: int| 0 <= i < j < qr.len() implies text_before(
                #[trigger] qr[i].0,
                #[trigger] qr[j].0,
            ) by {
                assert(text_before(q[i].0, q[j].0));
            }
        }
        map_of_sorted(pr);
        map_of_sorted(qr);
        assert(!map_of(pr).contains_key(p.last().0)) by {
            if map_of(pr).contains_key(p.last().0) {
                let i = choose|i: int| 0 <= i < pr.len() && #[trigger] pr[i].0 == p.last().0;
                assert(text_before(p[i].0, p[m].0));
                text_before_irreflexive(p[m].0);
            }
        }
        assert(!map_of(qr).contains_key(q.last().0)) by {
            if map_of(qr).contains_key(q.last().0) {
                let i = choose|i: int| 0 <= i < qr.len() && #[trigger] qr[i].0 == q.last().0;
                assert(text_before(q[i].0, q[n].0));
                text_before_irreflexive(q[n].0);
            }
        }
        assert(map_of(pr) =~= map_of(p).remove(p.last().0));
        assert(map_of(qr) =~= map_of(q).remove(q.last().0));
        sorted_pairs_unique(pr, qr);
        assert(p =~= pr.push(p.last()));
        assert(q =~= qr.push(q.last()));
    }
}

/// A value that can be copied without changing what it stands for.
pub trait Duplicate: View + Sized {
    /// A copy of the value.
    fn duplicate(&self) -> (r: Self)
        ensures
            r@ == self@,
    ;
}

impl Duplicate for String {
    fn duplicate(&self) -> (r: Self) {
        self.clone()
    }
}

/// A map from text to values, kept in the order of its keys.
#[derive(Debug, PartialEq, Eq)]
pub struct StringMap<V: View> {
    pub(crate) entries: Vec<(String, V)>,
}

impl<V: View> View for StringMap<V> {
    type V = Map<Seq<char>, V::V>;

    open spec fn view(&self) -> Map<Seq<char>, V::V> {
        map_of(self.pairs())
    }
}

impl<V: View> StringMap<V> {
    #[verifier::type_invariant]
    closed spec fn well_formed(self) -> bool {
        sorted_by_key(self.pairs())
    }

    /// The keys and values in the order of the keys.
    pub closed spec fn pairs(self) -> Seq<(Seq<char>, V::V)> {
        Self::pairs_of(self.entries@)
    }

    closed spec fn pairs_of(entries: Seq<(String, V)>) -> Seq<(Seq<char>, V::V)> {
        entries.map_values(|e: (String, V)| (e.0@, e.1@))
    }

    /// The map without keys.
    pub fn new() -> (r: Self)
        ensures
            r@ == Map::<Seq<char>, V::V>::empty(),
            r.pairs() == Seq::<(Seq<char>, V::V)>::empty(),
    {
        let entries: Vec<(String, V)> = Vec::new();
        let r = StringMap { entries };
        assert(r.pairs() =~= Seq::empty());
        r
    }

    /// How many keys there are.
    pub fn len(&self) -> (r: usize)
        ensures
            r == self.pairs().len(),
            sorted_by_key(self.pairs()),
    {
        proof {
            use_type_invariant(self);
        }
        self.entries.len()
    }

    /// Whether there are no keys.
    pub fn is_empty(&self) -> (r: bool)
        ensures
            r == (self.pairs().len() == 0),
            r == (self@ == Map::<Seq<char>, V::V>::empty()),
    {
        proof {
            use_type_invariant(self);
            map_of_sorted(self.pairs());
            if self.pairs().len() > 0 {
                assert(self@.contains_key(self.pairs()[0].0));
            }
        }
        self.entries.len() == 0
    }

    /// The key at a position.
    pub fn key_at(&self, i: usize) -> (r: &String)
        requires
            i < self.pairs().len(),
        ensures
            r@ == self.pairs()[i as int].0,
    {
        &self.entries[i].0
    }

    /// The value at a position.
    pub fn value_at(&self, i: usize) -> (r: &V)
        requires
            i < self.pairs().len(),
        ensures
            r@ == self.pairs()[i as int].1,
    {
        &self.entries[i].1
    }

    /// The value of a key.
    pub fn get(&self, key: &str) -> (r: Option<&V>)
        ensures
            r is Some <==> self@.contains_key(key@),
            r matches Some(v) ==> v@ == self@[key@],
    {
        proof {
            use_type_invariant(self);
            map_of_sorted(self.pairs());
        }
        let mut i: usize = 0;
        while i < self.entries.len()
            invariant
                i <= self.entries@.len(),
                sorted_by_key(self.pairs()),
                forall|j: int| 0 <= j < i ==> #[trigger] self.pairs()[j].0 != key@,
            decreases self.entries@.len() - i,
        {
            if same(self.entries[i].0.as_str(), key) {
                proof {
                    map_of_sorted(self.pairs());
                    assert(self.pairs()[i as int].0 == key@);
                }
                return Some(&self.entries[i].1);
            }
            i = i + 1;
        }
        None
    }

    /// Whether there is such a key.
    pub fn contains_key(&self, key: &str) -> (r: bool)
        ensures
            r == self@.contains_key(key@),
    {
        self.get(key).is_some()
    }

    /// The map with `key` at `value`, in place of what the key had before.
    pub fn with(self, key: String, value: V) -> (r: Self)
        ensures
            r@ == self@.insert(key@, value@),
            sorted_by_key(r.pairs()),
    {
        proof {
            use_type_invariant(&self);
        }
        let ghost before = self.pairs();
        let ghost k = key@;
        let ghost v = value@;
        let mut entries = self.entries;
        let mut i: usize = 0;
        while i < entries.len() && is_before(entries[i].0.as_str(), key.as_str())
            invariant
                i <= entries@.len(),
                before.len() == entries@.len(),
                forall|j: int| 0 <= j < before.len() ==> (#[trigger] before[j]).0 == entries@[j].0@,
                forall|j: int| 0 <= j < i ==> text_before(#[trigger] before[j].0, key@),
            decreases entries@.len() - i,
        {
            i = i + 1;
        }
        if i < entries.len() && same(entries[i].0.as_str(), key.as_str()) {
            let _old = entries.remove(i);
            entries.insert(i, (key, value));
            proof {
                assert(Self::pairs_of(entries@) =~= before.update(i as int, (k, v)));
                Self::replaced(before, i as int, k, v);
            }
            StringMap { entries }
        } else {
            entries.insert(i, (key, value));
            proof {
                assert(Self::pairs_of(entries@) =~= before.insert(i as int, (k, v)));
                Self::inserted(before, i as int, k, v);
            }
            StringMap { entries }
        }
    }

    /// The value of `key`, where there is one, and the map without it.
    pub fn remove(self, key: &str) -> (r: (Option<V>, Self))
        ensures
            r.0 is Some <==> self@.contains_key(key@),
            r.0 matches Some(value) ==> value@ == self@[key@],
            r.1@ == self@.remove(key@),
    {
        proof {
            use_type_invariant(&self);
        }
        let ghost before = self.pairs();
        let mut entries = self.entries;
        let mut i: usize = 0;
        while i < entries.len()
            invariant
                i <= entries@.len(),
                before == Self::pairs_of(entries@),
                self@ == map_of(before),
                sorted_by_key(before),
                forall|j: int| 0 <= j < i ==> (#[trigger] before[j]).0 != key@,
            decreases entries@.len() - i,
        {
            if same(entries[i].0.as_str(), key) {
                assert(before[i as int].0 == key@);
                let (_, value) = entries.remove(i);
                proof {
                    assert(Self::pairs_of(entries@) =~= before.remove(i as int));
                    Self::removed(before, i as int);
                    map_of_sorted(before);
                }
                return (Some(value), StringMap { entries });
            }
            i = i + 1;
        }
        proof {
            map_of_sorted(before);
            assert(map_of(before).remove(key@) =~= map_of(before));
        }
        (None, StringMap { entries })
    }

    proof fn removed(before: Seq<(Seq<char>, V::V)>, i: int)
        requires
            sorted_by_key(before),
            0 <= i < before.len(),
        ensures
            sorted_by_key(before.remove(i)),
            map_of(before.remove(i)) == map_of(before).remove(before[i].0),
    {
        let after = before.remove(i);
        let k = before[i].0;
        assert forall|a: int, b: int| 0 <= a < b < after.len() implies text_before(
            #[trigger] after[a].0,
            #[trigger] after[b].0,
        ) by {
            let x = if a >= i { a + 1 } else { a };
            let y = if b >= i { b + 1 } else { b };
            assert(text_before(before[x].0, before[y].0));
        }
        map_of_sorted(before);
        map_of_sorted(after);
        let m = map_of(after);
        let n = map_of(before).remove(k);
        assert forall|j: int| 0 <= j < before.len() && j != i implies (#[trigger] before[j]).0
            != k by {
            if j < i {
                assert(text_before(before[j].0, before[i].0));
            } else {
                assert(text_before(before[i].0, before[j].0));
            }
            text_before_irreflexive(k);
        }
        assert forall|x: Seq<char>| m.contains_key(x) <==> n.contains_key(x) by {
            if m.contains_key(x) {
                let j = choose|j: int| 0 <= j < after.len() && #[trigger] after[j].0 == x;
                let l = if j >= i { j + 1 } else { j };
                assert(after[j] == before[l]);
                assert(before[l].0 == x);
            }
            if n.contains_key(x) {
                let j = choose|j: int| 0 <= j < before.len() && #[trigger] before[j].0 == x;
                let l = if j > i { j - 1 } else { j };
                assert(after[l] == before[j]);
                assert(after[l].0 == x);
            }
        }
        assert forall|x: Seq<char>| m.contains_key(x) implies m[x] == n[x] by {
            let j = choose|j: int| 0 <= j < after.len() && #[trigger] after[j].0 == x;
            let l = if j >= i { j + 1 } else { j };
            assert(after[j] == before[l]);
            assert(before[l].0 == x);
        }
        assert(m =~= n);
    }

    proof fn replaced(before: Seq<(Seq<char>, V::V)>, i: int, k: Seq<char>, v: V::V)
        requires
            sorted_by_key(before),
            0 <= i < before.len(),
            before[i].0 == k,
        ensures
            sorted_by_key(before.update(i, (k, v))),
            map_of(before.update(i, (k, v))) == map_of(before).insert(k, v),
    {
        let after = before.update(i, (k, v));
        assert forall|a: int, b: int| 0 <= a < b < after.len() implies text_before(
            #[trigger] after[a].0,
            #[trigger] after[b].0,
        ) by {
            assert(text_before(before[a].0, before[b].0));
        }
        map_of_sorted(before);
        map_of_sorted(after);
        let m = map_of(after);
        let n = map_of(before).insert(k, v);
        assert forall|x: Seq<char>| m.contains_key(x) <==> n.contains_key(x) by {
            if m.contains_key(x) {
                let j = choose|j: int| 0 <= j < after.len() && #[trigger] after[j].0 == x;
                assert(before[j].0 == x);
            }
            if n.contains_key(x) && x != k {
                let j = choose|j: int| 0 <= j < before.len() && #[trigger] before[j].0 == x;
                assert(after[j].0 == x);
            }
            assert(after[i].0 == k);
        }
        assert forall|x: Seq<char>| m.contains_key(x) implies m[x] == n[x] by {
            let j = choose|j: int| 0 <= j < after.len() && #[trigger] after[j].0 == x;
            assert(before[j].0 == x);
            if j != i {
                if j < i {
                    assert(text_before(before[j].0, before[i].0));
                } else {
                    assert(text_before(before[i].0, before[j].0));
                }
                text_before_irreflexive(k);
            }
        }
        assert(m =~= n);
    }

    proof fn inserted(before: Seq<(Seq<char>, V::V)>, i: int, k: Seq<char>, v: V::V)
        requires
            sorted_by_key(before),
            0 <= i <= before.len(),
            forall|j: int| 0 <= j < i ==> text_before(#[trigger] before[j].0, k),
            i < before.len() ==> !text_before(before[i].0, k) && before[i].0 != k,
        ensures
            sorted_by_key(before.insert(i, (k, v))),
            map_of(before.insert(i, (k, v))) == map_of(before).insert(k, v),
    {
        let after = before.insert(i, (k, v));
        assert forall|j: int| i <= j < before.len() implies text_before(
            k,
            #[trigger] before[j].0,
        ) by {
            text_before_total(before[i].0, k);
            if j > i {
                assert(text_before(before[i].0, before[j].0));
                text_before_transitive(k, before[i].0, before[j].0);
            }
        }
        assert forall|a: int, b: int| 0 <= a < b < after.len() implies text_before(
            #[trigger] after[a].0,
            #[trigger] after[b].0,
        ) by {
            let x = if a > i { a - 1 } else { a };
            let y = if b > i { b - 1 } else { b };
            if a == i {
                assert(after[b] == before[y]);
            } else if b == i {
                assert(after[a] == before[x]);
            } else {
                assert(after[a] == before[x]);
                assert(after[b] == before[y]);
                assert(text_before(before[x].0, before[y].0));
            }
        }
        map_of_sorted(before);
        map_of_sorted(after);
        let m = map_of(after);
        let n = map_of(before).insert(k, v);
        assert forall|x: Seq<char>| m.contains_key(x) <==> n.contains_key(x) by {
            if m.contains_key(x) {
                let j = choose|j: int| 0 <= j < after.len() && #[trigger] after[j].0 == x;
                if j != i {
                    let l = if j > i { j - 1 } else { j };
                    assert(after[j] == before[l]);
                    assert(before[l].0 == x);
                }
            }
            if n.contains_key(x) && x != k {
                let j = choose|j: int| 0 <= j < before.len() && #[trigger] before[j].0 == x;
                let l = if j >= i { j + 1 } else { j };
                assert(after[l] == before[j]);
                assert(after[l].0 == x);
            }
            assert(after[i].0 == k);
        }
        assert forall|x: Seq<char>| m.contains_key(x) implies m[x] == n[x] by {
            let j = choose|j: int| 0 <= j < after.len() && #[trigger] after[j].0 == x;
            if j != i {
                let l = if j > i { j - 1 } else { j };
                assert(after[j] == before[l]);
                assert(before[l].0 == x);
                if x == k {
                    text_before_irreflexive(k);
                }
            }
        }
        assert(m =~= n);
    }
}

impl<V: Duplicate> StringMap<V> {
    /// A copy of the map.
    pub fn copy(&self) -> (r: Self)
        ensures
            r.pairs() == self.pairs(),
            sorted_by_key(r.pairs()),
    {
        proof {
            use_type_invariant(self);
        }
        let mut entries: Vec<(String, V)> = Vec::new();
        let mut i: usize = 0;
        while i < self.entries.len()
            invariant
                i <= self.entries@.len(),
                Self::pairs_of(entries@) == self.pairs().take(i as int),
            decreases self.entries@.len() - i,
        {
            let ghost before = Self::pairs_of(entries@);
            entries.push((self.entries[i].0.clone(), self.entries[i].1.duplicate()));
            assert(Self::pairs_of(entries@) =~= before.push(self.pairs()[i as int]));
            i = i + 1;
            assert(self.pairs().take(i - 1).push(self.pairs()[i - 1]) =~= self.pairs().take(
                i as int,
            ));
        }
        assert(self.pairs().take(i as int) =~= self.pairs());
        StringMap { entries }
    }
}

impl<V: Duplicate> Duplicate for StringMap<V> {
    fn duplicate(&self) -> (r: Self) {
        self.copy()
    }
}

impl<V: Duplicate> Clone for StringMap<V> {
    fn clone(&self) -> (r: Self)
        ensures
            r@ == self@,
    {
        self.duplicate()
    }
}

/// The map that holds the given entries, a later one in place of an earlier
/// one with the same key.
pub fn from_entries<V: View>(entries: Vec<(String, V)>) -> (r: StringMap<V>)
    ensures
        r@ == map_of(entries@.map_values(|e: (String, V)| (e.0@, e.1@))),
{
    let ghost all = entries@.map_values(|e: (String, V)| (e.0@, e.1@));
    let mut out = StringMap::<V>::new();
    for entry in it: entries
        invariant
            it.seq().map_values(|e: (String, V)| (e.0@, e.1@)) == all,
            out@ == map_of(all.take(it.index() as int)),
    {
        assert(all.take(it.index() + 1).drop_last() =~= all.take(it.index() as int));
        assert(all[it.index() as int] == (entry.0@, entry.1@));
        out = out.with(entry.0, entry.1);
    }
    assert(all.take(all.len() as int) =~= all);
    out
}

/// Whether two maps from text to text agree.
pub fn same_map(a: &StringMap<String>, b: &StringMap<String>) -> (r: bool)
    ensures
        r == (a@ == b@),
{
    let n: usize = a.len();
    let m: usize = b.len();
    proof {
        if a@ == b@ {
            sorted_pairs_unique(a.pairs(), b.pairs());
        }
    }
    if n != m {
        return false;
    }
    let mut i: usize = 0;
    while i < n
        invariant
            i <= n,
            n == a.pairs().len(),
            n == b.pairs().len(),
            a@ == b@ ==> a.pairs() == b.pairs(),
            forall|j: int| 0 <= j < i ==> a.pairs()[j] == b.pairs()[j],
        decreases n - i,
    {
        if !same(a.key_at(i).as_str(), b.key_at(i).as_str()) || !same(
            a.value_at(i).as_str(),
            b.value_at(i).as_str(),
        ) {
            return false;
        }
        i = i + 1;
    }
    assert(a.pairs() =~= b.pairs());
    true
}

} // verus!
