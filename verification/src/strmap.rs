use vstd::prelude::*;

use crate::text::chars_of;

verus! {

/// `a` comes before `b` in the order of `String`'s `Ord`: lexicographically by
/// character (which is byte order of their UTF-8 encodings).
pub open spec fn str_less(a: Seq<char>, b: Seq<char>) -> bool
    decreases a.len(),
{
    if a.len() == 0 {
        b.len() > 0
    } else if b.len() == 0 {
        false
    } else if a[0] != b[0] {
        a[0] < b[0]
    } else {
        str_less(a.drop_first(), b.drop_first())
    }
}

pub proof fn lemma_str_less_irreflexive(a: Seq<char>)
    ensures
        !str_less(a, a),
    decreases a.len(),
{
    if a.len() > 0 {
        lemma_str_less_irreflexive(a.drop_first());
    }
}

pub proof fn lemma_str_less_transitive(a: Seq<char>, b: Seq<char>, c: Seq<char>)
    requires
        str_less(a, b),
        str_less(b, c),
    ensures
        str_less(a, c),
    decreases a.len(),
{
    if a.len() > 0 && b.len() > 0 && c.len() > 0 && a[0] == b[0] && b[0] == c[0] {
        lemma_str_less_transitive(a.drop_first(), b.drop_first(), c.drop_first());
    }
}

pub proof fn lemma_str_less_total(a: Seq<char>, b: Seq<char>)
    requires
        a != b,
    ensures
        str_less(a, b) || str_less(b, a),
    decreases a.len(),
{
    if a.len() > 0 && b.len() > 0 && a[0] == b[0] {
        if a.drop_first() == b.drop_first() {
            assert(a =~= seq![a[0]] + a.drop_first());
            assert(b =~= seq![b[0]] + b.drop_first());
        }
        lemma_str_less_total(a.drop_first(), b.drop_first());
    } else if a.len() == 0 && b.len() == 0 {
        assert(a =~= b);
    } else if a.len() > 0 && b.len() > 0 {
    }
}

/// The result of comparing two strings.
#[derive(Clone, Copy, Debug, PartialEq, Eq, Structural)]
pub enum Cmp {
    Less,
    Equal,
    Greater,
}

/// Compares two strings in the order of `String`'s `Ord`.
pub fn compare_str(a: &str, b: &str) -> (r: Cmp)
    ensures
        r == Cmp::Less <==> str_less(a@, b@),
        r == Cmp::Equal <==> a@ == b@,
        r == Cmp::Greater <==> str_less(b@, a@),
{
    let ac = chars_of(a);
    let bc = chars_of(b);
    let mut i: usize = 0;
    assert(a@.skip(0) =~= a@);
    assert(b@.skip(0) =~= b@);
    while i < ac.len() && i < bc.len() && ac[i] == bc[i]
        invariant
            ac@ == a@,
            bc@ == b@,
            i <= ac@.len(),
            i <= bc@.len(),
            ac@.take(i as int) == bc@.take(i as int),
            str_less(a@, b@) == str_less(a@.skip(i as int), b@.skip(i as int)),
            str_less(b@, a@) == str_less(b@.skip(i as int), a@.skip(i as int)),
        decreases ac@.len() - i,
    {
        assert(a@.skip(i as int).drop_first() =~= a@.skip(i + 1));
        assert(b@.skip(i as int).drop_first() =~= b@.skip(i + 1));
        assert(ac@.take(i + 1) =~= ac@.take(i as int).push(ac@[i as int]));
        assert(bc@.take(i + 1) =~= bc@.take(i as int).push(bc@[i as int]));
        i = i + 1;
    }
    proof {
        assert(a@.skip(i as int).len() == 0 ==> a@.take(i as int) =~= a@);
        assert(b@.skip(i as int).len() == 0 ==> b@.take(i as int) =~= b@);
        if a@ == b@ {
            lemma_str_less_irreflexive(a@);
        } else {
            lemma_str_less_total(a@, b@);
        }
        if i < ac.len() && i < bc.len() {
            assert(a@.skip(i as int)[0] == a@[i as int]);
            assert(b@.skip(i as int)[0] == b@[i as int]);
            assert(a@[i as int] != b@[i as int]);
            assert(a@ != b@);
        }
    }
    if i < ac.len() && i < bc.len() {
        if ac[i] < bc[i] {
            Cmp::Less
        } else {
            Cmp::Greater
        }
    } else if ac.len() == bc.len() {
        Cmp::Equal
    } else if i == ac.len() {
        assert(a@ != b@);
        Cmp::Less
    } else {
        assert(a@ != b@);
        Cmp::Greater
    }
}

} // verus!

verus! {

/// Every key comes strictly before the next: the keys are sorted and distinct.
pub open spec fn keys_sorted<T>(s: Seq<(Seq<char>, T)>) -> bool {
    forall|i: int, j: int| 0 <= i < j < s.len() ==> str_less(#[trigger] s[i].0, #[trigger] s[j].0)
}

/// The map that a sequence of key-value pairs denotes, a later pair for a key
/// replacing an earlier one.
pub open spec fn to_map<T>(s: Seq<(Seq<char>, T)>) -> Map<Seq<char>, T>
    decreases s.len(),
{
    if s.len() == 0 {
        Map::empty()
    } else {
        to_map(s.drop_last()).insert(s.last().0, s.last().1)
    }
}

pub proof fn lemma_to_map_dom<T>(s: Seq<(Seq<char>, T)>, k: Seq<char>)
    ensures
        to_map(s).contains_key(k) <==> exists|i: int| 0 <= i < s.len() && (#[trigger] s[i]).0 == k,
    decreases s.len(),
{
    if s.len() > 0 {
        lemma_to_map_dom(s.drop_last(), k);
        if exists|i: int| 0 <= i < s.len() && (#[trigger] s[i]).0 == k {
            let i = choose|i: int| 0 <= i < s.len() && (#[trigger] s[i]).0 == k;
            if i < s.len() - 1 {
                assert(s.drop_last()[i] == s[i]);
            }
        }
        if exists|i: int| 0 <= i < s.drop_last().len() && (#[trigger] s.drop_last()[i]).0 == k {
            let i = choose|i: int| 0 <= i < s.drop_last().len() && (#[trigger] s.drop_last()[i]).0 == k;
            assert(s[i] == s.drop_last()[i]);
        }
    }
}

pub proof fn lemma_to_map_value<T>(s: Seq<(Seq<char>, T)>, i: int)
    requires
        keys_sorted(s),
        0 <= i < s.len(),
    ensures
        to_map(s).contains_key(s[i].0),
        to_map(s)[s[i].0] == s[i].1,
    decreases s.len(),
{
    if i < s.len() - 1 {
        let t = s.drop_last();
        assert(keys_sorted(t)) by {
            assert forall|a: int, b: int| 0 <= a < b < t.len() implies str_less(#[trigger] t[a].0, #[trigger] t[b].0) by {
                assert(t[a] == s[a] && t[b] == s[b]);
            }
        }
        assert(t[i] == s[i]);
        lemma_to_map_value(t, i);
        assert(str_less(s[i].0, s[s.len() - 1].0));
        lemma_str_less_irreflexive(s[i].0);
    }
}

pub proof fn lemma_to_map_ext<T>(s: Seq<(Seq<char>, T)>, m: Map<Seq<char>, T>)
    requires
        keys_sorted(s),
        forall|i: int| 0 <= i < s.len() ==> m.contains_key((#[trigger] s[i]).0) && m[s[i].0] == s[i].1,
        forall|q: Seq<char>| #[trigger] m.contains_key(q) ==> exists|i: int| 0 <= i < s.len() && (#[trigger] s[i]).0 == q,
    ensures
        to_map(s) == m,
{
    assert forall|q: Seq<char>| #[trigger] to_map(s).contains_key(q) <==> m.contains_key(q) by {
        lemma_to_map_dom(s, q);
    }
    assert forall|q: Seq<char>| #[trigger] to_map(s).contains_key(q) implies to_map(s)[q] == m[q] by {
        lemma_to_map_dom(s, q);
        let i = choose|i: int| 0 <= i < s.len() && (#[trigger] s[i]).0 == q;
        lemma_to_map_value(s, i);
    }
    assert(to_map(s) =~= m);
}

/// A map from strings to values that keeps its entries in key order, as
/// `BTreeMap<String, _>` does.
#[derive(Debug, PartialEq, Eq)]
pub struct StrMap<V: View> {
    entries: Vec<(String, V)>,
}

impl<V: View> View for StrMap<V> {
    type V = Seq<(Seq<char>, V::V)>;

    closed spec fn view(&self) -> Seq<(Seq<char>, V::V)> {
        self.entries@.map_values(|e: (String, V)| (e.0@, e.1@))
    }
}

impl<V: View> StrMap<V> {
    #[verifier::type_invariant]
    closed spec fn sorted(self) -> bool {
        keys_sorted(self@)
    }

    /// The map that the entries denote.
    pub open spec fn as_map(&self) -> Map<Seq<char>, V::V> {
        to_map(self@)
    }

    /// An empty map.
    pub fn new() -> (r: Self)
        ensures
            r@ == Seq::<(Seq<char>, V::V)>::empty(),
    {
        let r = StrMap { entries: Vec::new() };
        assert(r@ =~= Seq::<(Seq<char>, V::V)>::empty());
        r
    }

    /// Number of entries.
    pub fn len(&self) -> (r: usize)
        ensures
            r == self@.len(),
            keys_sorted(self@),
    {
        proof {
            use_type_invariant(self);
        }
        self.entries.len()
    }

    /// Whether the map has no entries.
    pub fn is_empty(&self) -> (r: bool)
        ensures
            r == (self@.len() == 0),
    {
        self.entries.len() == 0
    }

    /// The key of the `i`-th entry in key order.
    pub fn key_at(&self, i: usize) -> (r: &String)
        requires
            i < self@.len(),
        ensures
            r@ == self@[i as int].0,
    {
        &self.entries[i].0
    }

    /// The value of the `i`-th entry in key order.
    pub fn value_at(&self, i: usize) -> (r: &V)
        requires
            i < self@.len(),
        ensures
            r@ == self@[i as int].1,
    {
        &self.entries[i].1
    }

    /// Stores `value` under `key`, replacing what was stored there, and keeping the
    /// entries in key order.
    pub fn insert(&mut self, key: String, value: V)
        ensures
            final(self).as_map() == old(self).as_map().insert(key@, value@),
            keys_sorted(final(self)@),
            final(self)@.len() == old(self)@.len() + if old(self).as_map().contains_key(key@) {
                0int
            } else {
                1int
            },
    {
        proof {
            use_type_invariant(&*self);
        }
        let ghost old_view = self@;
        let mut i: usize = 0;
        while i < self.entries.len() && compare_str(self.entries[i].0.as_str(), key.as_str()) == Cmp::Less
            invariant
                i <= self@.len(),
                self@ == old_view,
                self@.len() == self.entries@.len(),
                keys_sorted(old_view),
                forall|j: int| 0 <= j < i ==> str_less((#[trigger] old_view[j]).0, key@),
            decreases self@.len() - i,
        {
            i = i + 1;
        }
        let ghost m = to_map(old_view).insert(key@, value@);
        proof {
            lemma_to_map_dom(old_view, key@);
            assert forall|j: int| 0 <= j < old_view.len() implies to_map(old_view).contains_key((#[trigger] old_view[j]).0)
                && to_map(old_view)[old_view[j].0] == old_view[j].1 by {
                lemma_to_map_value(old_view, j);
            }
        }
        if i < self.entries.len() && compare_str(self.entries[i].0.as_str(), key.as_str()) == Cmp::Equal {
            let ghost kv = value@;
            let mut entries: Vec<(String, V)> = Vec::new();
            std::mem::swap(&mut entries, &mut self.entries);
            entries.set(i, (key, value));
            let ghost t = old_view.update(i as int, (key@, kv));
            proof {
                assert(entries@.map_values(|e: (String, V)| (e.0@, e.1@)) =~= t);
                assert(keys_sorted(t)) by {
                    assert forall|a: int, b: int| 0 <= a < b < t.len() implies str_less(#[trigger] t[a].0, #[trigger] t[b].0) by {
                        assert(str_less(old_view[a].0, old_view[b].0));
                    }
                }
            }
            self.entries = entries;
            proof {
                assert(self@ =~= t);
                assert forall|q: Seq<char>| #[trigger] m.contains_key(q) implies exists|j: int| 0 <= j < t.len() && (#[trigger] t[j]).0 == q by {
                    if q != key@ {
                        lemma_to_map_dom(old_view, q);
                        let j = choose|j: int| 0 <= j < old_view.len() && (#[trigger] old_view[j]).0 == q;
                        assert(t[j].0 == q);
                    } else {
                        assert(t[i as int].0 == q);
                    }
                }
                assert forall|j: int| 0 <= j < t.len() implies m.contains_key((#[trigger] t[j]).0) && m[t[j].0] == t[j].1 by {
                    if j != i {
                        assert(t[j] == old_view[j]);
                        if old_view[j].0 == key@ {
                            assert(str_less(old_view[j].0, old_view[i as int].0) || str_less(old_view[i as int].0, old_view[j].0));
                            lemma_str_less_irreflexive(key@);
                        }
                    }
                }
                lemma_to_map_ext(t, m);
                assert(old_view.len() == t.len());
                assert(old_view[i as int].0 == key@);
                assert(to_map(old_view).contains_key(key@));
            }
        } else {
            let ghost kv = value@;
            let mut entries: Vec<(String, V)> = Vec::new();
            std::mem::swap(&mut entries, &mut self.entries);
            entries.insert(i, (key, value));
            let ghost t = old_view.insert(i as int, (key@, kv));
            proof {
                assert(entries@.map_values(|e: (String, V)| (e.0@, e.1@)) =~= t);
                if i < old_view.len() {
                    assert(str_less(key@, old_view[i as int].0)) by {
                        lemma_str_less_total(key@, old_view[i as int].0);
                    }
                }
                assert forall|j: int| i <= j < old_view.len() implies str_less(key@, #[trigger] old_view[j].0) by {
                    if j > i {
                        lemma_str_less_transitive(key@, old_view[i as int].0, old_view[j].0);
                    }
                }
                assert(keys_sorted(t)) by {
                    assert forall|a: int, b: int| 0 <= a < b < t.len() implies str_less(#[trigger] t[a].0, #[trigger] t[b].0) by {
                        if a < i && b < i {
                            assert(str_less(old_view[a].0, old_view[b].0));
                        } else if a < i && b == i {
                        } else if a < i {
                            assert(t[b] == old_view[b - 1]);
                            lemma_str_less_transitive(old_view[a].0, key@, old_view[b - 1].0);
                        } else if a == i {
                            assert(t[b] == old_view[b - 1]);
                        } else {
                            assert(t[a] == old_view[a - 1] && t[b] == old_view[b - 1]);
                            assert(str_less(old_view[a - 1].0, old_view[b - 1].0));
                        }
                    }
                }
            }
            self.entries = entries;
            proof {
                assert(self@ =~= t);
                assert forall|j: int| 0 <= j < old_view.len() implies (#[trigger] old_view[j]).0 != key@ by {
                    if j < i {
                        lemma_str_less_irreflexive(key@);
                    } else {
                        lemma_str_less_irreflexive(key@);
                    }
                }
                assert forall|q: Seq<char>| #[trigger] m.contains_key(q) implies exists|j: int| 0 <= j < t.len() && (#[trigger] t[j]).0 == q by {
                    if q != key@ {
                        lemma_to_map_dom(old_view, q);
                        let j = choose|j: int| 0 <= j < old_view.len() && (#[trigger] old_view[j]).0 == q;
                        if j < i {
                            assert(t[j].0 == q);
                        } else {
                            assert(t[j + 1].0 == q);
                        }
                    } else {
                        assert(t[i as int].0 == q);
                    }
                }
                assert forall|j: int| 0 <= j < t.len() implies m.contains_key((#[trigger] t[j]).0) && m[t[j].0] == t[j].1 by {
                    if j < i {
                        assert(t[j] == old_view[j]);
                    } else if j > i {
                        assert(t[j] == old_view[j - 1]);
                    }
                }
                lemma_to_map_ext(t, m);
                assert(!to_map(old_view).contains_key(key@));
            }
        }
    }

    /// The value stored under `key`.
    pub fn get(&self, key: &str) -> (r: Option<&V>)
        ensures
            match r {
                Some(v) => self.as_map().contains_key(key@) && self.as_map()[key@] == v@,
                None => !self.as_map().contains_key(key@),
            },
    {
        proof {
            use_type_invariant(self);
        }
        let mut i: usize = 0;
        while i < self.entries.len()
            invariant
                i <= self@.len(),
                self@.len() == self.entries@.len(),
                keys_sorted(self@),
                forall|j: int| 0 <= j < i ==> (#[trigger] self@[j]).0 != key@,
            decreases self@.len() - i,
        {
            if compare_str(self.entries[i].0.as_str(), key) == Cmp::Equal {
                proof {
                    lemma_to_map_value(self@, i as int);
                }
                return Some(&self.entries[i].1);
            }
            i = i + 1;
        }
        proof {
            lemma_to_map_dom(self@, key@);
        }
        None
    }
}

} // verus!
