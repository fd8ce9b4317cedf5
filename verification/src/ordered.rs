//! Maps keyed by text whose entries are kept in key order, as an ordered map
//! keeps them.  Keys compare character by character by code point, a proper
//! prefix first; code point order is the byte order of UTF-8, so this is the
//! order in which `String` values compare.
use vstd::prelude::*;
use crate::keyed::keyed;

verus! {

/// `a` comes strictly before `b` in the order of text keys.
pub open spec fn text_lt(a: Seq<char>, b: Seq<char>) -> bool
    decreases a.len(),
{
    if b.len() == 0 {
        false
    } else if a.len() == 0 {
        true
    } else if a[0] != b[0] {
        a[0] < b[0]
    } else {
        text_lt(a.drop_first(), b.drop_first())
    }
}

/// No key comes before itself.
pub proof fn lemma_text_lt_irreflexive(a: Seq<char>)
    ensures
        !text_lt(a, a),
    decreases a.len(),
{
    if a.len() > 0 {
        lemma_text_lt_irreflexive(a.drop_first());
    }
}

/// The order is transitive.
pub proof fn lemma_text_lt_transitive(a: Seq<char>, b: Seq<char>, c: Seq<char>)
    requires
        text_lt(a, b),
        text_lt(b, c),
    ensures
        text_lt(a, c),
    decreases a.len(),
{
    if a.len() > 0 && b.len() > 0 && c.len() > 0 && a[0] == b[0] && b[0] == c[0] {
        lemma_text_lt_transitive(a.drop_first(), b.drop_first(), c.drop_first());
    }
}

/// Two different keys are ordered one way or the other.
pub proof fn lemma_text_lt_total(a: Seq<char>, b: Seq<char>)
    requires
        a != b,
    ensures
        text_lt(a, b) || text_lt(b, a),
    decreases a.len(),
{
    if a.len() > 0 && b.len() > 0 {
        if a[0] == b[0] {
            if a.drop_first() == b.drop_first() {
                assert(a =~= seq![a[0]] + a.drop_first());
                assert(b =~= seq![b[0]] + b.drop_first());
            }
            lemma_text_lt_total(a.drop_first(), b.drop_first());
        } else {
        }
    } else if a.len() == 0 && b.len() == 0 {
        assert(a =~= b);
    }
}

/// A key that comes before another one differs from it.
pub proof fn lemma_text_lt_differs(a: Seq<char>, b: Seq<char>)
    requires
        text_lt(a, b),
    ensures
        a != b,
{
    lemma_text_lt_irreflexive(a);
}

/// Whether `a` comes before `b`.
pub fn text_less(a: &[char], b: &[char]) -> (r: bool)
    ensures
        r == text_lt(a@, b@),
{
    let na = a.len();
    let nb = b.len();
    let mut i: usize = 0;
    assert(a@.skip(0) =~= a@);
    assert(b@.skip(0) =~= b@);
    while i < na && i < nb
        invariant
            na == a@.len(),
            nb == b@.len(),
            i <= na,
            i <= nb,
            text_lt(a@, b@) == text_lt(a@.skip(i as int), b@.skip(i as int)),
        decreases na - i,
    {
        let ghost sa = a@.skip(i as int);
        let ghost sb = b@.skip(i as int);
        assert(sa[0] == a@[i as int]);
        assert(sb[0] == b@[i as int]);
        if a[i] != b[i] {
            return a[i] < b[i];
        }
        assert(sa.drop_first() =~= a@.skip(i + 1));
        assert(sb.drop_first() =~= b@.skip(i + 1));
        i = i + 1;
    }
    nb > i
}

/// The keys of the entries strictly increase.
pub open spec fn strictly_sorted<V>(e: Seq<(String, V)>) -> bool {
    forall|i: int, j: int| 0 <= i < j < e.len() ==> text_lt(#[trigger] e[i].0@, #[trigger] e[j].0@)
}

/// The keys of a table are its keys in the map it stands for.
pub proof fn lemma_keyed_dom<V>(e: Seq<(String, V)>, k: Seq<char>)
    ensures
        keyed(e).dom().contains(k) <==> exists|i: int| 0 <= i < e.len() && #[trigger] e[i].0@ == k,
    decreases e.len(),
{
    if e.len() > 0 {
        lemma_keyed_dom(e.drop_last(), k);
        if keyed(e.drop_last()).dom().contains(k) {
            let i = choose|i: int| 0 <= i < e.drop_last().len() && #[trigger] e.drop_last()[i].0@ == k;
            assert(e[i].0@ == k);
        }
        if exists|i: int| 0 <= i < e.len() && #[trigger] e[i].0@ == k {
            let i = choose|i: int| 0 <= i < e.len() && #[trigger] e[i].0@ == k;
            if i < e.len() - 1 {
                assert(e.drop_last()[i].0@ == k);
            }
        }
    }
}

/// In a table whose keys strictly increase, each entry is the value of its key.
pub proof fn lemma_keyed_sorted_at<V>(e: Seq<(String, V)>, i: int)
    requires
        strictly_sorted(e),
        0 <= i < e.len(),
    ensures
        keyed(e).dom().contains(e[i].0@),
        keyed(e)[e[i].0@] == e[i].1,
    decreases e.len(),
{
    if i < e.len() - 1 {
        let d = e.drop_last();
        assert(strictly_sorted(d)) by {
            assert forall|a: int, b: int| 0 <= a < b < d.len() implies text_lt(
                #[trigger] d[a].0@,
                #[trigger] d[b].0@,
            ) by {
                assert(d[a] == e[a] && d[b] == e[b]);
            }
        }
        lemma_keyed_sorted_at(d, i);
        assert(d[i] == e[i]);
        assert(text_lt(e[i].0@, e[e.len() - 1].0@));
        lemma_text_lt_differs(e[i].0@, e.last().0@);
    }
}

/// A map from text keys whose entries are kept in strictly increasing key
/// order.
pub struct OrderedMap<V> {
    pub entries: Vec<(String, V)>,
}

impl<V> View for OrderedMap<V> {
    type V = Map<Seq<char>, V>;

    open spec fn view(&self) -> Map<Seq<char>, V> {
        keyed(self.entries@)
    }
}

impl<V> OrderedMap<V> {
    /// The entries are in strictly increasing key order.
    pub open spec fn wf(&self) -> bool {
        strictly_sorted(self.entries@)
    }

    /// The keys in order.
    pub open spec fn keys(&self) -> Seq<Seq<char>> {
        self.entries@.map_values(|p: (String, V)| p.0@)
    }

    /// An empty map.
    pub fn new() -> (r: Self)
        ensures
            r.wf(),
            r@ == Map::<Seq<char>, V>::empty(),
            r.entries@.len() == 0,
    {
        let r = OrderedMap { entries: Vec::new() };
        assert(r@ =~= Map::<Seq<char>, V>::empty());
        r
    }

    /// The number of keys.
    pub fn len(&self) -> (r: usize)
        requires
            self.wf(),
        ensures
            r == self@.dom().len(),
            r == self.entries@.len(),
    {
        proof {
            self.lemma_dom_len();
        }
        self.entries.len()
    }

    /// Whether the map has no key.
    pub fn is_empty(&self) -> (r: bool)
        requires
            self.wf(),
        ensures
            r == (self@.dom().len() == 0),
            r == (self.entries@.len() == 0),
    {
        proof {
            self.lemma_dom_len();
        }
        self.entries.len() == 0
    }

    /// The number of keys is the number of entries.
    pub proof fn lemma_dom_len(&self)
        requires
            self.wf(),
        ensures
            self@.dom().len() == self.entries@.len(),
            self@.dom().finite(),
            self@.dom() == self.keys().to_set(),
        decreases self.entries@.len(),
    {
        let e = self.entries@;
        assert forall|k: Seq<char>| self@.dom().contains(k) <==> self.keys().to_set().contains(k) by {
            lemma_keyed_dom(e, k);
            if self@.dom().contains(k) {
                let i = choose|i: int| 0 <= i < e.len() && #[trigger] e[i].0@ == k;
                assert(self.keys()[i] == k);
            }
            if self.keys().to_set().contains(k) {
                let i = choose|i: int| 0 <= i < self.keys().len() && self.keys()[i] == k;
                assert(e[i].0@ == k);
            }
        }
        assert(self@.dom() =~= self.keys().to_set());
        assert(self.keys().no_duplicates()) by {
            assert forall|i: int, j: int| 0 <= i < self.keys().len() && 0 <= j < self.keys().len() && i != j implies self.keys()[i] != self.keys()[j] by {
                if i < j {
                    assert(text_lt(e[i].0@, e[j].0@));
                    lemma_text_lt_differs(e[i].0@, e[j].0@);
                } else {
                    assert(text_lt(e[j].0@, e[i].0@));
                    lemma_text_lt_differs(e[j].0@, e[i].0@);
                }
            }
        }
        self.keys().unique_seq_to_set();
    }

    /// The value of each entry is the value of its key.
    pub proof fn lemma_entry(&self, i: int)
        requires
            self.wf(),
            0 <= i < self.entries@.len(),
        ensures
            self@.dom().contains(self.entries@[i].0@),
            self@[self.entries@[i].0@] == self.entries@[i].1,
    {
        lemma_keyed_sorted_at(self.entries@, i);
    }

    /// The position of the first entry whose key is not before `k`.
    fn position(&self, k: &[char]) -> (p: usize)
        requires
            self.wf(),
        ensures
            p <= self.entries@.len(),
            forall|i: int| 0 <= i < p ==> text_lt(#[trigger] self.entries@[i].0@, k@),
            p < self.entries@.len() ==> !text_lt(self.entries@[p as int].0@, k@),
    {
        let n = self.entries.len();
        let mut p: usize = 0;
        while p < n
            invariant
                n == self.entries@.len(),
                p <= n,
                forall|i: int| 0 <= i < p ==> text_lt(#[trigger] self.entries@[i].0@, k@),
            decreases n - p,
        {
            let key = crate::text::chars_of(self.entries[p].0.as_str());
            if !text_less(key.as_slice(), k) {
                return p;
            }
            p = p + 1;
        }
        p
    }

    /// The value of `k`, if it has one.
    pub fn get(&self, k: &str) -> (r: Option<&V>)
        requires
            self.wf(),
        ensures
            match r {
                Some(v) => self@.dom().contains(k@) && self@[k@] == *v,
                None => !self@.dom().contains(k@),
            },
    {
        let kc = crate::text::chars_of(k);
        let p = self.position(kc.as_slice());
        if p < self.entries.len() {
            let key = crate::text::chars_of(self.entries[p].0.as_str());
            if crate::text::seq_eq(key.as_slice(), kc.as_slice()) {
                proof {
                    self.lemma_entry(p as int);
                }
                return Some(&self.entries[p].1);
            }
        }
        proof {
            lemma_keyed_dom(self.entries@, k@);
            if self@.dom().contains(k@) {
                let e = self.entries@;
                let i = choose|i: int| 0 <= i < e.len() && #[trigger] e[i].0@ == k@;
                if i < p {
                    lemma_text_lt_irreflexive(k@);
                } else {
                    if i > p {
                        assert(text_lt(e[p as int].0@, e[i].0@));
                        lemma_text_lt_total(e[p as int].0@, k@);
                    }
                }
            }
        }
        None
    }

    /// Whether `k` has a value.
    pub fn contains_key(&self, k: &str) -> (r: bool)
        requires
            self.wf(),
        ensures
            r == self@.dom().contains(k@),
    {
        self.get(k).is_some()
    }

    /// Sets `k` to `v`.
    pub fn insert(&mut self, k: String, v: V)
        requires
            old(self).wf(),
        ensures
            final(self).wf(),
            final(self)@ == old(self)@.insert(k@, v),
    {
        let kc = crate::text::chars_of(k.as_str());
        let p = self.position(kc.as_slice());
        let ghost e = self.entries@;
        let ghost kk = k@;
        let same = if p < self.entries.len() {
            let key = crate::text::chars_of(self.entries[p].0.as_str());
            crate::text::seq_eq(key.as_slice(), kc.as_slice())
        } else {
            false
        };
        if same {
            self.entries.set(p, (k, v));
            proof {
                let ne = self.entries@;
                assert(ne == e.update(p as int, (ne[p as int].0, v)));
                assert(strictly_sorted(ne)) by {
                    assert forall|a: int, b: int| 0 <= a < b < ne.len() implies text_lt(
                        #[trigger] ne[a].0@,
                        #[trigger] ne[b].0@,
                    ) by {
                        assert(text_lt(e[a].0@, e[b].0@));
                    }
                }
                self.lemma_map_after(e, kk, v, p as int);
            }
        } else {
            self.entries.insert(p, (k, v));
            proof {
                let ne = self.entries@;
                assert(strictly_sorted(ne)) by {
                    assert forall|a: int, b: int| 0 <= a < b < ne.len() implies text_lt(
                        #[trigger] ne[a].0@,
                        #[trigger] ne[b].0@,
                    ) by {
                        if p < e.len() {
                            assert(e[p as int].0@ != kk);
                            lemma_text_lt_total(e[p as int].0@, kk);
                        }
                        if b < p {
                            assert(text_lt(e[a].0@, e[b].0@));
                        } else if b == p {
                            assert(ne[a] == e[a]);
                        } else if a < p {
                            assert(ne[b] == e[b - 1]);
                            assert(text_lt(e[a].0@, kk));
                            if b - 1 > p {
                                assert(text_lt(e[p as int].0@, e[b - 1].0@));
                                lemma_text_lt_transitive(kk, e[p as int].0@, e[b - 1].0@);
                            }
                            lemma_text_lt_transitive(e[a].0@, kk, e[b - 1].0@);
                        } else if a == p {
                            assert(ne[b] == e[b - 1]);
                            if b - 1 > p {
                                assert(text_lt(e[p as int].0@, e[b - 1].0@));
                                lemma_text_lt_transitive(kk, e[p as int].0@, e[b - 1].0@);
                            }
                        } else {
                            assert(text_lt(e[a - 1].0@, e[b - 1].0@));
                        }
                    }
                }
                self.lemma_map_after(e, kk, v, p as int);
            }
        }
    }

    /// After a key is set, each key has its old value but the new one.
    proof fn lemma_map_after(&self, e: Seq<(String, V)>, kk: Seq<char>, v: V, p: int)
        requires
            strictly_sorted(e),
            self.wf(),
            0 <= p <= e.len(),
            forall|i: int| 0 <= i < p ==> text_lt(#[trigger] e[i].0@, kk),
            p < e.len() ==> !text_lt(e[p].0@, kk),
            (p < e.len() && e[p].0@ == kk) ==> self.entries@ == e.update(p, (self.entries@[p].0, v)),
            !(p < e.len() && e[p].0@ == kk) ==> self.entries@.len() == e.len() + 1
                && self.entries@[p].1 == v && self.entries@[p].0@ == kk
                && (forall|i: int| 0 <= i < p ==> self.entries@[i] == e[i])
                && (forall|i: int| p < i < self.entries@.len() ==> self.entries@[i] == e[i - 1]),
            (p < e.len() && e[p].0@ == kk) ==> self.entries@[p].0@ == kk,
        ensures
            self@ == keyed(e).insert(kk, v),
    {
        let ne = self.entries@;
        let replaced = p < e.len() && e[p].0@ == kk;
        assert forall|k: Seq<char>| #[trigger] self@.dom().contains(k) <==> keyed(e).insert(kk, v).dom().contains(k) by {
            lemma_keyed_dom(ne, k);
            lemma_keyed_dom(e, k);
            if self@.dom().contains(k) && k != kk {
                let i = choose|i: int| 0 <= i < ne.len() && #[trigger] ne[i].0@ == k;
                if replaced {
                    assert(e[i].0@ == k);
                } else if i < p {
                    assert(e[i].0@ == k);
                } else if i > p {
                    assert(e[i - 1].0@ == k);
                }
            }
            if keyed(e).dom().contains(k) && k != kk {
                let i = choose|i: int| 0 <= i < e.len() && #[trigger] e[i].0@ == k;
                if replaced || i < p {
                    assert(ne[i].0@ == k);
                } else {
                    assert(ne[i + 1].0@ == k);
                }
            }
            if k == kk {
                assert(ne[p].0@ == kk);
            }
        }
        assert forall|k: Seq<char>| #[trigger] self@.dom().contains(k) implies self@[k] == keyed(e).insert(kk, v)[k] by {
            lemma_keyed_dom(ne, k);
            let i = choose|i: int| 0 <= i < ne.len() && #[trigger] ne[i].0@ == k;
            lemma_keyed_sorted_at(ne, i);
            if k == kk {
                if i != p {
                    if i < p {
                        lemma_text_lt_differs(ne[i].0@, ne[p].0@);
                    } else {
                        lemma_text_lt_differs(ne[p].0@, ne[i].0@);
                    }
                }
            } else {
                if replaced {
                    assert(ne[i] == e[i]);
                    lemma_keyed_sorted_at(e, i);
                } else if i < p {
                    assert(ne[i] == e[i]);
                    lemma_keyed_sorted_at(e, i);
                } else {
                    assert(i != p);
                    assert(ne[i] == e[i - 1]);
                    lemma_keyed_sorted_at(e, i - 1);
                }
            }
        }
        assert(self@ =~= keyed(e).insert(kk, v));
    }

    /// Removes `k` and its value.
    pub fn remove(&mut self, k: &str)
        requires
            old(self).wf(),
        ensures
            final(self).wf(),
            final(self)@ == old(self)@.remove(k@),
    {
        let kc = crate::text::chars_of(k);
        let p = self.position(kc.as_slice());
        let ghost e = self.entries@;
        if p < self.entries.len() {
            let key = crate::text::chars_of(self.entries[p].0.as_str());
            if crate::text::seq_eq(key.as_slice(), kc.as_slice()) {
                self.entries.remove(p);
                proof {
                    let ne = self.entries@;
                    assert(strictly_sorted(ne)) by {
                        assert forall|a: int, b: int| 0 <= a < b < ne.len() implies text_lt(
                            #[trigger] ne[a].0@,
                            #[trigger] ne[b].0@,
                        ) by {
                            if b < p {
                                assert(text_lt(e[a].0@, e[b].0@));
                            } else if a < p {
                                assert(text_lt(e[a].0@, e[b + 1].0@));
                            } else {
                                assert(text_lt(e[a + 1].0@, e[b + 1].0@));
                            }
                        }
                    }
                    assert forall|x: Seq<char>| #[trigger] self@.dom().contains(x) <==> keyed(e).remove(k@).dom().contains(x) by {
                        lemma_keyed_dom(ne, x);
                        lemma_keyed_dom(e, x);
                        if self@.dom().contains(x) {
                            let i = choose|i: int| 0 <= i < ne.len() && #[trigger] ne[i].0@ == x;
                            if i < p {
                                assert(e[i].0@ == x);
                                assert(text_lt(e[i].0@, e[p as int].0@));
                                lemma_text_lt_differs(e[i].0@, e[p as int].0@);
                            } else {
                                assert(e[i + 1].0@ == x);
                                assert(text_lt(e[p as int].0@, e[i + 1].0@));
                                lemma_text_lt_differs(e[p as int].0@, e[i + 1].0@);
                            }
                        }
                        if keyed(e).remove(k@).dom().contains(x) {
                            let i = choose|i: int| 0 <= i < e.len() && #[trigger] e[i].0@ == x;
                            if i < p {
                                assert(ne[i].0@ == x);
                            } else if i > p {
                                assert(ne[i - 1].0@ == x);
                            }
                        }
                    }
                    assert forall|x: Seq<char>| #[trigger] self@.dom().contains(x) implies self@[x] == keyed(e).remove(k@)[x] by {
                        lemma_keyed_dom(ne, x);
                        let i = choose|i: int| 0 <= i < ne.len() && #[trigger] ne[i].0@ == x;
                        lemma_keyed_sorted_at(ne, i);
                        if i < p {
                            assert(ne[i] == e[i]);
                            lemma_keyed_sorted_at(e, i);
                        } else {
                            assert(ne[i] == e[i + 1]);
                            lemma_keyed_sorted_at(e, i + 1);
                        }
                    }
                    assert(self@ =~= keyed(e).remove(k@));
                }
                return;
            }
        }
        proof {
            lemma_keyed_dom(e, k@);
            if keyed(e).dom().contains(k@) {
                let i = choose|i: int| 0 <= i < e.len() && #[trigger] e[i].0@ == k@;
                if i < p {
                    lemma_text_lt_irreflexive(k@);
                } else if i > p {
                    assert(text_lt(e[p as int].0@, e[i].0@));
                    lemma_text_lt_total(e[p as int].0@, k@);
                }
            }
            assert(keyed(e).remove(k@) =~= keyed(e));
        }
    }
}


/// Mapping both sides keeps two sequences with the same elements so.
pub proof fn lemma_map_multiset<A, B>(a: Seq<A>, b: Seq<A>, f: spec_fn(A) -> B)
    requires
        a.to_multiset() == b.to_multiset(),
    ensures
        a.map_values(f).to_multiset() == b.map_values(f).to_multiset(),
    decreases a.len(),
{
    broadcast use vstd::seq_lib::group_to_multiset_ensures;

    if a.len() == 0 {
        assert(a.to_multiset().len() == 0);
        assert(b.to_multiset().len() == b.len());
        assert(b.len() == 0);
        assert(a.map_values(f) =~= Seq::<B>::empty());
        assert(b.map_values(f) =~= Seq::<B>::empty());
    } else {
        let x = a.last();
        let a1 = a.drop_last();
        assert(a =~= a1.push(x));
        assert(a.contains(x));
        assert(a.to_multiset().count(x) > 0);
        assert(b.contains(x));
        let j = choose|j: int| 0 <= j < b.len() && b[j] == x;
        let b1 = b.remove(j);
        assert(b1.to_multiset() =~= b.to_multiset().remove(x));
        assert(a1.to_multiset() =~= a.to_multiset().remove(x));
        lemma_map_multiset(a1, b1, f);
        assert(a.map_values(f) =~= a1.map_values(f).push(f(x)));
        assert(b.map_values(f) =~= b1.map_values(f).insert(j, f(x)));
    }
}

/// The keys of the entries never decrease.
pub open spec fn keys_ordered<V>(e: Seq<(String, V)>) -> bool {
    forall|a: int, b: int| 0 <= a < b < e.len() ==> !text_lt(#[trigger] e[b].0@, #[trigger] e[a].0@)
}

fn first_key_after<V>(out: &Vec<(String, V)>, k: &String) -> (p: usize)
    ensures
        p <= out@.len(),
        forall|q: int| 0 <= q < p ==> !text_lt(k@, #[trigger] out@[q].0@),
        p < out@.len() ==> text_lt(k@, out@[p as int].0@),
{
    let kc = crate::text::chars_of(k.as_str());
    let mut p: usize = 0;
    while p < out.len()
        invariant
            p <= out@.len(),
            kc@ == k@,
            forall|q: int| 0 <= q < p ==> !text_lt(k@, #[trigger] out@[q].0@),
        decreases out@.len() - p,
    {
        let c = crate::text::chars_of(out[p].0.as_str());
        if text_less(kc.as_slice(), c.as_slice()) {
            return p;
        }
        p = p + 1;
    }
    p
}

/// The entries with key `k`, in order.
pub open spec fn with_key<V>(s: Seq<(String, V)>, k: Seq<char>) -> Seq<(String, V)> {
    s.filter(key_is::<V>(k))
}

/// The test that an entry has key `k`.
pub open spec fn key_is<V>(k: Seq<char>) -> spec_fn((String, V)) -> bool {
    |e: (String, V)| e.0@ == k
}

/// The values of entries.
pub open spec fn pair_values<V>(p: Seq<(String, V)>) -> Seq<V> {
    p.map_values(|e: (String, V)| e.1)
}

/// Where an entry has key `k` exactly when `pred` holds of its value, the
/// values of the entries with key `k` are the values for which `pred`
/// holds, in order.
pub proof fn lemma_with_key_values<V>(p: Seq<(String, V)>, pred: spec_fn(V) -> bool, k: Seq<char>)
    requires
        forall|i: int| 0 <= i < p.len() ==> (pred((#[trigger] p[i]).1) <==> p[i].0@ == k),
    ensures
        pair_values(with_key(p, k)) == pair_values(p).filter(pred),
    decreases p.len(),
{
    reveal(Seq::filter);
    if p.len() > 0 {
        let q = p.drop_last();
        assert forall|i: int| 0 <= i < q.len() implies (pred((#[trigger] q[i]).1) <==> q[i].0@ == k) by {
            assert(q[i] == p[i]);
        }
        lemma_with_key_values(q, pred, k);
        assert(pair_values(p).drop_last() =~= pair_values(q));
        assert(pair_values(p).last() == p.last().1);
        assert(p.last() == p[p.len() - 1]);
        if key_is::<V>(k)(p.last()) {
            assert(pair_values(with_key(p, k)) =~= pair_values(with_key(q, k)).push(p.last().1));
        } else {
            assert(pair_values(with_key(p, k)) =~= pair_values(with_key(q, k)));
        }
    } else {
        assert(pair_values(with_key(p, k)) =~= pair_values(p).filter(pred));
    }
}

/// Where an entry has key `k` exactly when `pred` holds of the view of its
/// value, the views of the values of the entries with key `k` are the views
/// for which `pred` holds, in order.
pub proof fn lemma_with_key_views<V, W>(
    p: Seq<(String, V)>,
    view: spec_fn(V) -> W,
    pred: spec_fn(W) -> bool,
    k: Seq<char>,
)
    requires
        forall|i: int| 0 <= i < p.len() ==> (pred(view((#[trigger] p[i]).1)) <==> p[i].0@ == k),
    ensures
        pair_values(with_key(p, k)).map_values(view) == pair_values(p).map_values(view).filter(pred),
    decreases p.len(),
{
    reveal(Seq::filter);
    if p.len() > 0 {
        let q = p.drop_last();
        assert forall|i: int| 0 <= i < q.len() implies (pred(view((#[trigger] q[i]).1)) <==> q[i].0@ == k) by {
            assert(q[i] == p[i]);
        }
        lemma_with_key_views(q, view, pred, k);
        assert(pair_values(p).map_values(view).drop_last() =~= pair_values(q).map_values(view));
        assert(pair_values(p).map_values(view).last() == view(p.last().1));
        assert(p.last() == p[p.len() - 1]);
        if key_is::<V>(k)(p.last()) {
            assert(pair_values(with_key(p, k)).map_values(view) =~= pair_values(with_key(q, k)).map_values(view).push(
                view(p.last().1),
            ));
        } else {
            assert(pair_values(with_key(p, k)).map_values(view) =~= pair_values(with_key(q, k)).map_values(view));
        }
    } else {
        assert(pair_values(with_key(p, k)).map_values(view) =~= pair_values(p).map_values(view).filter(pred));
    }
}

/// The entries at and after `p` of key-ordered entries all have keys above
/// `k` when the one at `p` does.
proof fn lemma_keys_after<V>(b: Seq<(String, V)>, p: int, k: Seq<char>)
    requires
        keys_ordered(b),
        0 <= p < b.len(),
        text_lt(k, b[p].0@),
    ensures
        forall|q: int| p <= q < b.len() ==> b[q].0@ != k,
{
    assert forall|q: int| p <= q < b.len() implies b[q].0@ != k by {
        if q > p {
            assert(!text_lt(b[q].0@, b[p].0@));
            if b[q].0@ != b[p].0@ {
                lemma_text_lt_total(b[q].0@, b[p].0@);
                lemma_text_lt_transitive(k, b[p].0@, b[q].0@);
            }
        }
        if b[q].0@ == k {
            lemma_text_lt_transitive(k, b[p].0@, k);
            lemma_text_lt_irreflexive(k);
            if q > p && b[q].0@ != b[p].0@ {
                lemma_text_lt_irreflexive(k);
            }
        }
    }
}

/// The entries sorted by key, entries with equal keys keeping their order.
pub fn sort_by_key<V>(v: Vec<(String, V)>) -> (r: Vec<(String, V)>)
    ensures
        keys_ordered(r@),
        r@.to_multiset() == v@.to_multiset(),
        forall|k: Seq<char>| #[trigger] with_key(r@, k) == with_key(v@, k),
{
    let ghost all = v@;
    let mut rest = v;
    let mut out: Vec<(String, V)> = Vec::new();
    let n = rest.len();
    let mut i: usize = 0;
    proof {
        assert(out@ =~= all.take(0));
        assert(rest@ =~= all.skip(0));
    }
    while rest.len() > 0
        invariant
            n == all.len(),
            i + rest@.len() == n,
            rest@ == all.skip(i as int),
            keys_ordered(out@),
            out@.to_multiset() == all.take(i as int).to_multiset(),
            forall|k: Seq<char>| #[trigger] with_key(out@, k) == with_key(all.take(i as int), k),
        decreases rest@.len(),
    {
        let x = rest.remove(0);
        assert(x == all[i as int]);
        assert(rest@ =~= all.skip(i + 1));
        let ghost xk = x.0@;
        let p = first_key_after(&out, &x.0);
        let ghost b = out@;
        out.insert(p, x);
        proof {
            broadcast use vstd::seq_lib::group_to_multiset_ensures;

            assert(out@ == b.insert(p as int, x));
            assert forall|a: int, c: int| 0 <= a < c < out@.len() implies !text_lt(
                #[trigger] out@[c].0@,
                #[trigger] out@[a].0@,
            ) by {
                let ka = out@[a].0@;
                let kc = out@[c].0@;
                if text_lt(kc, ka) {
                    if a < p && c == p {
                        assert(out@[a] == b[a]);
                    } else if a == p {
                        assert(out@[c] == b[c - 1]);
                        assert(text_lt(xk, b[p as int].0@));
                        if c - 1 > p {
                            assert(!text_lt(b[c - 1].0@, b[p as int].0@));
                            if b[c - 1].0@ != b[p as int].0@ {
                                lemma_text_lt_total(b[c - 1].0@, b[p as int].0@);
                                lemma_text_lt_transitive(xk, b[p as int].0@, b[c - 1].0@);
                            }
                        }
                        lemma_text_lt_transitive(xk, kc, xk);
                        lemma_text_lt_irreflexive(xk);
                    } else {
                        let oa = if a < p {
                            a
                        } else {
                            a - 1
                        };
                        let oc = if c < p {
                            c
                        } else {
                            c - 1
                        };
                        assert(out@[a] == b[oa]);
                        assert(out@[c] == b[oc]);
                    }
                }
            }
            assert(all.take(i + 1) =~= all.take(i as int).push(x));
            assert(out@.to_multiset() =~= all.take(i + 1).to_multiset());
            assert forall|k: Seq<char>| #[trigger] with_key(out@, k) == with_key(all.take(i + 1), k) by {
                reveal(Seq::filter);
                let pred = key_is::<V>(k);
                let t = all.take(i + 1);
                assert(with_key(all.take(i as int), k) == with_key(b, k));
                assert(t.drop_last() =~= all.take(i as int));
                assert(t.last() == x);
                let one = seq![x];
                assert(one.drop_last() =~= Seq::<(String, V)>::empty());
                assert(Seq::<(String, V)>::empty().filter(pred) =~= Seq::<(String, V)>::empty());
                assert(one.filter(pred) == if pred(x) { seq![x] } else { Seq::<(String, V)>::empty() });
                assert(b =~= b.take(p as int) + b.skip(p as int));
                assert(out@ =~= (b.take(p as int) + one) + b.skip(p as int));
                Seq::filter_distributes_over_add(b.take(p as int), b.skip(p as int), pred);
                Seq::filter_distributes_over_add(b.take(p as int) + one, b.skip(p as int), pred);
                Seq::filter_distributes_over_add(b.take(p as int), one, pred);
                if k == xk && p < b.len() {
                    lemma_keys_after(b, p as int, xk);
                    let tail = b.skip(p as int);
                    assert(tail.all(|e: (String, V)| !pred(e))) by {
                        assert forall|q: int| 0 <= q < tail.len() implies !pred(#[trigger] tail[q]) by {
                            assert(tail[q] == b[p + q]);
                        }
                    }
                    tail.lemma_all_neg_filter_empty(pred);
                    assert(tail.filter(pred) =~= Seq::<(String, V)>::empty());
                }
                if k == xk && p == b.len() {
                    assert(b.skip(p as int) =~= Seq::<(String, V)>::empty());
                }
                assert(t.filter(pred) == all.take(i as int).filter(pred) + one.filter(pred)) by {
                    if pred(x) {
                        assert(all.take(i as int).filter(pred) + one.filter(pred) =~= all.take(i as int).filter(pred).push(x));
                    } else {
                        assert(all.take(i as int).filter(pred) + one.filter(pred) =~= all.take(i as int).filter(pred));
                    }
                }
                assert(with_key(out@, k) =~= with_key(all.take(i + 1), k));
            }
        }
        i = i + 1;
    }
    assert(all.take(n as int) =~= all);
    out
}

} // verus!
