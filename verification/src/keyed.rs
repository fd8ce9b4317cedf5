//! Text-keyed tables: a vector of (key, value) pairs read as a map in which
//! a later pair overrides an earlier one with the same key.
use vstd::prelude::*;

verus! {

/// The map a table stands for.
pub open spec fn keyed<V>(v: Seq<(String, V)>) -> Map<Seq<char>, V>
    decreases v.len(),
{
    if v.len() == 0 {
        Map::empty()
    } else {
        keyed(v.drop_last()).insert(v.last().0@, v.last().1)
    }
}

/// The table without the pairs whose key is `k`.
pub open spec fn without_key<V>(v: Seq<(String, V)>, k: Seq<char>) -> Seq<(String, V)>
    decreases v.len(),
{
    if v.len() == 0 {
        seq![]
    } else if v.last().0@ == k {
        without_key(v.drop_last(), k)
    } else {
        without_key(v.drop_last(), k).push(v.last())
    }
}

/// Dropping the pairs of a key and then setting it is setting it.
pub proof fn lemma_keyed_without<V>(v: Seq<(String, V)>, k: Seq<char>, x: V)
    ensures
        keyed(without_key(v, k)).insert(k, x) == keyed(v).insert(k, x),
    decreases v.len(),
{
    if v.len() > 0 {
        lemma_keyed_without(v.drop_last(), k, x);
        let lk = v.last().0@;
        let lv = v.last().1;
        if lk == k {
            assert(keyed(v).insert(k, x) =~= keyed(v.drop_last()).insert(k, x));
        } else {
            let w = without_key(v.drop_last(), k);
            assert(w.push(v.last()).drop_last() =~= w);
            assert(keyed(without_key(v, k)) == keyed(w).insert(lk, lv));
            assert(keyed(without_key(v, k)).insert(k, x) =~= keyed(without_key(v.drop_last(), k)).insert(
                k,
                x,
            ).insert(lk, lv));
            assert(keyed(v).insert(k, x) =~= keyed(v.drop_last()).insert(k, x).insert(lk, lv));
        }
    }
}

/// No key occurs twice.
pub open spec fn distinct_keys<V>(v: Seq<(String, V)>) -> bool {
    forall|i: int, j: int| 0 <= i < j < v.len() ==> (#[trigger] v[i]).0@ != (#[trigger] v[j]).0@
}

/// The keys, in order.
pub open spec fn key_seq<V>(v: Seq<(String, V)>) -> Seq<Seq<char>> {
    v.map_values(|p: (String, V)| p.0@)
}

/// Dropping the pairs of a key keeps the keys distinct, drops the key, and
/// keeps only keys that were there.
pub proof fn lemma_without_key_distinct<V>(v: Seq<(String, V)>, k: Seq<char>)
    requires
        distinct_keys(v),
    ensures
        distinct_keys(without_key(v, k)),
        forall|i: int|
            0 <= i < without_key(v, k).len() ==> (#[trigger] without_key(v, k)[i]).0@ != k && key_seq(v).contains(
                without_key(v, k)[i].0@,
            ),
    decreases v.len(),
{
    if v.len() > 0 {
        let d = v.drop_last();
        assert(distinct_keys(d)) by {
            assert forall|i: int, j: int| 0 <= i < j < d.len() implies (#[trigger] d[i]).0@ != (#[trigger] d[j]).0@ by {
                assert(d[i] == v[i] && d[j] == v[j]);
            }
        }
        lemma_without_key_distinct(d, k);
        let w = without_key(d, k);
        assert forall|i: int| 0 <= i < w.len() implies key_seq(v).contains(#[trigger] w[i].0@) by {
            let j = choose|j: int| 0 <= j < key_seq(d).len() && key_seq(d)[j] == w[i].0@;
            assert(key_seq(v)[j] == v[j].0@);
            assert(v[j] == d[j]);
        }
        if v.last().0@ != k {
            assert forall|i: int| 0 <= i < w.len() implies (#[trigger] w[i]).0@ != v.last().0@ by {
                let j = choose|j: int| 0 <= j < key_seq(d).len() && key_seq(d)[j] == w[i].0@;
                assert(d[j] == v[j]);
                assert(v[j].0@ != v[v.len() - 1].0@);
            }
            assert(key_seq(v)[v.len() - 1] == v.last().0@);
        }
    }
}

/// Sets `k` to `x`: the pairs of `k` are dropped and the new pair appended.
pub fn upsert<V>(v: Vec<(String, V)>, k: String, x: V) -> (r: Vec<(String, V)>)
    ensures
        keyed(r@) == keyed(v@).insert(k@, x),
        distinct_keys(v@) ==> distinct_keys(r@),
{
    let mut v = v;
    let mut rest: Vec<(String, V)> = Vec::new();
    let ghost orig = v@;
    let ghost kk = k@;
    let n = v.len();
    let mut taken: usize = 0;
    while v.len() > 0
        invariant
            n == orig.len(),
            taken + v@.len() == orig.len(),
            v@ == orig.skip(taken as int),
            rest@ == without_key(orig.take(taken as int), kk),
            kk == k@,
        decreases v@.len(),
    {
        let ghost t = orig.take(taken + 1);
        assert(t.drop_last() =~= orig.take(taken as int));
        assert(t.last() == orig[taken as int]);
        let pair = v.remove(0);
        assert(v@ =~= orig.skip(taken + 1));
        let same = crate::text::eq_str_string(&pair.0, &k);
        if !same {
            rest.push(pair);
        }
        taken = taken + 1;
    }
    assert(orig.take(orig.len() as int) =~= orig);
    proof {
        lemma_keyed_without(orig, kk, x);
    }
    let ghost before = rest@;
    proof {
        if distinct_keys(orig) {
            lemma_without_key_distinct(orig, kk);
        }
    }
    rest.push((k, x));
    assert(rest@.drop_last() =~= before);
    proof {
        if distinct_keys(orig) {
            assert forall|i: int, j: int| 0 <= i < j < rest@.len() implies (#[trigger] rest@[i]).0@ != (#[trigger] rest@[j]).0@ by {
                if j == rest@.len() - 1 {
                    assert(rest@[i] == before[i]);
                } else {
                    assert(rest@[i] == before[i] && rest@[j] == before[j]);
                }
            }
        }
    }
    assert(keyed(rest@) == keyed(without_key(orig, kk)).insert(kk, x));
    rest
}

/// The value of `k` in a table of text values.
pub fn lookup(v: &Vec<(String, String)>, k: &str) -> (r: Option<String>)
    ensures
        match r {
            Some(s) => keyed(v@).dom().contains(k@) && keyed(v@)[k@] == s,
            None => !keyed(v@).dom().contains(k@),
        },
{
    let kv = crate::text::chars_of(k);
    let mut i = v.len();
    assert(v@.take(i as int) =~= v@);
    while i > 0
        invariant
            i <= v@.len(),
            keyed(v@).dom().contains(k@) == keyed(v@.take(i as int)).dom().contains(k@),
            keyed(v@).dom().contains(k@) ==> keyed(v@)[k@] == keyed(v@.take(i as int))[k@],
            kv@ == k@,
        decreases i,
    {
        let ghost t = v@.take(i as int);
        assert(t.drop_last() =~= v@.take(i - 1));
        assert(t.last() == v@[i - 1]);
        let key = crate::text::chars_of(v[i - 1].0.as_str());
        if crate::text::seq_eq(key.as_slice(), kv.as_slice()) {
            return Some(v[i - 1].1.clone());
        }
        i = i - 1;
    }
    None
}

} // verus!

verus! {

/// The map a table of text values stands for, as views.
pub open spec fn text_map(v: Seq<(String, String)>) -> Map<Seq<char>, Seq<char>> {
    keyed(v).map_values(|s: String| s@)
}

/// Sets `k` to `x` in a table of text values.
pub fn upsert_text(v: Vec<(String, String)>, k: String, x: String) -> (r: Vec<(String, String)>)
    ensures
        text_map(r@) == text_map(v@).insert(k@, x@),
        distinct_keys(v@) ==> distinct_keys(r@),
{
    let ghost old_v = v@;
    let r = upsert(v, k, x);
    assert(text_map(r@) =~= text_map(old_v).insert(k@, x@));
    r
}

} // verus!
