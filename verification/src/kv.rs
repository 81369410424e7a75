use vstd::prelude::*;

verus! {

/// The map denoted by a string-keyed association list, with keys and values
/// taken through their views; a later entry for a key shadows an earlier one.
pub open spec fn kv_map<V: View>(s: Seq<(String, V)>) -> Map<Seq<char>, V::V>
    decreases s.len(),
{
    if s.len() == 0 {
        Map::empty()
    } else {
        kv_map(s.drop_last()).insert(s.last().0@, s.last().1@)
    }
}

/// No two entries share a key.
pub open spec fn kv_distinct<V>(s: Seq<(String, V)>) -> bool {
    forall|i: int, j: int| 0 <= i < j < s.len() ==> (#[trigger] s[i]).0@ != (#[trigger] s[j]).0@
}

/// A key is in the map exactly when some entry carries it.
pub proof fn lemma_kv_contains<V: View>(s: Seq<(String, V)>, k: Seq<char>)
    ensures
        kv_map(s).dom().contains(k) <==> exists|i: int| 0 <= i < s.len() && (#[trigger] s[i]).0@
            == k,
    decreases s.len(),
{
    if s.len() > 0 {
        lemma_kv_contains(s.drop_last(), k);
        if s.last().0@ == k {
            assert(s[s.len() - 1].0@ == k);
        } else if kv_map(s).dom().contains(k) {
            let i = choose|i: int| 0 <= i < s.drop_last().len() && (#[trigger] s.drop_last()[i]).0@
                == k;
            assert(s[i].0@ == k);
        } else if exists|i: int| 0 <= i < s.len() && (#[trigger] s[i]).0@ == k {
            let i = choose|i: int| 0 <= i < s.len() && (#[trigger] s[i]).0@ == k;
            assert(s.drop_last()[i].0@ == k);
        }
    }
}

/// With distinct keys, the entry at `i` gives the map's value at its key.
pub proof fn lemma_kv_get<V: View>(s: Seq<(String, V)>, i: int)
    requires
        kv_distinct(s),
        0 <= i < s.len(),
    ensures
        kv_map(s).dom().contains(s[i].0@),
        kv_map(s)[s[i].0@] == s[i].1@,
    decreases s.len(),
{
    if i < s.len() - 1 {
        assert(kv_distinct(s.drop_last())) by {
            assert(forall|x: int|
                0 <= x < s.drop_last().len() ==> #[trigger] s.drop_last()[x] == s[x]);
        }
        lemma_kv_get(s.drop_last(), i);
        assert(s.drop_last()[i] == s[i]);
        assert(s[i].0@ != s.last().0@);
    }
}

/// Appending a fresh entry inserts its binding.
pub proof fn lemma_kv_push<V: View>(s: Seq<(String, V)>, p: (String, V))
    ensures
        kv_map(s.push(p)) == kv_map(s).insert(p.0@, p.1@),
{
    assert(s.push(p).drop_last() =~= s);
    assert(s.push(p).last() == p);
}

/// Overwriting the entry at `i` with one carrying the same key updates the
/// map at that key.
pub proof fn lemma_kv_update<V: View>(s: Seq<(String, V)>, i: int, q: (String, V))
    requires
        kv_distinct(s),
        0 <= i < s.len(),
        q.0@ == s[i].0@,
    ensures
        kv_map(s.update(i, q)) =~= kv_map(s).insert(q.0@, q.1@),
        kv_distinct(s.update(i, q)),
    decreases s.len(),
{
    let t = s.update(i, q);
    assert(forall|x: int| 0 <= x < s.len() && x != i ==> #[trigger] t[x] == s[x]);
    assert(t[i] == q);
    if i == s.len() - 1 {
        assert(t.drop_last() =~= s.drop_last());
        assert(t.last() == q);
    } else {
        assert(kv_distinct(s.drop_last())) by {
            assert(forall|x: int|
                0 <= x < s.drop_last().len() ==> #[trigger] s.drop_last()[x] == s[x]);
        }
        assert(t.drop_last() =~= s.drop_last().update(i, q));
        lemma_kv_update(s.drop_last(), i, q);
        assert(t.last() == s.last());
        assert(s.last().0@ != q.0@);
        assert(kv_map(t) =~= kv_map(s).insert(q.0@, q.1@));
    }
}

/// Compares two string slices by their character sequences.
pub fn str_eq(a: &str, b: &str) -> (r: bool)
    ensures
        r == (a@ == b@),
{
    let sa: String = a.to_owned();
    let sb: String = b.to_owned();
    sa == sb
}

} // verus!
