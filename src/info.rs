use vstd::prelude::*;

verus! {

/// The characters of each (key, value) pair.
pub open spec fn pair_views(ps: Seq<(String, String)>) -> Seq<(Seq<char>, Seq<char>)> {
    ps.map_values(|p: (String, String)| (p.0@, p.1@))
}

/// The characters of each string.
pub open spec fn string_views(vs: Seq<String>) -> Seq<Seq<char>> {
    vs.map_values(|v: String| v@)
}

/// The characters of each grouped entry: a key and its values.
pub open spec fn entry_views(es: Seq<(String, Vec<String>)>) -> Seq<(Seq<char>, Seq<Seq<char>>)> {
    es.map_values(|e: (String, Vec<String>)| (e.0@, string_views(e.1@)))
}

/// The values of the pairs whose key is `k`, in the order of the pairs.
pub open spec fn values_for(ps: Seq<(Seq<char>, Seq<char>)>, k: Seq<char>) -> Seq<Seq<char>>
    decreases ps.len(),
{
    if ps.len() == 0 {
        seq![]
    } else {
        values_for(ps.drop_last(), k) + if ps.last().0 == k {
            seq![ps.last().1]
        } else {
            seq![]
        }
    }
}

/// `k` is the key of some pair.
pub open spec fn has_key(ps: Seq<(Seq<char>, Seq<char>)>, k: Seq<char>) -> bool {
    exists|j: int| 0 <= j < ps.len() && ps[j].0 == k
}

/// `k` is the key of some entry.
pub open spec fn has_entry(es: Seq<(Seq<char>, Seq<Seq<char>>)>, k: Seq<char>) -> bool {
    exists|i: int| 0 <= i < es.len() && es[i].0 == k
}

/// The values that the entries give for `k`: none where no entry has that key.
pub open spec fn lookup(es: Seq<(Seq<char>, Seq<Seq<char>>)>, k: Seq<char>) -> Seq<Seq<char>> {
    if has_entry(es, k) {
        es[choose|i: int| 0 <= i < es.len() && es[i].0 == k].1
    } else {
        seq![]
    }
}

/// `es` groups the pairs `ps` by key: one entry for each key that occurs, and
/// each entry holds that key's values in the order of the pairs.
pub open spec fn is_grouping(
    ps: Seq<(Seq<char>, Seq<char>)>,
    es: Seq<(Seq<char>, Seq<Seq<char>>)>,
) -> bool {
    &&& forall|i: int, j: int| 0 <= i < j < es.len() ==> es[i].0 != es[j].0
    &&& forall|i: int| 0 <= i < es.len() ==> #[trigger] es[i].1 == values_for(ps, es[i].0)
    &&& forall|i: int| 0 <= i < es.len() ==> has_key(ps, #[trigger] es[i].0)
    &&& forall|j: int| 0 <= j < ps.len() ==> has_entry(es, #[trigger] ps[j].0)
}

/// A key that no pair has has no values.
pub proof fn lemma_values_for_absent(ps: Seq<(Seq<char>, Seq<char>)>, k: Seq<char>)
    requires
        !has_key(ps, k),
    ensures
        values_for(ps, k) == Seq::<Seq<char>>::empty(),
    decreases ps.len(),
{
    if ps.len() > 0 {
        let init = ps.drop_last();
        assert forall|j: int| 0 <= j < init.len() implies init[j].0 != k by {
            assert(init[j] == ps[j]);
        }
        lemma_values_for_absent(init, k);
        assert(ps.last() == ps[ps.len() - 1]);
    }
}

/// Grouping keeps every pair: for each key, the grouped values are exactly the
/// values of the pairs with that key, as many and in the same order.
pub proof fn lemma_grouping_keeps_pairs(
    ps: Seq<(Seq<char>, Seq<char>)>,
    es: Seq<(Seq<char>, Seq<Seq<char>>)>,
    k: Seq<char>,
)
    requires
        is_grouping(ps, es),
    ensures
        lookup(es, k) == values_for(ps, k),
{
    if has_entry(es, k) {
        let i = choose|i: int| 0 <= i < es.len() && es[i].0 == k;
        assert(es[i].1 == values_for(ps, es[i].0));
    } else {
        assert forall|j: int| 0 <= j < ps.len() implies ps[j].0 != k by {
            assert(has_entry(es, ps[j].0));
        }
        lemma_values_for_absent(ps, k);
    }
}

/// Position of the string equal to `k` in `keys`, if any.
fn position_of(keys: &Vec<String>, k: &String) -> (r: Option<usize>)
    ensures
        r matches Some(a) ==> a < keys@.len() && keys@[a as int]@ == k@,
        r is None ==> forall|a: int| 0 <= a < keys@.len() ==> keys@[a]@ != k@,
{
    let mut a: usize = 0;
    while a < keys.len()
        invariant
            a <= keys@.len(),
            forall|b: int| 0 <= b < a ==> keys@[b]@ != k@,
        decreases keys.len() - a,
    {
        if keys[a] == *k {
            return Some(a);
        }
        a += 1;
    }
    None
}

/// The keys of `pairs`, each once.
fn distinct_keys(pairs: &Vec<(String, String)>) -> (keys: Vec<String>)
    ensures
        forall|a: int, b: int| 0 <= a < b < keys@.len() ==> keys@[a]@ != keys@[b]@,
        forall|a: int| 0 <= a < keys@.len() ==> has_key(pair_views(pairs@), #[trigger] keys@[a]@),
        forall|j: int| 0 <= j < pairs@.len() ==> string_views(keys@).contains(#[trigger] pairs@[j].0@),
{
    let ghost pv = pair_views(pairs@);
    let mut keys: Vec<String> = Vec::new();
    let mut i: usize = 0;
    while i < pairs.len()
        invariant
            i <= pairs@.len(),
            pv == pair_views(pairs@),
            forall|a: int, b: int| 0 <= a < b < keys@.len() ==> keys@[a]@ != keys@[b]@,
            forall|a: int| 0 <= a < keys@.len() ==> has_key(pv, #[trigger] keys@[a]@),
            forall|j: int| 0 <= j < i ==> string_views(keys@).contains(#[trigger] pairs@[j].0@),
        decreases pairs.len() - i,
    {
        let k = &pairs[i].0;
        assert(pv[i as int].0 == k@);
        let ghost old_keys = keys@;
        match position_of(&keys, k) {
            Some(a) => {
                assert(string_views(keys@)[a as int] == k@);
            },
            None => {
                keys.push(k.clone());
                assert(string_views(keys@) =~= string_views(old_keys).push(k@));
                assert(string_views(keys@)[old_keys.len() as int] == k@);
                assert forall|j: int| 0 <= j < i implies string_views(keys@).contains(
                    #[trigger] pairs@[j].0@,
                ) by {
                    let a = choose|a: int| 0 <= a < old_keys.len() && string_views(old_keys)[a] == pairs@[j].0@;
                    assert(string_views(keys@)[a] == pairs@[j].0@);
                }
            },
        }
        assert(string_views(keys@).contains(pairs@[i as int].0@));
        i += 1;
    }
    keys
}

/// The values of the pairs whose key is `k`, in order.
fn values_of(pairs: &Vec<(String, String)>, k: &String) -> (vals: Vec<String>)
    ensures
        string_views(vals@) == values_for(pair_views(pairs@), k@),
{
    let ghost pv = pair_views(pairs@);
    let mut vals: Vec<String> = Vec::new();
    let mut j: usize = 0;
    while j < pairs.len()
        invariant
            j <= pairs@.len(),
            pv == pair_views(pairs@),
            string_views(vals@) == values_for(pv.take(j as int), k@),
        decreases pairs.len() - j,
    {
        let ghost before = vals@;
        if pairs[j].0 == *k {
            vals.push(pairs[j].1.clone());
            assert(string_views(vals@) =~= string_views(before).push(pairs@[j as int].1@));
        }
        assert(pv.take(j + 1).drop_last() =~= pv.take(j as int));
        assert(pv.take(j + 1).last() == pv[j as int]);
        assert(string_views(vals@) =~= values_for(pv.take(j + 1), k@));
        j += 1;
    }
    assert(pv.take(pairs@.len() as int) =~= pv);
    vals
}

/// Groups metadata pairs by key: one entry for each key that occurs, holding all
/// of that key's values in the order of the pairs.
pub fn group_by_key(pairs: &Vec<(String, String)>) -> (r: Vec<(String, Vec<String>)>)
    ensures
        is_grouping(pair_views(pairs@), entry_views(r@)),
{
    let ghost pv = pair_views(pairs@);
    let keys = distinct_keys(pairs);
    let mut r: Vec<(String, Vec<String>)> = Vec::new();
    let mut a: usize = 0;
    while a < keys.len()
        invariant
            a <= keys@.len(),
            pv == pair_views(pairs@),
            r@.len() == a,
            forall|b: int| 0 <= b < a ==> (#[trigger] entry_views(r@)[b]).0 == keys@[b]@,
            forall|b: int| 0 <= b < a ==> (#[trigger] entry_views(r@)[b]).1 == values_for(pv, keys@[b]@),
        decreases keys.len() - a,
    {
        let vals = values_of(pairs, &keys[a]);
        let ghost before = r@;
        r.push((keys[a].clone(), vals));
        assert forall|b: int| 0 <= b < a + 1 implies (#[trigger] entry_views(r@)[b]).0 == keys@[b]@
            && entry_views(r@)[b].1 == values_for(pv, keys@[b]@) by {
            if b < a {
                assert(r@[b] == before[b]);
                assert(entry_views(r@)[b] == entry_views(before)[b]);
            } else {
                assert(r@[b] == (keys@[b], vals));
            }
        }
        a += 1;
    }
    let ghost es = entry_views(r@);
    assert forall|j: int| 0 <= j < pv.len() implies has_entry(es, #[trigger] pv[j].0) by {
        assert(pv[j].0 == pairs@[j].0@);
        assert(string_views(keys@).contains(pairs@[j].0@));
        let b = choose|b: int| 0 <= b < keys@.len() && string_views(keys@)[b] == pairs@[j].0@;
        assert(es[b].0 == keys@[b]@);
    }
    r
}

} // verus!
