//! Sequences of named values, and the map that such a sequence stands for
//! where no name stands twice.

use vstd::prelude::*;

verus! {

/// Whether some pair of `pairs` bears `name`.
pub open spec fn has_name<V>(pairs: Seq<(Seq<char>, V)>, name: Seq<char>) -> bool {
    exists|i: int| 0 <= i < pairs.len() && #[trigger] pairs[i].0 == name
}

/// Where in `pairs` a pair that bears `name` stands, if there is one.
pub open spec fn index_of<V>(pairs: Seq<(Seq<char>, V)>, name: Seq<char>) -> int {
    choose|i: int| 0 <= i < pairs.len() && #[trigger] pairs[i].0 == name
}

/// No two pairs of `pairs` bear the same name.
pub open spec fn distinct_names<V>(pairs: Seq<(Seq<char>, V)>) -> bool {
    forall|i: int, j: int| 0 <= i < j < pairs.len() ==> #[trigger] pairs[i].0 != #[trigger] pairs[j].0
}

/// The map that `pairs` stands for: its names, each with the value of a
/// pair that bears it.
pub open spec fn as_map<V>(pairs: Seq<(Seq<char>, V)>) -> Map<Seq<char>, V> {
    Map::new(|name: Seq<char>| has_name(pairs, name), |name: Seq<char>| pairs[index_of(pairs, name)].1)
}

/// The pairs with `f` applied to each value, the names as they were.
pub open spec fn with_values<V, W>(pairs: Seq<(Seq<char>, V)>, f: spec_fn(V) -> W) -> Seq<
    (Seq<char>, W),
> {
    pairs.map_values(|pair: (Seq<char>, V)| (pair.0, f(pair.1)))
}

/// With no name twice, each pair of the sequence is an entry of its map.
pub proof fn lemma_entry<V>(pairs: Seq<(Seq<char>, V)>, i: int)
    requires
        distinct_names(pairs),
        0 <= i < pairs.len(),
    ensures
        as_map(pairs).contains_key(pairs[i].0),
        as_map(pairs)[pairs[i].0] == pairs[i].1,
        index_of(pairs, pairs[i].0) == i,
{
    let name = pairs[i].0;
    assert(has_name(pairs, name));
    let k = index_of(pairs, name);
    assert(0 <= k < pairs.len() && pairs[k].0 == name);
    if k < i {
        assert(pairs[k].0 != pairs[i].0);
    } else if i < k {
        assert(pairs[i].0 != pairs[k].0);
    }
}

/// The map of a sequence has finitely many names, and as many as the
/// sequence is long where no name stands twice.
pub proof fn lemma_count<V>(pairs: Seq<(Seq<char>, V)>)
    ensures
        as_map(pairs).dom().finite(),
        distinct_names(pairs) ==> as_map(pairs).dom().len() == pairs.len(),
    decreases pairs.len(),
{
    if pairs.len() == 0 {
        assert(as_map(pairs).dom() =~= Set::<Seq<char>>::empty());
    } else {
        let front = pairs.drop_last();
        let last = pairs.last();
        lemma_count(front);
        assert forall|name: Seq<char>|
            as_map(pairs).dom().contains(name) <==> as_map(front).dom().insert(last.0).contains(
                name,
            ) by {
            if has_name(pairs, name) {
                let i = index_of(pairs, name);
                if i < front.len() {
                    assert(front[i].0 == name);
                }
            }
            if has_name(front, name) {
                let i = index_of(front, name);
                assert(pairs[i].0 == name);
            }
            if name == last.0 {
                assert(pairs[pairs.len() - 1].0 == name);
            }
        }
        assert(as_map(pairs).dom() =~= as_map(front).dom().insert(last.0));
        if distinct_names(pairs) {
            assert(distinct_names(front)) by {
                assert forall|i: int, j: int| 0 <= i < j < front.len() implies #[trigger] front[i].0
                    != #[trigger] front[j].0 by {
                    assert(pairs[i].0 != pairs[j].0);
                }
            }
            if has_name(front, last.0) {
                let i = index_of(front, last.0);
                assert(pairs[i].0 != pairs[pairs.len() - 1].0);
            }
        }
    }
}

/// A pair with a new name, put at the end, enters the map and keeps the
/// names apart.
pub proof fn lemma_pushed<V>(pairs: Seq<(Seq<char>, V)>, pair: (Seq<char>, V))
    requires
        distinct_names(pairs),
        !has_name(pairs, pair.0),
    ensures
        distinct_names(pairs.push(pair)),
        as_map(pairs.push(pair)) == as_map(pairs).insert(pair.0, pair.1),
{
    let longer = pairs.push(pair);
    assert forall|i: int, j: int| 0 <= i < j < longer.len() implies #[trigger] longer[i].0
        != #[trigger] longer[j].0 by {
        if j < pairs.len() {
            assert(pairs[i].0 != pairs[j].0);
        } else {
            assert(pairs[i].0 != pair.0);
        }
    }
    assert forall|name: Seq<char>| has_name(longer, name) <==> (has_name(pairs, name) || name
        == pair.0) by {
        if has_name(longer, name) {
            let k = index_of(longer, name);
            if k < pairs.len() {
                assert(pairs[k].0 == name);
            }
        }
        if has_name(pairs, name) {
            let k = index_of(pairs, name);
            assert(longer[k].0 == name);
        }
        if name == pair.0 {
            assert(longer[pairs.len() as int].0 == name);
        }
    }
    assert forall|name: Seq<char>| has_name(longer, name) implies as_map(longer)[name] == as_map(
        pairs,
    ).insert(pair.0, pair.1)[name] by {
        let k = index_of(longer, name);
        lemma_entry(longer, k);
        if k < pairs.len() {
            lemma_entry(pairs, k);
        }
    }
    assert(as_map(longer) =~= as_map(pairs).insert(pair.0, pair.1));
}

/// Taking the pair at `i` out drops its name from the map and keeps the
/// names apart.
pub proof fn lemma_taken_out<V>(pairs: Seq<(Seq<char>, V)>, i: int)
    requires
        distinct_names(pairs),
        0 <= i < pairs.len(),
    ensures
        distinct_names(pairs.remove(i)),
        as_map(pairs.remove(i)) == as_map(pairs).remove(pairs[i].0),
{
    let shorter = pairs.remove(i);
    let gone = pairs[i].0;
    assert forall|a: int, b: int| 0 <= a < b < shorter.len() implies #[trigger] shorter[a].0
        != #[trigger] shorter[b].0 by {
        let a0 = if a < i { a } else { a + 1 };
        let b0 = if b < i { b } else { b + 1 };
        assert(pairs[a0].0 != pairs[b0].0);
    }
    assert forall|name: Seq<char>| has_name(shorter, name) <==> (has_name(pairs, name) && name
        != gone) by {
        if has_name(shorter, name) {
            let k = index_of(shorter, name);
            let k0 = if k < i { k } else { k + 1 };
            assert(pairs[k0].0 == name);
            if k0 < i {
                assert(pairs[k0].0 != pairs[i].0);
            } else {
                assert(pairs[i].0 != pairs[k0].0);
            }
        }
        if has_name(pairs, name) && name != gone {
            let k = index_of(pairs, name);
            let k1 = if k < i { k } else { k - 1 };
            assert(shorter[k1].0 == name);
        }
    }
    assert forall|name: Seq<char>| has_name(shorter, name) implies as_map(shorter)[name] == as_map(
        pairs,
    ).remove(gone)[name] by {
        let k = index_of(shorter, name);
        let k0 = if k < i { k } else { k + 1 };
        lemma_entry(shorter, k);
        lemma_entry(pairs, k0);
    }
    assert(as_map(shorter) =~= as_map(pairs).remove(gone));
}

/// Giving the pair at `i` another value, under its old name, gives that
/// name the value in the map and keeps the names apart.
pub proof fn lemma_replaced<V>(pairs: Seq<(Seq<char>, V)>, i: int, value: V)
    requires
        distinct_names(pairs),
        0 <= i < pairs.len(),
    ensures
        distinct_names(pairs.update(i, (pairs[i].0, value))),
        as_map(pairs.update(i, (pairs[i].0, value))) == as_map(pairs).insert(pairs[i].0, value),
{
    let name = pairs[i].0;
    let changed = pairs.update(i, (name, value));
    assert forall|a: int, b: int| 0 <= a < b < changed.len() implies #[trigger] changed[a].0
        != #[trigger] changed[b].0 by {
        assert(pairs[a].0 != pairs[b].0);
    }
    assert forall|other: Seq<char>| has_name(changed, other) <==> has_name(pairs, other) by {
        if has_name(changed, other) {
            let k = index_of(changed, other);
            assert(pairs[k].0 == other);
        }
        if has_name(pairs, other) {
            let k = index_of(pairs, other);
            assert(changed[k].0 == other);
        }
    }
    lemma_entry(pairs, i);
    assert forall|other: Seq<char>| has_name(changed, other) implies as_map(changed)[other]
        == as_map(pairs).insert(name, value)[other] by {
        let k = index_of(changed, other);
        lemma_entry(changed, k);
        lemma_entry(pairs, k);
    }
    assert(as_map(changed) =~= as_map(pairs).insert(name, value));
}

/// Applying `f` to each value of the sequence applies it to each value of
/// the map, and the names stay apart where they were.
pub proof fn lemma_values_mapped<V, W>(pairs: Seq<(Seq<char>, V)>, f: spec_fn(V) -> W)
    ensures
        distinct_names(with_values(pairs, f)) == distinct_names(pairs),
        distinct_names(pairs) ==> as_map(with_values(pairs, f)) == as_map(pairs).map_values(f),
{
    let mapped = with_values(pairs, f);
    assert(mapped.len() == pairs.len());
    assert forall|i: int| 0 <= i < pairs.len() implies (#[trigger] mapped[i]).0 == pairs[i].0 by {}
    if distinct_names(pairs) {
        assert forall|i: int, j: int| 0 <= i < j < mapped.len() implies #[trigger] mapped[i].0
            != #[trigger] mapped[j].0 by {
            assert(pairs[i].0 != pairs[j].0);
        }
    }
    if distinct_names(mapped) {
        assert forall|i: int, j: int| 0 <= i < j < pairs.len() implies #[trigger] pairs[i].0
            != #[trigger] pairs[j].0 by {
            assert(mapped[i].0 != mapped[j].0);
        }
    }
    if distinct_names(pairs) {
        assert forall|name: Seq<char>| has_name(mapped, name) <==> has_name(pairs, name) by {
            if has_name(mapped, name) {
                let k = index_of(mapped, name);
                assert(pairs[k].0 == name);
            }
            if has_name(pairs, name) {
                let k = index_of(pairs, name);
                assert(mapped[k].0 == name);
            }
        }
        assert forall|name: Seq<char>| has_name(mapped, name) implies as_map(mapped)[name]
            == as_map(pairs).map_values(f)[name] by {
            let k = index_of(mapped, name);
            lemma_entry(mapped, k);
            lemma_entry(pairs, k);
        }
        assert(as_map(mapped) =~= as_map(pairs).map_values(f));
    }
}

} // verus!
