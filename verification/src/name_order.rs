//! The order of query parameters by name, which makes the listing of a query's parameters
//! unique.

use vstd::prelude::*;
use crate::query::{lists, Param, QueryParam, QueryParams};
use crate::text::chars_of;

verus! {

/// Whether `a` comes before `b` in the order of the dictionary, character by character.
pub open spec fn name_before(a: Seq<char>, b: Seq<char>) -> bool
    decreases a.len(),
{
    if b.len() == 0 {
        false
    } else if a.len() == 0 {
        true
    } else if a[0] != b[0] {
        a[0] < b[0]
    } else {
        name_before(a.skip(1), b.skip(1))
    }
}

/// Whether the entries stand in rising order of their names.
pub open spec fn ordered_by_name(entries: Seq<Param>) -> bool {
    forall|i: int, j: int|
        0 <= i < j < entries.len() ==> name_before(
            (#[trigger] entries[i]).name,
            (#[trigger] entries[j]).name,
        )
}

/// Of two different names one comes before the other.
pub proof fn lemma_names_compare(a: Seq<char>, b: Seq<char>)
    ensures
        a == b || name_before(a, b) || name_before(b, a),
    decreases a.len(),
{
    if a.len() > 0 && b.len() > 0 && a[0] == b[0] {
        lemma_names_compare(a.skip(1), b.skip(1));
        if a.skip(1) == b.skip(1) {
            assert(a == seq![a[0]] + a.skip(1));
            assert(b == seq![b[0]] + b.skip(1));
        }
    } else if a.len() == 0 && b.len() == 0 {
        assert(a == b);
    }
}

/// No name comes before itself, and of two names not each comes before the other.
pub proof fn lemma_name_order_strict(a: Seq<char>, b: Seq<char>)
    ensures
        !(name_before(a, b) && name_before(b, a)),
        !name_before(a, a),
    decreases a.len(),
{
    if a.len() > 0 && b.len() > 0 && a[0] == b[0] {
        lemma_name_order_strict(a.skip(1), b.skip(1));
    }
    if a.len() > 0 {
        lemma_name_order_strict(a.skip(1), a.skip(1));
    }
}

/// What comes before a name comes before all that the name comes before.
pub proof fn lemma_name_order_chains(a: Seq<char>, b: Seq<char>, c: Seq<char>)
    requires
        name_before(a, b),
        name_before(b, c),
    ensures
        name_before(a, c),
    decreases a.len(),
{
    if a.len() > 0 && a[0] == b[0] && b[0] == c[0] {
        lemma_name_order_chains(a.skip(1), b.skip(1), c.skip(1));
    }
}

/// Whether `entries` lists the map in rising order of the names.
pub open spec fn ordered_listing(entries: Seq<Param>, m: Map<Seq<char>, Seq<Seq<char>>>) -> bool {
    lists(entries, m) && ordered_by_name(entries)
}

/// The listing of the map in rising order of the names.
pub open spec fn canonical_listing(m: Map<Seq<char>, Seq<Seq<char>>>) -> Seq<Param> {
    choose|entries: Seq<Param>| ordered_listing(entries, m)
}

proof fn lemma_listing_of_rest(entries: Seq<Param>, m: Map<Seq<char>, Seq<Seq<char>>>)
    requires
        ordered_listing(entries, m),
        entries.len() > 0,
    ensures
        ordered_listing(entries.skip(1), m.remove(entries[0].name)),
{
    let rest = entries.skip(1);
    let less = m.remove(entries[0].name);
    assert forall|i: int| 0 <= i < rest.len() implies less.contains_key(
        (#[trigger] rest[i]).name,
    ) && less[rest[i].name] == rest[i].values by {
        assert(rest[i] == entries[i + 1]);
        assert(entries[0].name != entries[i + 1].name);
    }
    assert forall|i: int, j: int| 0 <= i < j < rest.len() implies (#[trigger] rest[i]).name != (
    #[trigger] rest[j]).name by {
        assert(rest[i] == entries[i + 1] && rest[j] == entries[j + 1]);
    }
    assert forall|k: Seq<char>| #[trigger] less.contains_key(k) implies exists|i: int|
        0 <= i < rest.len() && (#[trigger] rest[i]).name == k by {
        assert(m.contains_key(k));
        let i = choose|i: int| 0 <= i < entries.len() && (#[trigger] entries[i]).name == k;
        assert(i > 0);
        assert(rest[i - 1].name == k);
    }
    assert forall|i: int, j: int| 0 <= i < j < rest.len() implies name_before(
        (#[trigger] rest[i]).name,
        (#[trigger] rest[j]).name,
    ) by {
        assert(rest[i] == entries[i + 1] && rest[j] == entries[j + 1]);
    }
}

/// A map has one listing in rising order of the names, and no other.
pub proof fn lemma_ordered_listing_unique(
    a: Seq<Param>,
    b: Seq<Param>,
    m: Map<Seq<char>, Seq<Seq<char>>>,
)
    requires
        ordered_listing(a, m),
        ordered_listing(b, m),
    ensures
        a == b,
    decreases a.len(),
{
    if a.len() == 0 {
        if b.len() > 0 {
            assert(m.contains_key(b[0].name));
        }
        assert(a == b);
    } else if b.len() == 0 {
        assert(m.contains_key(a[0].name));
    } else {
        assert(m.contains_key(a[0].name));
        assert(m.contains_key(b[0].name));
        let j = choose|j: int| 0 <= j < b.len() && (#[trigger] b[j]).name == a[0].name;
        let k = choose|k: int| 0 <= k < a.len() && (#[trigger] a[k]).name == b[0].name;
        lemma_name_order_strict(a[0].name, b[0].name);
        if k > 0 {
            assert(name_before(a[0].name, a[k].name));
        }
        if j > 0 {
            assert(name_before(b[0].name, b[j].name));
        }
        assert(a[0].name == b[0].name);
        assert(a[0] == b[0]);
        lemma_listing_of_rest(a, m);
        lemma_listing_of_rest(b, m);
        lemma_ordered_listing_unique(a.skip(1), b.skip(1), m.remove(a[0].name));
        assert(a == seq![a[0]] + a.skip(1));
        assert(b == seq![b[0]] + b.skip(1));
    }
}

/// What is kept of entries in rising order is in rising order.
pub proof fn lemma_filter_keeps_order(entries: Seq<Param>, pred: spec_fn(Param) -> bool)
    requires
        ordered_by_name(entries),
    ensures
        ordered_by_name(entries.filter(pred)),
    decreases entries.len(),
{
    if entries.len() == 0 {
        reveal(Seq::filter);
    } else {
        let front = entries.drop_last();
        let last = entries.last();
        assert forall|i: int, j: int| 0 <= i < j < front.len() implies name_before(
            (#[trigger] front[i]).name,
            (#[trigger] front[j]).name,
        ) by {
            assert(front[i] == entries[i] && front[j] == entries[j]);
        }
        lemma_filter_keeps_order(front, pred);
        assert(entries == front.push(last));
        front.lemma_filter_push(last, pred);
        let kept = front.filter(pred);
        if pred(last) {
            assert forall|i: int, j: int|
                0 <= i < j < kept.push(last).len() implies name_before(
                (#[trigger] kept.push(last)[i]).name,
                (#[trigger] kept.push(last)[j]).name,
            ) by {
                if j == kept.len() {
                    assert(kept.contains(kept[i]));
                    front.lemma_filter_contains_rev(pred, kept[i]);
                    let k = choose|k: int| 0 <= k < front.len() && front[k] == kept[i];
                    assert(entries[k] == kept[i]);
                    assert(entries[entries.len() - 1] == last);
                } else {
                    assert(kept.push(last)[i] == kept[i] && kept.push(last)[j] == kept[j]);
                }
            }
        }
    }
}

/// Entries in rising order that are the entries of a listing list the same map.
pub proof fn lemma_listing_reordered(
    given: Seq<Param>,
    sorted: Seq<Param>,
    m: Map<Seq<char>, Seq<Seq<char>>>,
)
    requires
        lists(given, m),
        same_entries(given, sorted),
        ordered_by_name(sorted),
    ensures
        ordered_listing(sorted, m),
        sorted == canonical_listing(m),
{
    assert forall|i: int| 0 <= i < sorted.len() implies m.contains_key(
        (#[trigger] sorted[i]).name,
    ) && m[sorted[i].name] == sorted[i].values by {
        assert(sorted.contains(sorted[i]));
        let k = choose|k: int| 0 <= k < given.len() && given[k] == sorted[i];
        assert(m.contains_key(given[k].name));
    }
    assert forall|i: int, j: int| 0 <= i < j < sorted.len() implies (#[trigger] sorted[i]).name
        != (#[trigger] sorted[j]).name by {
        lemma_name_order_strict(sorted[i].name, sorted[j].name);
    }
    assert forall|k: Seq<char>| #[trigger] m.contains_key(k) implies exists|i: int|
        0 <= i < sorted.len() && (#[trigger] sorted[i]).name == k by {
        let i = choose|i: int| 0 <= i < given.len() && (#[trigger] given[i]).name == k;
        assert(given.contains(given[i]));
        let j = choose|j: int| 0 <= j < sorted.len() && sorted[j] == given[i];
        assert(sorted[j].name == k);
    }
    assert(ordered_listing(sorted, m));
    lemma_ordered_listing_unique(sorted, canonical_listing(m), m);
}

/// Whether `a` comes before `b`.
pub fn comes_before(a: &str, b: &str) -> (r: bool)
    ensures
        r == name_before(a@, b@),
{
    let x = chars_of(a);
    let y = chars_of(b);
    let mut i: usize = 0;
    assert(x@.skip(0) == x@ && y@.skip(0) == y@);
    while i < x.len() && i < y.len()
        invariant
            i <= x.len(),
            i <= y.len(),
            x@ == a@,
            y@ == b@,
            name_before(x@, y@) == name_before(x@.skip(i as int), y@.skip(i as int)),
        decreases x.len() - i,
    {
        if x[i] != y[i] {
            return x[i] < y[i];
        }
        assert(x@.skip(i as int).skip(1) == x@.skip(i + 1));
        assert(y@.skip(i as int).skip(1) == y@.skip(i + 1));
        i += 1;
    }
    i < y.len()
}

/// Whether no two entries have the same name.
pub open spec fn distinct_names(entries: Seq<Param>) -> bool {
    forall|i: int, j: int|
        0 <= i < j < entries.len() ==> (#[trigger] entries[i]).name != (#[trigger] entries[j]).name
}

/// Whether the two sequences hold the same entries.
pub open spec fn same_entries(a: Seq<Param>, b: Seq<Param>) -> bool {
    a.len() == b.len() && forall|x: Param| a.contains(x) <==> b.contains(x)
}

/// The views of the entries, in order.
pub open spec fn views(entries: Seq<QueryParam>) -> Seq<Param> {
    entries.map_values(|e: QueryParam| e@)
}

/// The entries in rising order of their names.
pub(crate) fn order_by_name(params: QueryParams) -> (r: QueryParams)
    requires
        distinct_names(params@),
    ensures
        ordered_by_name(r@),
        same_entries(params@, r@),
{
    let ghost all = params@;
    let mut sorted: Vec<QueryParam> = Vec::new();
    for entry in it: params.entries
        invariant
            all == views(it.seq()),
            distinct_names(all),
            sorted.len() == it.index(),
            ordered_by_name(views(sorted@)),
            forall|x: Param|
                views(sorted@).contains(x) <==> all.take(it.index() as int).contains(x),
    {
        let ghost done = it.index() as int;
        let ghost before = views(sorted@);
        let ghost new = entry@;
        assert(new == all[done]);
        assert forall|k: int| 0 <= k < before.len() implies (#[trigger] before[k]).name
            != new.name by {
            assert(before.contains(before[k]));
            assert(all.take(done).contains(before[k]));
            let i = choose|i: int| 0 <= i < done && all.take(done)[i] == before[k];
            assert(all[i].name != all[done].name);
        }
        let mut j: usize = 0;
        while j < sorted.len() && comes_before(sorted[j].name.as_str(), entry.name.as_str())
            invariant
                j <= sorted.len(),
                before == views(sorted@),
                new == entry@,
                forall|k: int| 0 <= k < j ==> name_before((#[trigger] before[k]).name, new.name),
            decreases sorted.len() - j,
        {
            assert(before[j as int] == sorted@[j as int]@);
            j += 1;
        }
        proof {
            assert forall|k: int| j <= k < before.len() implies name_before(
                new.name,
                (#[trigger] before[k]).name,
            ) by {
                assert(before[j as int] == sorted@[j as int]@);
                lemma_names_compare(new.name, before[j as int].name);
                if k > j {
                    lemma_name_order_chains(new.name, before[j as int].name, before[k].name);
                }
            }
        }
        sorted.insert(j, entry);
        proof {
            let after = views(sorted@);
            assert(after == before.insert(j as int, new));
            assert forall|a: int, b: int| 0 <= a < b < after.len() implies name_before(
                (#[trigger] after[a]).name,
                (#[trigger] after[b]).name,
            ) by {
                if b < j {
                } else if b == j {
                    assert(after[a] == before[a]);
                } else if a < j {
                    assert(after[a] == before[a]);
                    assert(after[b] == before[b - 1]);
                } else if a == j {
                    assert(after[b] == before[b - 1]);
                } else {
                    assert(after[a] == before[a - 1]);
                    assert(after[b] == before[b - 1]);
                }
            }
            let grown = all.take(done + 1);
            assert(grown == all.take(done).push(new));
            assert forall|x: Param| after.contains(x) <==> grown.contains(x) by {
                if after.contains(x) {
                    let i = choose|i: int| 0 <= i < after.len() && after[i] == x;
                    if i < j {
                        assert(before[i] == x);
                        assert(before.contains(x));
                    } else if i > j {
                        assert(before[i - 1] == x);
                        assert(before.contains(x));
                    }
                    if before.contains(x) {
                        let m = choose|m: int| 0 <= m < done && all.take(done)[m] == x;
                        assert(grown[m] == x);
                    } else {
                        assert(grown[done] == x);
                    }
                }
                if grown.contains(x) {
                    let m = choose|m: int| 0 <= m < grown.len() && grown[m] == x;
                    if m < done {
                        assert(all.take(done)[m] == x);
                        assert(before.contains(x));
                        let i = choose|i: int| 0 <= i < before.len() && before[i] == x;
                        if i < j {
                            assert(after[i] == x);
                        } else {
                            assert(after[i + 1] == x);
                        }
                    } else {
                        assert(after[j as int] == x);
                    }
                }
            }
        }
    }
    assert(all.take(all.len() as int) == all);
    QueryParams { entries: sorted }
}

} // verus!
