//! Lists of keyed entries that stand for a map: each key once, in rising order of the keys.

use vstd::prelude::*;
use crate::name_order::{
    comes_before, lemma_name_order_chains, lemma_name_order_strict, lemma_names_compare,
    name_before,
};
use crate::text::str_equals;

verus! {

/// The value of the first entry under `key`.
pub open spec fn lookup<T>(entries: Seq<(String, T)>, key: Seq<char>) -> Option<T>
    decreases entries.len(),
{
    if entries.len() == 0 {
        None
    } else if entries[0].0@ == key {
        Some(entries[0].1)
    } else {
        lookup(entries.skip(1), key)
    }
}

/// The value of the last entry under `key`: what a map holds after the entries have been
/// put into it one after the other.
pub open spec fn last_under<T>(entries: Seq<(String, T)>, key: Seq<char>) -> Option<T>
    decreases entries.len(),
{
    if entries.len() == 0 {
        None
    } else if entries.last().0@ == key {
        Some(entries.last().1)
    } else {
        last_under(entries.drop_last(), key)
    }
}

/// Whether the entries stand in rising order of their keys, so that no key occurs twice.
pub open spec fn keys_rising<T>(entries: Seq<(String, T)>) -> bool {
    forall|i: int, j: int|
        0 <= i < j < entries.len() ==> name_before(
            (#[trigger] entries[i]).0@,
            (#[trigger] entries[j]).0@,
        )
}

/// The first entry under a key is the one that `lookup` gives.
pub proof fn lemma_lookup_first<T>(entries: Seq<(String, T)>, key: Seq<char>, j: int)
    requires
        0 <= j < entries.len(),
        entries[j].0@ == key,
        forall|i: int| 0 <= i < j ==> (#[trigger] entries[i]).0@ != key,
    ensures
        lookup(entries, key) == Some(entries[j].1),
    decreases j,
{
    if j > 0 {
        assert(entries[0].0@ != key);
        let rest = entries.skip(1);
        assert forall|i: int| 0 <= i < j - 1 implies (#[trigger] rest[i]).0@ != key by {
            assert(rest[i] == entries[i + 1]);
        }
        lemma_lookup_first(rest, key, j - 1);
    }
}

/// Under a key that no entry has, `lookup` gives nothing.
pub proof fn lemma_lookup_absent<T>(entries: Seq<(String, T)>, key: Seq<char>)
    requires
        forall|i: int| 0 <= i < entries.len() ==> (#[trigger] entries[i]).0@ != key,
    ensures
        lookup(entries, key) is None,
    decreases entries.len(),
{
    if entries.len() > 0 {
        assert(entries[0].0@ != key);
        let rest = entries.skip(1);
        assert forall|i: int| 0 <= i < rest.len() implies (#[trigger] rest[i]).0@ != key by {
            assert(rest[i] == entries[i + 1]);
        }
        lemma_lookup_absent(rest, key);
    }
}

/// Among rising keys every entry is the one that `lookup` gives for its key.
pub proof fn lemma_lookup_rising<T>(entries: Seq<(String, T)>, j: int)
    requires
        keys_rising(entries),
        0 <= j < entries.len(),
    ensures
        lookup(entries, entries[j].0@) == Some(entries[j].1),
{
    assert forall|i: int| 0 <= i < j implies (#[trigger] entries[i]).0@ != entries[j].0@ by {
        lemma_name_order_strict(entries[i].0@, entries[j].0@);
    }
    lemma_lookup_first(entries, entries[j].0@, j);
}

/// The entries as a map: each key once, with the value of its last entry, in rising order of
/// the keys.
pub fn by_key<T>(entries: Vec<(String, T)>) -> (r: Vec<(String, T)>)
    ensures
        keys_rising(r@),
        forall|k: Seq<char>| lookup(r@, k) == #[trigger] last_under(entries@, k),
{
    let ghost all = entries@;
    let mut sorted: Vec<(String, T)> = Vec::new();
    for entry in it: entries
        invariant
            all == it.seq(),
            keys_rising(sorted@),
            forall|k: Seq<char>|
                lookup(sorted@, k) == #[trigger] last_under(all.take(it.index() as int), k),
    {
        let ghost done = it.index() as int;
        let ghost before = sorted@;
        let ghost key = entry.0@;
        let ghost grown = all.take(done + 1);
        assert(grown.drop_last() == all.take(done));
        assert(grown.last() == entry);
        let mut j: usize = 0;
        while j < sorted.len() && comes_before(sorted[j].0.as_str(), entry.0.as_str())
            invariant
                j <= sorted.len(),
                before == sorted@,
                key == entry.0@,
                forall|i: int| 0 <= i < j ==> name_before((#[trigger] before[i]).0@, key),
            decreases sorted.len() - j,
        {
            j += 1;
        }
        let replaces = j < sorted.len() && str_equals(sorted[j].0.as_str(), entry.0.as_str());
        proof {
            assert forall|i: int| 0 <= i < j implies (#[trigger] before[i]).0@ != key by {
                lemma_name_order_strict(before[i].0@, key);
            }
            if !replaces {
                assert forall|i: int| j <= i < before.len() implies name_before(
                    key,
                    (#[trigger] before[i]).0@,
                ) by {
                    lemma_names_compare(key, before[j as int].0@);
                    if i > j {
                        lemma_name_order_chains(key, before[j as int].0@, before[i].0@);
                    }
                }
            }
        }
        if replaces {
            sorted.set(j, entry);
        } else {
            sorted.insert(j, entry);
        }
        proof {
            let after = sorted@;
            assert(keys_rising(after)) by {
                assert forall|a: int, b: int| 0 <= a < b < after.len() implies name_before(
                    (#[trigger] after[a]).0@,
                    (#[trigger] after[b]).0@,
                ) by {
                    if replaces {
                        assert(after[a].0@ == before[a].0@ && after[b].0@ == before[b].0@);
                    } else if b < j {
                    } else if b == j {
                        assert(after[a] == before[a]);
                    } else if a < j {
                        assert(after[a] == before[a]);
                        assert(after[b] == before[b - 1]);
                    } else if a == j {
                        assert(after[b] == before[b - 1]);
                    } else {
                        assert(after[a] == before[a - 1]);
                        assert(after[b] == before[b - 1]);
                    }
                }
            }
            assert forall|k: Seq<char>| lookup(after, k) == #[trigger] last_under(grown, k) by {
                assert(lookup(before, k) == last_under(all.take(done), k));
                if k == key {
                    lemma_lookup_rising(after, j as int);
                } else if exists|i: int| 0 <= i < before.len() && (#[trigger] before[i]).0@ == k {
                    let i = choose|i: int| 0 <= i < before.len() && (#[trigger] before[i]).0@ == k;
                    lemma_lookup_rising(before, i);
                    let moved = if replaces || i < j {
                        i
                    } else {
                        i + 1
                    };
                    assert(after[moved] == before[i]);
                    lemma_lookup_rising(after, moved);
                } else {
                    lemma_lookup_absent(before, k);
                    assert forall|i: int| 0 <= i < after.len() implies (#[trigger] after[i]).0@
                        != k by {
                        if replaces {
                            assert(after[i].0@ == before[i].0@);
                        } else if i < j {
                            assert(after[i] == before[i]);
                        } else if i > j {
                            assert(after[i] == before[i - 1]);
                        }
                    }
                    lemma_lookup_absent(after, k);
                }
            }
        }
    }
    assert(all.take(all.len() as int) == all);
    sorted
}

} // verus!
