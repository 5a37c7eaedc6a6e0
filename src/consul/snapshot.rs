//! Node sets keyed by node identity.
use vstd::prelude::*;

use crate::consul::ServiceNode;

verus! {

/// Each key appears once, and is the key of the node it holds.
pub open spec fn well_keyed(es: Seq<(String, ServiceNode)>) -> bool {
    &&& forall|i: int, j: int| 0 <= i < es.len() && 0 <= j < es.len() && i != j ==> #[trigger] es[i].0@ != #[trigger] es[j].0@
    &&& forall|i: int| 0 <= i < es.len() ==> (#[trigger] es[i]).0@ == es[i].1.key()
}

pub open spec fn has_key(es: Seq<(String, ServiceNode)>, k: Seq<char>) -> bool {
    exists|i: int| 0 <= i < es.len() && (#[trigger] es[i]).0@ == k
}

/// The entries as a map from key to node.
pub open spec fn entries_map(es: Seq<(String, ServiceNode)>) -> Map<Seq<char>, ServiceNode> {
    Map::new(
        |k: Seq<char>| has_key(es, k),
        |k: Seq<char>| es[choose|i: int| 0 <= i < es.len() && (#[trigger] es[i]).0@ == k].1,
    )
}

/// Nodes gathered in order into a map by key; a later node replaces an
/// earlier one with the same key.
pub open spec fn collect(ns: Seq<ServiceNode>) -> Map<Seq<char>, ServiceNode>
    decreases ns.len(),
{
    if ns.len() == 0 {
        Map::empty()
    } else {
        collect(ns.drop_last()).insert(ns.last().key(), ns.last())
    }
}

proof fn lemma_unique_index(es: Seq<(String, ServiceNode)>, i: int)
    requires
        well_keyed(es),
        0 <= i < es.len(),
    ensures
        entries_map(es).contains_key(es[i].0@),
        entries_map(es)[es[i].0@] == es[i].1,
{
    let k = es[i].0@;
    assert(has_key(es, k));
    let j = choose|j: int| 0 <= j < es.len() && (#[trigger] es[j]).0@ == k;
    assert(j == i);
}

/// Adds `node` under its key, replacing the node held there.
pub fn insert_node(entries: &mut Vec<(String, ServiceNode)>, node: ServiceNode)
    requires
        well_keyed(old(entries)@),
    ensures
        well_keyed(final(entries)@),
        entries_map(final(entries)@) == entries_map(old(entries)@).insert(node.key(), node),
{
    let key = node.to_string();
    let mut i: usize = 0;
    while i < entries.len()
        invariant
            i <= entries@.len(),
            key@ == node.key(),
            entries@ == old(entries)@,
            well_keyed(entries@),
            forall|j: int| 0 <= j < i ==> (#[trigger] entries@[j]).0@ != key@,
        decreases entries@.len() - i,
    {
        if entries[i].0 == key {
            let ghost before = entries@;
            entries.set(i, (key, node));
            proof {
                let after = entries@;
                assert(after == before.update(i as int, (key, node)));
                assert forall|a: int, b: int| 0 <= a < after.len() && 0 <= b < after.len() && a != b implies #[trigger] after[a].0@
                    != #[trigger] after[b].0@ by {
                    assert(before[a].0@ != before[b].0@);
                }
                assert forall|k: Seq<char>| #![auto] entries_map(after).contains_key(k) <==> entries_map(before).insert(node.key(), node).contains_key(k) by {
                    if has_key(before, k) {
                        let j = choose|j: int| 0 <= j < before.len() && (#[trigger] before[j]).0@ == k;
                        assert(after[j].0@ == k);
                    }
                    if has_key(after, k) {
                        let j = choose|j: int| 0 <= j < after.len() && (#[trigger] after[j]).0@ == k;
                        assert(before[j].0@ == k);
                    }
                }
                assert forall|k: Seq<char>| entries_map(after).contains_key(k) implies entries_map(after)[k] == entries_map(before).insert(node.key(), node)[k] by {
                    let j = choose|j: int| 0 <= j < after.len() && (#[trigger] after[j]).0@ == k;
                    lemma_unique_index(after, j);
                    if j != i {
                        lemma_unique_index(before, j);
                    }
                }
                assert(entries_map(after) =~= entries_map(before).insert(node.key(), node));
            }
            return;
        }
        i = i + 1;
    }
    let ghost before = entries@;
    entries.push((key, node));
    proof {
        let after = entries@;
        assert(after == before.push((key, node)));
        assert forall|a: int, b: int| 0 <= a < after.len() && 0 <= b < after.len() && a != b implies #[trigger] after[a].0@
            != #[trigger] after[b].0@ by {
            if a < before.len() && b < before.len() {
                assert(before[a].0@ != before[b].0@);
            }
        }
        assert(well_keyed(after));
        assert forall|k: Seq<char>| #![auto] entries_map(after).contains_key(k) <==> entries_map(before).insert(node.key(), node).contains_key(k) by {
            if has_key(before, k) {
                let j = choose|j: int| 0 <= j < before.len() && (#[trigger] before[j]).0@ == k;
                assert(after[j].0@ == k);
            }
            if k == node.key() {
                assert(after[before.len() as int].0@ == k);
            }
            if has_key(after, k) {
                let j = choose|j: int| 0 <= j < after.len() && (#[trigger] after[j]).0@ == k;
                if j < before.len() {
                    assert(before[j].0@ == k);
                }
            }
        }
        assert forall|k: Seq<char>| entries_map(after).contains_key(k) implies entries_map(after)[k] == entries_map(before).insert(node.key(), node)[k] by {
            let j = choose|j: int| 0 <= j < after.len() && (#[trigger] after[j]).0@ == k;
            lemma_unique_index(after, j);
            if j < before.len() {
                lemma_unique_index(before, j);
            }
        }
        assert(entries_map(after) =~= entries_map(before).insert(node.key(), node));
    }
}

} // verus!
