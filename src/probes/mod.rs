//! Probe orchestration: which nodes are probed, and how each probe task
//! moves between connecting, probing and stopping.
use vstd::prelude::*;

use tokio::sync::oneshot::{Receiver, Sender};

use crate::consul::discovery::{DiscoveryError, ServiceNodes};
use crate::consul::snapshot::has_key;
use crate::consul::ServiceNode;
use crate::probes::channel::{send_stop, stop_channel};

pub mod channel;
pub mod node;
pub mod metrics;

pub use crate::probes::node::ProbeNode;

verus! {

/// Tokens the discovery rate limiter holds.
pub const TOKEN_BUCKET_CAPACITY: u64 = 180;

/// Tokens the discovery rate limiter gains each second.
pub const TOKEN_BUCKET_QUANTUM: u64 = 1;

/// Tokens one discovery round costs.
pub const POLL_TOKEN_COST: u64 = 60;

/// Keys of the live probes.
pub open spec fn live_keys(es: Seq<(String, Sender<u8>)>) -> Set<Seq<char>> {
    Set::new(|k: Seq<char>| exists|i: int| 0 <= i < es.len() && (#[trigger] es[i]).0@ == k)
}

/// Keys of a snapshot.
pub open spec fn found_keys(d: Seq<(String, ServiceNode)>) -> Set<Seq<char>> {
    Set::new(|k: Seq<char>| has_key(d, k))
}

/// Each live probe has its own key.
pub open spec fn live_distinct(es: Seq<(String, Sender<u8>)>) -> bool {
    forall|i: int, j: int| 0 <= i < es.len() && 0 <= j < es.len() && i != j ==> #[trigger] es[i].0@ != #[trigger] es[j].0@
}

/// The live probes as a map from key to the sender of their stop request.
pub open spec fn probe_map(es: Seq<(String, Sender<u8>)>) -> Map<Seq<char>, Sender<u8>> {
    Map::new(
        |k: Seq<char>| live_keys(es).contains(k),
        |k: Seq<char>| es[choose|i: int| 0 <= i < es.len() && (#[trigger] es[i]).0@ == k].1,
    )
}

proof fn lemma_probe_at(es: Seq<(String, Sender<u8>)>, i: int)
    requires
        live_distinct(es),
        0 <= i < es.len(),
    ensures
        probe_map(es).contains_key(es[i].0@),
        probe_map(es)[es[i].0@] == es[i].1,
{
    let k = es[i].0@;
    assert(live_keys(es).contains(k));
    let j = choose|j: int| 0 <= j < es.len() && (#[trigger] es[j]).0@ == k;
    assert(j == i);
}

/// Nodes to start probing: found, and not probed yet.
pub open spec fn to_start(live: Set<Seq<char>>, found: Set<Seq<char>>) -> Set<Seq<char>> {
    found.difference(live)
}

/// Probes to stop: their node is no longer found.
pub open spec fn to_stop(live: Set<Seq<char>>, found: Set<Seq<char>>) -> Set<Seq<char>> {
    live.difference(found)
}

/// Live probes after reconciling `live` against the snapshot keys `found`.
pub open spec fn reconciled(live: Set<Seq<char>>, found: Set<Seq<char>>) -> Set<Seq<char>> {
    live.union(to_start(live, found)).difference(to_stop(live, found))
}

/// A probe that has just been started: the caller runs its task.
pub struct StartedProbe {
    pub key: String,
    pub node: ServiceNode,
    /// Where the task looks for its stop request.
    pub stop_rx: Receiver<u8>,
}

pub open spec fn started_keys(s: Seq<StartedProbe>) -> Set<Seq<char>> {
    Set::new(|k: Seq<char>| exists|i: int| 0 <= i < s.len() && (#[trigger] s[i]).key@ == k)
}

pub open spec fn started_distinct(s: Seq<StartedProbe>) -> bool {
    forall|i: int, j: int| 0 <= i < s.len() && 0 <= j < s.len() && i != j ==> #[trigger] s[i].key@ != #[trigger] s[j].key@
}

/// Each started probe is for the node the snapshot holds under its key.
pub open spec fn started_from(s: Seq<StartedProbe>, d: Seq<(String, ServiceNode)>) -> bool {
    forall|j: int| 0 <= j < s.len() ==> exists|i: int| 0 <= i < d.len() && d[i].0@ == (#[trigger] s[j]).key@ && d[i].1 == s[j].node
}

pub open spec fn text_set(s: Seq<String>) -> Set<Seq<char>> {
    Set::new(|k: Seq<char>| exists|i: int| 0 <= i < s.len() && (#[trigger] s[i])@ == k)
}

/// What one reconciliation did.
pub struct Reconciled {
    /// Probes started; the caller spawns their tasks.
    pub started: Vec<StartedProbe>,
    /// Keys of the probes whose stop was requested.
    pub stopped: Vec<String>,
    /// The discovery round failed; the cursor went back to zero.
    pub discovery_failed: bool,
}

/// Whether `key` is a key of the snapshot `d`.
fn found_contains(d: &Vec<(String, ServiceNode)>, key: &String) -> (r: bool)
    ensures
        r == has_key(d@, key@),
{
    let mut i: usize = 0;
    while i < d.len()
        invariant
            i <= d@.len(),
            forall|j: int| 0 <= j < i ==> (#[trigger] d@[j]).0@ != key@,
        decreases d@.len() - i,
    {
        if d[i].0 == *key {
            return true;
        }
        i = i + 1;
    }
    false
}

/// The orchestrator's state: the cursor and the live probes by node key.
pub struct ProbeServices {
    tag: String,
    interval_check_ms: u64,
    index: i64,
    probe_nodes: Vec<(String, Sender<u8>)>,
}

impl ProbeServices {
    pub closed spec fn live(&self) -> Set<Seq<char>> {
        live_keys(self.probe_nodes@)
    }

    /// The live probes: each key with the sender of its stop request.
    pub closed spec fn probes(&self) -> Map<Seq<char>, Sender<u8>> {
        probe_map(self.probe_nodes@)
    }

    pub closed spec fn spec_index(&self) -> i64 {
        self.index
    }

    pub closed spec fn spec_tag(&self) -> Seq<char> {
        self.tag@
    }

    pub closed spec fn spec_interval(&self) -> u64 {
        self.interval_check_ms
    }

    pub closed spec fn wf(&self) -> bool {
        live_distinct(self.probe_nodes@)
    }

    /// An orchestrator for the services tagged `tag`, probing every
    /// `interval_check_ms` milliseconds, with no probe yet and cursor zero.
    pub fn new(tag: String, interval_check_ms: u64) -> (r: ProbeServices)
        ensures
            r.wf(),
            r.live() == Set::<Seq<char>>::empty(),
            r.spec_index() == 0,
            r.spec_tag() == tag@,
            r.spec_interval() == interval_check_ms,
    {
        let r = ProbeServices { tag, interval_check_ms, index: 0, probe_nodes: Vec::new() };
        assert(r.live() =~= Set::<Seq<char>>::empty());
        r
    }

    pub fn tag(&self) -> (r: &str)
        ensures
            r@ == self.spec_tag(),
    {
        self.tag.as_str()
    }

    /// The cursor for the next discovery round.
    pub fn index(&self) -> (r: i64)
        ensures
            r == self.spec_index(),
    {
        self.index
    }

    pub fn interval_check_ms(&self) -> (r: u64)
        ensures
            r == self.spec_interval(),
    {
        self.interval_check_ms
    }

    fn is_live(&self, key: &String) -> (r: bool)
        ensures
            r == self.live().contains(key@),
    {
        let mut i: usize = 0;
        while i < self.probe_nodes.len()
            invariant
                i <= self.probe_nodes@.len(),
                forall|j: int| 0 <= j < i ==> (#[trigger] self.probe_nodes@[j]).0@ != key@,
            decreases self.probe_nodes@.len() - i,
        {
            if self.probe_nodes[i].0 == *key {
                assert(live_keys(self.probe_nodes@).contains(key@));
                return true;
            }
            i = i + 1;
        }
        false
    }

    /// Starts a probe for each node of the snapshot that has none, once per key.
    pub fn start_nodes_probe(&mut self, discovered_nodes: &Vec<(String, ServiceNode)>) -> (r: Vec<StartedProbe>)
        requires
            old(self).wf(),
        ensures
            final(self).wf(),
            final(self).live() == old(self).live().union(found_keys(discovered_nodes@)),
            started_keys(r@) == to_start(old(self).live(), found_keys(discovered_nodes@)),
            started_distinct(r@),
            started_from(r@, discovered_nodes@),
            forall|k: Seq<char>| #[trigger] old(self).probes().contains_key(k) ==> final(self).probes().contains_key(k)
                && final(self).probes()[k] == old(self).probes()[k],
            final(self).spec_index() == old(self).spec_index(),
            final(self).spec_tag() == old(self).spec_tag(),
            final(self).spec_interval() == old(self).spec_interval(),
    {
        let ghost live0 = self.live();
        let ghost entries0 = self.probe_nodes@;
        let ghost d = discovered_nodes@;
        let mut started: Vec<StartedProbe> = Vec::new();
        let mut i: usize = 0;
        while i < discovered_nodes.len()
            invariant
                i <= d.len(),
                d == discovered_nodes@,
                self.index == old(self).index,
                self.tag == old(self).tag,
                self.interval_check_ms == old(self).interval_check_ms,
                live0 == old(self).live(),
                entries0 == old(self).probe_nodes@,
                entries0.len() <= self.probe_nodes@.len(),
                self.probe_nodes@.subrange(0, entries0.len() as int) == entries0,
                live_distinct(self.probe_nodes@),
                forall|k: Seq<char>| #[trigger] self.live().contains(k) <==> (live0.contains(k) || exists|j: int|
                    0 <= j < i && (#[trigger] d[j]).0@ == k),
                forall|k: Seq<char>| #[trigger] started_keys(started@).contains(k) <==> (!live0.contains(k) && exists|j: int|
                    0 <= j < i && (#[trigger] d[j]).0@ == k),
                started_distinct(started@),
                started_from(started@, d),
            decreases d.len() - i,
        {
            let entry = &discovered_nodes[i];
            let key = &entry.0;
            if !self.is_live(key) {
                let (tx, rx) = stop_channel();
                let ghost before = self.probe_nodes@;
                let ghost started_before = started@;
                self.probe_nodes.push((key.clone(), tx));
                started.push(StartedProbe { key: key.clone(), node: entry.1.copy(), stop_rx: rx });
                proof {
                    let after = self.probe_nodes@;
                    assert(after.subrange(0, entries0.len() as int) =~= entries0) by {
                        assert(after.subrange(0, before.len() as int) =~= before);
                        assert(after.subrange(0, before.len() as int).subrange(0, entries0.len() as int) =~= before.subrange(0, entries0.len() as int));
                    }
                    assert(after[before.len() as int].0@ == key@);
                    assert forall|a: int, b: int| 0 <= a < after.len() && 0 <= b < after.len() && a != b implies #[trigger] after[a].0@
                        != #[trigger] after[b].0@ by {
                        if a < before.len() && b < before.len() {
                            assert(before[a].0@ != before[b].0@);
                        } else if a < before.len() {
                            assert(live_keys(before).contains(before[a].0@));
                        } else if b < before.len() {
                            assert(live_keys(before).contains(before[b].0@));
                        }
                    }
                    let s = started@;
                    assert(s[started_before.len() as int].key@ == key@);
                    assert forall|a: int, b: int| 0 <= a < s.len() && 0 <= b < s.len() && a != b implies #[trigger] s[a].key@
                        != #[trigger] s[b].key@ by {
                        if a < started_before.len() && b < started_before.len() {
                            assert(started_before[a].key@ != started_before[b].key@);
                        } else if a < started_before.len() {
                            assert(started_keys(started_before).contains(started_before[a].key@));
                        } else if b < started_before.len() {
                            assert(started_keys(started_before).contains(started_before[b].key@));
                        }
                    }
                    assert forall|j: int| 0 <= j < s.len() implies exists|m: int| 0 <= m < d.len() && d[m].0@ == (#[trigger] s[j]).key@
                        && d[m].1 == s[j].node by {
                        if j == started_before.len() {
                            assert(d[i as int].0@ == s[j].key@ && d[i as int].1 == s[j].node);
                        } else {
                            assert(s[j] == started_before[j]);
                        }
                    }
                    assert forall|k: Seq<char>| #[trigger] live_keys(after).contains(k) <==> (live0.contains(k) || exists|j: int|
                        0 <= j < i + 1 && (#[trigger] d[j]).0@ == k) by {
                        if live_keys(after).contains(k) {
                            let m = choose|m: int| 0 <= m < after.len() && (#[trigger] after[m]).0@ == k;
                            if m < before.len() {
                                assert(live_keys(before).contains(k));
                            } else {
                                assert(d[i as int].0@ == k);
                            }
                        }
                        if live_keys(before).contains(k) {
                            let m = choose|m: int| 0 <= m < before.len() && (#[trigger] before[m]).0@ == k;
                            assert(after[m].0@ == k);
                        }
                        if k == key@ {
                            assert(after[before.len() as int].0@ == k);
                        }
                    }
                    assert forall|k: Seq<char>| #[trigger] started_keys(s).contains(k) <==> (!live0.contains(k) && exists|j: int|
                        0 <= j < i + 1 && (#[trigger] d[j]).0@ == k) by {
                        if started_keys(s).contains(k) {
                            let m = choose|m: int| 0 <= m < s.len() && (#[trigger] s[m]).key@ == k;
                            if m < started_before.len() {
                                assert(started_keys(started_before).contains(k));
                            }
                        }
                        if started_keys(started_before).contains(k) {
                            let m = choose|m: int| 0 <= m < started_before.len() && (#[trigger] started_before[m]).key@ == k;
                            assert(s[m].key@ == k);
                        }
                        if k == key@ {
                            assert(s[started_before.len() as int].key@ == k);
                        }
                    }
                }
            } else {
                proof {
                    assert forall|k: Seq<char>| #[trigger] self.live().contains(k) <==> (live0.contains(k) || exists|j: int|
                        0 <= j < i + 1 && (#[trigger] d[j]).0@ == k) by {
                        if k == d[i as int].0@ {
                            assert(self.live().contains(k));
                        }
                    }
                }
            }
            i = i + 1;
        }
        assert(self.live() =~= live0.union(found_keys(d)));
        assert(started_keys(started@) =~= to_start(live0, found_keys(d)));
        proof {
            assert forall|k: Seq<char>| #[trigger] old(self).probes().contains_key(k) implies self.probes().contains_key(k)
                && self.probes()[k] == old(self).probes()[k] by {
                let j = choose|j: int| 0 <= j < entries0.len() && (#[trigger] entries0[j]).0@ == k;
                assert(self.probe_nodes@[j] == self.probe_nodes@.subrange(0, entries0.len() as int)[j]);
                lemma_probe_at(entries0, j);
                lemma_probe_at(self.probe_nodes@, j);
            }
        }
        started
    }

    /// Requests the stop of each probe whose node the snapshot no longer holds,
    /// and forgets it. Gives their keys.
    pub fn stop_nodes_probe(&mut self, discovered_nodes: &Vec<(String, ServiceNode)>) -> (r: Vec<String>)
        requires
            old(self).wf(),
        ensures
            final(self).wf(),
            final(self).live() == old(self).live().intersect(found_keys(discovered_nodes@)),
            text_set(r@) == to_stop(old(self).live(), found_keys(discovered_nodes@)),
            final(self).probes() == old(self).probes().restrict(found_keys(discovered_nodes@)),
            final(self).spec_index() == old(self).spec_index(),
            final(self).spec_tag() == old(self).spec_tag(),
            final(self).spec_interval() == old(self).spec_interval(),
    {
        let ghost d = discovered_nodes@;
        let mut rest: Vec<(String, Sender<u8>)> = Vec::new();
        std::mem::swap(&mut rest, &mut self.probe_nodes);
        let ghost orig = rest@;
        let total = rest.len();
        let mut stopped: Vec<String> = Vec::new();
        let mut i: usize = 0;
        while rest.len() > 0
            invariant
                i + rest@.len() == orig.len(),
                orig.len() == total,
                rest@ == orig.subrange(i as int, orig.len() as int),
                live_distinct(orig),
                d == discovered_nodes@,
                self.index == old(self).index,
                self.tag == old(self).tag,
                self.interval_check_ms == old(self).interval_check_ms,
                live_distinct(self.probe_nodes@),
                forall|a: int| 0 <= a < self.probe_nodes@.len() ==> exists|j: int| 0 <= j < i && (#[trigger] orig[j]).0@
                    == (#[trigger] self.probe_nodes@[a]).0@,
                forall|a: int| 0 <= a < self.probe_nodes@.len() ==> exists|j: int| 0 <= j < i && #[trigger] orig[j]
                    == #[trigger] self.probe_nodes@[a],
                forall|k: Seq<char>| #[trigger] live_keys(self.probe_nodes@).contains(k) <==> (has_key(d, k) && exists|j: int|
                    0 <= j < i && (#[trigger] orig[j]).0@ == k),
                forall|k: Seq<char>| #[trigger] text_set(stopped@).contains(k) <==> (!has_key(d, k) && exists|j: int|
                    0 <= j < i && (#[trigger] orig[j]).0@ == k),
            decreases rest@.len(),
        {
            let ghost rest_before = rest@;
            let (key, tx) = rest.remove(0);
            proof {
                assert(orig[i as int] == rest_before[0]);
                assert(orig[i as int] == (key, tx));
                assert(rest@ =~= orig.subrange(i + 1, orig.len() as int));
            }
            let ghost before = self.probe_nodes@;
            let ghost stopped_before = stopped@;
            if found_contains(discovered_nodes, &key) {
                self.probe_nodes.push((key, tx));
                proof {
                    let after = self.probe_nodes@;
                    assert forall|a: int, b: int| 0 <= a < after.len() && 0 <= b < after.len() && a != b implies #[trigger] after[a].0@
                        != #[trigger] after[b].0@ by {
                        if a < before.len() && b < before.len() {
                            assert(before[a].0@ != before[b].0@);
                        } else if a < before.len() {
                            let j = choose|j: int| 0 <= j < i && (#[trigger] orig[j]).0@ == (#[trigger] before[a]).0@;
                            assert(orig[j].0@ != orig[i as int].0@);
                        } else if b < before.len() {
                            let j = choose|j: int| 0 <= j < i && (#[trigger] orig[j]).0@ == (#[trigger] before[b]).0@;
                            assert(orig[j].0@ != orig[i as int].0@);
                        }
                    }
                    assert forall|a: int| 0 <= a < after.len() implies exists|j: int| 0 <= j < i + 1 && (#[trigger] orig[j]).0@
                        == (#[trigger] after[a]).0@ by {
                        if a < before.len() {
                            assert(after[a] == before[a]);
                        } else {
                            assert(orig[i as int].0@ == after[a].0@);
                        }
                    }
                    assert forall|a: int| 0 <= a < after.len() implies exists|j: int| 0 <= j < i + 1 && #[trigger] orig[j]
                        == #[trigger] after[a] by {
                        if a < before.len() {
                            assert(after[a] == before[a]);
                            let j = choose|j: int| 0 <= j < i && #[trigger] orig[j] == #[trigger] before[a];
                        } else {
                            assert(orig[i as int] == after[a]);
                        }
                    }
                    assert forall|k: Seq<char>| #[trigger] live_keys(after).contains(k) <==> (has_key(d, k) && exists|j: int|
                        0 <= j < i + 1 && (#[trigger] orig[j]).0@ == k) by {
                        if live_keys(after).contains(k) {
                            let m = choose|m: int| 0 <= m < after.len() && (#[trigger] after[m]).0@ == k;
                            if m < before.len() {
                                assert(live_keys(before).contains(k));
                            }
                        }
                        if live_keys(before).contains(k) {
                            let m = choose|m: int| 0 <= m < before.len() && (#[trigger] before[m]).0@ == k;
                            assert(after[m].0@ == k);
                        }
                        if k == orig[i as int].0@ {
                            assert(after[before.len() as int].0@ == k);
                        }
                    }
                    assert forall|k: Seq<char>| #[trigger] text_set(stopped@).contains(k) <==> (!has_key(d, k) && exists|j: int|
                        0 <= j < i + 1 && (#[trigger] orig[j]).0@ == k) by {
                        if exists|j: int| 0 <= j < i + 1 && (#[trigger] orig[j]).0@ == k {
                            if k != orig[i as int].0@ {
                                let j = choose|j: int| 0 <= j < i + 1 && (#[trigger] orig[j]).0@ == k;
                                assert(j < i);
                            }
                        }
                    }
                }
            } else {
                send_stop(tx);
                stopped.push(key);
                proof {
                    let s = stopped@;
                    assert forall|a: int| 0 <= a < before.len() implies exists|j: int| 0 <= j < i + 1 && (#[trigger] orig[j]).0@
                        == (#[trigger] before[a]).0@ by {
                        let j = choose|j: int| 0 <= j < i && (#[trigger] orig[j]).0@ == (#[trigger] before[a]).0@;
                    }
                    assert forall|a: int| 0 <= a < before.len() implies exists|j: int| 0 <= j < i + 1 && #[trigger] orig[j]
                        == #[trigger] before[a] by {
                        let j = choose|j: int| 0 <= j < i && #[trigger] orig[j] == #[trigger] before[a];
                    }
                    assert forall|k: Seq<char>| #[trigger] live_keys(before).contains(k) <==> (has_key(d, k) && exists|j: int|
                        0 <= j < i + 1 && (#[trigger] orig[j]).0@ == k) by {
                        if exists|j: int| 0 <= j < i + 1 && (#[trigger] orig[j]).0@ == k {
                            if k != orig[i as int].0@ {
                                let j = choose|j: int| 0 <= j < i + 1 && (#[trigger] orig[j]).0@ == k;
                                assert(j < i);
                            }
                        }
                    }
                    assert forall|k: Seq<char>| #[trigger] text_set(s).contains(k) <==> (!has_key(d, k) && exists|j: int|
                        0 <= j < i + 1 && (#[trigger] orig[j]).0@ == k) by {
                        if text_set(s).contains(k) {
                            let m = choose|m: int| 0 <= m < s.len() && (#[trigger] s[m])@ == k;
                            if m < stopped_before.len() {
                                assert(text_set(stopped_before).contains(k));
                            } else {
                                assert(orig[i as int].0@ == k);
                            }
                        }
                        if text_set(stopped_before).contains(k) {
                            let m = choose|m: int| 0 <= m < stopped_before.len() && (#[trigger] stopped_before[m])@ == k;
                            assert(s[m]@ == k);
                        }
                        if k == orig[i as int].0@ {
                            assert(s[stopped_before.len() as int]@ == k);
                        } else if exists|j: int| 0 <= j < i + 1 && (#[trigger] orig[j]).0@ == k {
                            let j = choose|j: int| 0 <= j < i + 1 && (#[trigger] orig[j]).0@ == k;
                            assert(j < i);
                        }
                    }
                }
            }
            i = i + 1;
        }
        proof {
            assert forall|k: Seq<char>| #[trigger] live_keys(orig).contains(k) <==> exists|j: int| 0 <= j < i && (#[trigger] orig[j]).0@ == k by {
            }
            assert(self.live() =~= old(self).live().intersect(found_keys(d)));
            assert(text_set(stopped@) =~= to_stop(old(self).live(), found_keys(d)));
            let fin = self.probe_nodes@;
            assert forall|k: Seq<char>| #[trigger] probe_map(fin).contains_key(k) implies probe_map(fin)[k]
                == probe_map(orig)[k] by {
                let a = choose|a: int| 0 <= a < fin.len() && (#[trigger] fin[a]).0@ == k;
                let j = choose|j: int| 0 <= j < i && #[trigger] orig[j] == #[trigger] fin[a];
                lemma_probe_at(fin, a);
                lemma_probe_at(orig, j);
            }
            assert(probe_map(fin).dom() =~= live_keys(fin));
            assert(probe_map(orig).dom() =~= live_keys(orig));
            assert(probe_map(fin) =~= probe_map(orig).restrict(found_keys(d)));
        }
        stopped
    }

    /// One reconciliation after a discovery round. On success the cursor
    /// moves on, probes start for the new nodes and stop for the vanished
    /// ones; on failure the cursor goes back to zero and the probes stay.
    pub fn on_discovery(&mut self, outcome: Result<ServiceNodes, DiscoveryError>) -> (r: Reconciled)
        requires
            old(self).wf(),
        ensures
            final(self).wf(),
            final(self).spec_tag() == old(self).spec_tag(),
            final(self).spec_interval() == old(self).spec_interval(),
            outcome matches Ok(n) ==> {
                &&& final(self).spec_index() == n.index
                &&& final(self).live() == reconciled(old(self).live(), found_keys(n.nodes@))
                &&& started_keys(r.started@) == to_start(old(self).live(), found_keys(n.nodes@))
                &&& started_distinct(r.started@)
                &&& started_from(r.started@, n.nodes@)
                &&& text_set(r.stopped@) == to_stop(old(self).live(), found_keys(n.nodes@))
                &&& !r.discovery_failed
                // A probe that stays keeps the sender it had.
                &&& forall|k: Seq<char>| #![trigger final(self).probes()[k]] old(self).probes().contains_key(k)
                    && found_keys(n.nodes@).contains(k) ==> final(self).probes().contains_key(k)
                    && final(self).probes()[k] == old(self).probes()[k]
                // Reconciling the snapshot already probed starts, stops and replaces nothing.
                &&& old(self).live() == found_keys(n.nodes@) ==> {
                    &&& final(self).probes() == old(self).probes()
                    &&& r.started@.len() == 0
                    &&& r.stopped@.len() == 0
                }
            },
            outcome is Err ==> {
                &&& final(self).spec_index() == 0
                &&& final(self).live() == old(self).live()
                &&& final(self).probes() == old(self).probes()
                &&& r.started@.len() == 0
                &&& r.stopped@.len() == 0
                &&& r.discovery_failed
            },
    {
        match outcome {
            Ok(discovered) => {
                self.index = discovered.index;
                let ghost live0 = self.live();
                let ghost probes0 = self.probes();
                let started = self.start_nodes_probe(&discovered.nodes);
                let ghost mid = self.probes();
                let stopped = self.stop_nodes_probe(&discovered.nodes);
                proof {
                    let f = found_keys(discovered.nodes@);
                    assert(probes0 == old(self).probes());
                    assert forall|k: Seq<char>| #![trigger self.probes()[k]] probes0.contains_key(k) && f.contains(k) implies self.probes().contains_key(k)
                        && self.probes()[k] == probes0[k] by {
                        assert(mid.contains_key(k) && mid[k] == probes0[k]);
                    }
                    assert(live0.union(f).intersect(f) =~= reconciled(live0, f));
                    if live0 == f {
                        assert(to_start(live0, f) =~= Set::<Seq<char>>::empty());
                        assert(to_stop(live0, f) =~= Set::<Seq<char>>::empty());
                        if started@.len() > 0 {
                            assert(started_keys(started@).contains(started@[0].key@));
                        }
                        if stopped@.len() > 0 {
                            assert(text_set(stopped@).contains(stopped@[0]@));
                        }
                        assert(self.probes().dom() =~= self.live());
                        assert(old(self).probes().dom() =~= old(self).live());
                        assert forall|k: Seq<char>| #[trigger] self.probes().contains_key(k) implies self.probes()[k] == probes0[k] by {
                            assert(mid[k] == probes0[k]);
                        }
                        assert(self.probes() =~= old(self).probes());
                    }
                }
                Reconciled { started, stopped, discovery_failed: false }
            },
            Err(_) => {
                self.index = 0;
                Reconciled { started: Vec::new(), stopped: Vec::new(), discovery_failed: true }
            },
        }
    }
}

/// Reconciling leaves exactly the snapshot's nodes probed, so reconciling the
/// same snapshot again starts nothing, stops nothing and changes nothing.
pub proof fn reconcile_is_idempotent(live: Set<Seq<char>>, found: Set<Seq<char>>)
    ensures
        reconciled(live, found) == found,
        to_start(reconciled(live, found), found) == Set::<Seq<char>>::empty(),
        to_stop(reconciled(live, found), found) == Set::<Seq<char>>::empty(),
        reconciled(reconciled(live, found), found) == reconciled(live, found),
{
    assert(reconciled(live, found) =~= found);
    assert(to_start(found, found) =~= Set::<Seq<char>>::empty());
    assert(to_stop(found, found) =~= Set::<Seq<char>>::empty());
    assert(reconciled(found, found) =~= found);
}

/// A node found by one round and missing from the next is probed after the
/// first round, and its probe is stopped by the second.
pub proof fn vanished_node_is_stopped(live: Set<Seq<char>>, found1: Set<Seq<char>>, found2: Set<Seq<char>>, key: Seq<char>)
    requires
        found1.contains(key),
        !found2.contains(key),
    ensures
        reconciled(live, found1).contains(key),
        live.contains(key) || to_start(live, found1).contains(key),
        to_stop(reconciled(live, found1), found2).contains(key),
        !reconciled(reconciled(live, found1), found2).contains(key),
{
}

} // verus!
