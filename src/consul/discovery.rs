//! One discovery round as a state machine: query the catalog, then each
//! matching service, and gather a snapshot. The caller performs each query
//! and hands back the reply.
use vstd::prelude::*;

use crate::consul::json::{parsed_from, JsonValue, MAX_DEPTH};
use crate::consul::snapshot::{collect, entries_map, insert_node, well_keyed};
use crate::consul::{
    entries_well_formed, matching_services, node_from_entry, texts, watch_index, ConsulClient, ServiceNode,
};
use crate::text::{i64_to_decimal, signed_decimal};

verus! {

/// Query of the catalog of services, waiting for changes after `index`.
pub open spec fn catalog_query(base: Seq<char>, index: i64) -> Seq<char> {
    base + "/v1/catalog/services?index="@ + signed_decimal(index as int) + "&wait=5m"@
}

/// Query of the nodes of service `name`.
pub open spec fn service_query(base: Seq<char>, name: Seq<char>) -> Seq<char> {
    base + "/v1/catalog/service/"@ + name + "?index=0&wait=5m"@
}

/// HTTP statuses that mean success.
pub open spec fn is_success(status: u16) -> bool {
    200 <= status <= 299
}

/// The cursor a catalog reply leads to: the one its header claims, checked
/// against the last one, or zero when the header is missing.
pub open spec fn next_index(prev_index: i64, header: Option<i64>) -> i64 {
    match header {
        Some(index) => watch_index(prev_index, index),
        None => 0,
    }
}

/// A node set found in one discovery round, and the cursor for the next round.
pub struct ServiceNodes {
    pub index: i64,
    /// Nodes by key, each key once.
    pub nodes: Vec<(String, ServiceNode)>,
}

/// What the registry answered to a query.
pub enum HttpReply {
    /// An answer with its status, the cursor header when there was one, and
    /// the body's text.
    Answered { status: u16, index: Option<i64>, body: String },
    /// No answer could be had.
    Unreachable { reason: String },
}

#[derive(Debug)]
pub enum DiscoveryError {
    /// The registry answered with a status other than success.
    QueryFailed { uri: String, status: u16 },
    /// The registry could not be queried.
    Unreachable { uri: String, reason: String },
    /// A node entry of a service lacks its address or port.
    MalformedNodes { service: String },
}

/// What the caller does next.
pub enum DiscoveryStep {
    /// Query this URI and hand the reply to `on_reply`.
    Query(String),
    /// The round is over.
    Done(ServiceNodes),
    /// The round failed; no partial node set is given.
    Failed(DiscoveryError),
}

#[derive(PartialEq, Eq, Clone, Copy, Structural)]
pub enum Phase {
    Catalog,
    Services,
    Finished,
}

/// What answering the pending query with `status`, cursor header `index` and
/// document `body` does, from `before` to `after`, giving step `r`.
pub open spec fn answered_step(
    before: Discovery,
    after: Discovery,
    status: u16,
    index: Option<i64>,
    body: JsonValue,
    r: DiscoveryStep,
) -> bool {
    &&& !is_success(status) ==> (r matches DiscoveryStep::Failed(
        DiscoveryError::QueryFailed { uri, status: s },
    ) && uri@ == before.spec_uri() && s == status)
    // The catalog answered: the cursor is settled and the matching services chosen.
    &&& is_success(status) && before.spec_phase() == Phase::Catalog ==> {
        &&& after.spec_index() == next_index(before.spec_prev_index(), index)
        &&& after.spec_services() == matching_services(before.spec_tag(), body)
        &&& after.spec_collected().len() == 0
        &&& after.spec_services().len() == 0 ==> (r matches DiscoveryStep::Done(n) && n.index
            == after.spec_index() && n.nodes@.len() == 0)
        &&& after.spec_services().len() > 0 ==> (r matches DiscoveryStep::Query(uri) && uri@
            == service_query(before.spec_base(), after.spec_services()[0]) && after.spec_phase()
            == Phase::Services && after.spec_done() == 0)
    }
    // A service answered: its nodes join the snapshot, or the round fails.
    &&& is_success(status) && before.spec_phase() == Phase::Services ==> {
        let name = before.spec_services()[before.spec_done() as int];
        &&& !entries_well_formed(body) ==> (r matches DiscoveryStep::Failed(DiscoveryError::MalformedNodes { service })
            && service@ == name)
        &&& entries_well_formed(body) ==> {
            &&& after.spec_index() == before.spec_index()
            &&& after.spec_services() == before.spec_services()
            &&& after.spec_done() == before.spec_done() + 1
            &&& service_nodes_of(after.spec_collected(), before.spec_collected(), name, body)
            &&& after.spec_done() < after.spec_services().len() ==> (r matches DiscoveryStep::Query(uri)
                && uri@ == service_query(before.spec_base(), after.spec_services()[after.spec_done() as int]))
            &&& after.spec_done() == after.spec_services().len() ==> (r matches DiscoveryStep::Done(n)
                && n.index == after.spec_index() && well_keyed(n.nodes@)
                && entries_map(n.nodes@) == collect(after.spec_collected()))
        }
    }
}

/// A discovery round in progress.
pub struct Discovery {
    base: String,
    tag: String,
    prev_index: i64,
    index: i64,
    services: Vec<String>,
    next: usize,
    uri: String,
    nodes: Vec<(String, ServiceNode)>,
    phase: Phase,
    collected: Ghost<Seq<ServiceNode>>,
}

impl Discovery {
    pub closed spec fn spec_base(&self) -> Seq<char> {
        self.base@
    }

    pub closed spec fn spec_tag(&self) -> Seq<char> {
        self.tag@
    }

    pub closed spec fn spec_prev_index(&self) -> i64 {
        self.prev_index
    }

    pub closed spec fn spec_phase(&self) -> Phase {
        self.phase
    }

    /// The cursor the catalog reply led to.
    pub closed spec fn spec_index(&self) -> i64 {
        self.index
    }

    /// The matching services, in catalog order.
    pub closed spec fn spec_services(&self) -> Seq<Seq<char>> {
        texts(self.services@)
    }

    /// How many matching services have been queried and answered.
    pub closed spec fn spec_done(&self) -> nat {
        self.next as nat
    }

    /// The URI of the query awaiting its reply.
    pub closed spec fn spec_uri(&self) -> Seq<char> {
        self.uri@
    }

    /// The nodes of the services answered so far, in order.
    pub closed spec fn spec_collected(&self) -> Seq<ServiceNode> {
        self.collected@
    }

    pub closed spec fn wf(&self) -> bool {
        &&& well_keyed(self.nodes@)
        &&& self.phase != Phase::Finished ==> entries_map(self.nodes@) == collect(self.collected@)
        &&& self.phase == Phase::Services ==> {
            &&& self.next < self.services@.len()
            &&& self.uri@ == service_query(self.base@, self.services@[self.next as int]@)
        }
        &&& self.phase == Phase::Catalog ==> self.uri@ == catalog_query(self.base@, self.prev_index)
            && self.collected@.len() == 0 && self.nodes@.len() == 0
    }

    /// Starts a round for the services tagged `tag`, after cursor
    /// `prev_index`; the first step is the catalog query.
    pub fn start(client: &ConsulClient, prev_index: i64, tag: &str) -> (r: (Discovery, String))
        ensures
            r.0.wf(),
            r.0.spec_phase() == Phase::Catalog,
            r.0.spec_base() == client.base(),
            r.0.spec_tag() == tag@,
            r.0.spec_prev_index() == prev_index,
            r.0.spec_collected().len() == 0,
            r.1@ == catalog_query(client.base(), prev_index),
            r.0.spec_uri() == r.1@,
    {
        let base = client.fqdn();
        let mut uri = base.clone();
        uri.append("/v1/catalog/services?index=");
        uri.append(i64_to_decimal(prev_index).as_str());
        uri.append("&wait=5m");
        let d = Discovery {
            base,
            tag: tag.to_string(),
            prev_index,
            index: 0,
            services: Vec::new(),
            next: 0,
            uri: uri.clone(),
            nodes: Vec::new(),
            phase: Phase::Catalog,
            collected: Ghost(Seq::empty()),
        };
        proof {
            assert(entries_map(d.nodes@) =~= collect(Seq::empty()));
        }
        (d, uri)
    }

    fn query_next_service(&mut self) -> (r: String)
        requires
            old(self).next < old(self).services@.len(),
        ensures
            *final(self) == (Discovery { uri: r, ..*old(self) }),
            r@ == service_query(old(self).base@, old(self).services@[old(self).next as int]@),
    {
        let mut uri = self.base.clone();
        uri.append("/v1/catalog/service/");
        uri.append(self.services[self.next].as_str());
        uri.append("?index=0&wait=5m");
        self.uri = uri.clone();
        uri
    }

    fn finish(&mut self) -> (r: ServiceNodes)
        ensures
            final(self).phase == Phase::Finished,
            final(self).nodes@.len() == 0,
            final(self).base == old(self).base,
            final(self).tag == old(self).tag,
            final(self).prev_index == old(self).prev_index,
            final(self).index == old(self).index,
            final(self).services == old(self).services,
            final(self).next == old(self).next,
            final(self).collected == old(self).collected,
            r.index == old(self).index,
            r.nodes@ == old(self).nodes@,
    {
        self.phase = Phase::Finished;
        let mut nodes: Vec<(String, ServiceNode)> = Vec::new();
        std::mem::swap(&mut nodes, &mut self.nodes);
        ServiceNodes { index: self.index, nodes }
    }

    /// Takes the reply to the pending query and says what to do next. The
    /// body is parsed as JSON; text that does not parse reads as `Null`.
    pub fn on_reply(&mut self, reply: HttpReply) -> (r: DiscoveryStep)
        requires
            old(self).wf(),
            old(self).spec_phase() != Phase::Finished,
        ensures
            final(self).wf(),
            final(self).spec_base() == old(self).spec_base(),
            final(self).spec_tag() == old(self).spec_tag(),
            final(self).spec_prev_index() == old(self).spec_prev_index(),
            r is Failed ==> final(self).spec_phase() == Phase::Finished,
            reply matches HttpReply::Unreachable { reason } ==> (r matches DiscoveryStep::Failed(
                DiscoveryError::Unreachable { uri, reason: why },
            ) && uri@ == old(self).spec_uri() && why == reason),
            reply matches HttpReply::Answered { status, index, body } ==> exists|doc: JsonValue|
                parsed_from(doc, body@, MAX_DEPTH as nat) && #[trigger] answered_step(*old(self), *final(self), status, index, doc, r),
    {
        match reply {
            HttpReply::Unreachable { reason } => {
                self.phase = Phase::Finished;
                DiscoveryStep::Failed(DiscoveryError::Unreachable { uri: self.uri.clone(), reason })
            },
            HttpReply::Answered { status, index, body } => {
                let doc = JsonValue::parse(body.as_str());
                let ghost d = doc;
                let r = self.on_answer(status, index, doc);
                assert(answered_step(*old(self), *self, status, index, d, r));
                r
            },
        }
    }

    /// Takes the answer to the pending query, its body already parsed, and
    /// says what to do next.
    pub fn on_answer(&mut self, status: u16, header: Option<i64>, body: JsonValue) -> (r: DiscoveryStep)
        requires
            old(self).wf(),
            old(self).spec_phase() != Phase::Finished,
        ensures
            final(self).wf(),
            final(self).spec_base() == old(self).spec_base(),
            final(self).spec_tag() == old(self).spec_tag(),
            final(self).spec_prev_index() == old(self).spec_prev_index(),
            r is Failed ==> final(self).spec_phase() == Phase::Finished,
            answered_step(*old(self), *final(self), status, header, body, r),
    {
        if !(200 <= status && status <= 299) {
            self.phase = Phase::Finished;
            return DiscoveryStep::Failed(DiscoveryError::QueryFailed { uri: self.uri.clone(), status });
        }
        if self.phase == Phase::Catalog {
            self.index = match header {
                Some(index) => ConsulClient::get_watch_index(self.prev_index, index),
                None => 0,
            };
            self.services = ConsulClient::extract_matching_services(self.tag.as_str(), body);
            self.next = 0;
            if self.services.len() == 0 {
                let n = self.finish();
                return DiscoveryStep::Done(n);
            }
            self.phase = Phase::Services;
            let uri = self.query_next_service();
            return DiscoveryStep::Query(uri);
        }
        let name = self.services[self.next].clone();
        if !ConsulClient::is_well_formed(&body) {
            self.phase = Phase::Finished;
            return DiscoveryStep::Failed(DiscoveryError::MalformedNodes { service: name });
        }
        let ghost body_view = body;
        let ghost name_view = name@;
        let found = ConsulClient::extract_nodes(name, body);
        let ghost start = self.collected@;
        let ghost s0 = *self;
        let mut i: usize = 0;
        while i < found.len()
            invariant
                i <= found@.len(),
                self.base == s0.base,
                self.tag == s0.tag,
                self.prev_index == s0.prev_index,
                self.index == s0.index,
                self.services == s0.services,
                self.next == s0.next,
                self.uri == s0.uri,
                self.phase == s0.phase,
                well_keyed(self.nodes@),
                self.collected@ == start + found@.subrange(0, i as int),
                entries_map(self.nodes@) == collect(self.collected@),
            decreases found@.len() - i,
        {
            let node = found[i].copy();
            insert_node(&mut self.nodes, node);
            proof {
                let next = start + found@.subrange(0, i + 1);
                assert(next.drop_last() =~= start + found@.subrange(0, i as int));
                assert(next.last() == found@[i as int]);
                self.collected = Ghost(next);
            }
            i = i + 1;
        }
        proof {
            assert(found@.subrange(0, found@.len() as int) =~= found@);
            let after = self.collected@;
            assert(after.subrange(0, start.len() as int) =~= start);
            if let JsonValue::Array(items) = body_view {
                assert forall|k: int| 0 <= k < items@.len() implies node_from_entry(
                    #[trigger] after[start.len() + k],
                    name_view,
                    items@[k],
                ) by {
                    assert(after[start.len() + k] == found@[k]);
                }
            } else {
                assert(after =~= start);
            }
        }
        let count = self.services.len();
        self.next = self.next + 1;
        if self.next < count {
            let uri = self.query_next_service();
            return DiscoveryStep::Query(uri);
        }
        let n = self.finish();
        DiscoveryStep::Done(n)
    }
}

/// `after` is `before` followed by the nodes that the service document `body`
/// of service `name` lists, in its order.
pub open spec fn service_nodes_of(after: Seq<ServiceNode>, before: Seq<ServiceNode>, name: Seq<char>, body: JsonValue) -> bool {
    match body {
        JsonValue::Array(items) => {
            &&& after.len() == before.len() + items@.len()
            &&& after.subrange(0, before.len() as int) == before
            &&& forall|i: int| 0 <= i < items@.len() ==> node_from_entry(#[trigger] after[before.len() + i], name, items@[i])
        },
        _ => after == before,
    }
}

} // verus!
