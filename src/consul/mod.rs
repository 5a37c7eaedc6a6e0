//! Registry discovery: which services carry the probing tag, and which nodes
//! they run on.
use vstd::prelude::*;

use crate::consul::json::JsonValue;
use crate::text::{decimal, u64_to_decimal};

pub mod discovery;
pub mod json;
pub mod snapshot;

pub use crate::consul::discovery::ServiceNodes;

verus! {

/// One node of a service: where to reach it.
#[derive(Debug, PartialEq, Clone)]
pub struct ServiceNode {
    pub service_name: String,
    pub ip: String,
    pub port: u16,
}

/// The identity of a node in a snapshot: `service_name:ip:port`.
pub open spec fn node_key(service_name: Seq<char>, ip: Seq<char>, port: u16) -> Seq<char> {
    service_name + ":"@ + ip + ":"@ + decimal(port as nat)
}

impl ServiceNode {
    pub open spec fn key(&self) -> Seq<char> {
        node_key(self.service_name@, self.ip@, self.port)
    }

    /// The key of this node, `service_name:ip:port`.
    pub fn to_string(&self) -> (r: String)
        ensures
            r@ == self.key(),
    {
        let mut s = self.service_name.clone();
        s.append(":");
        s.append(self.ip.as_str());
        s.append(":");
        s.append(u64_to_decimal(self.port as u64).as_str());
        s
    }

    /// A copy of this node.
    pub fn copy(&self) -> (r: ServiceNode)
        ensures
            r == *self,
    {
        ServiceNode { service_name: self.service_name.clone(), ip: self.ip.clone(), port: self.port }
    }
}

/// The text of `v` if it is a string, else the empty text.
pub open spec fn string_value(v: JsonValue) -> Seq<char> {
    match v {
        JsonValue::String(s) => s@,
        _ => Seq::empty(),
    }
}

/// Some tag of `tags` reads as `tag`.
pub open spec fn has_tag(tag: Seq<char>, tags: Seq<JsonValue>) -> bool {
    exists|i: int| 0 <= i < tags.len() && string_value(#[trigger] tags[i]) == tag
}

/// A service whose tag list is `v` is to be probed for `tag`.
pub open spec fn is_tagged(tag: Seq<char>, v: JsonValue) -> bool {
    match v {
        JsonValue::Array(tags) => has_tag(tag, tags@),
        _ => false,
    }
}

/// Names of the entries whose tag list holds `tag`, in entry order.
pub open spec fn tagged_names(tag: Seq<char>, entries: Seq<(String, JsonValue)>) -> Seq<Seq<char>>
    decreases entries.len(),
{
    if entries.len() == 0 {
        Seq::empty()
    } else {
        let before = tagged_names(tag, entries.drop_last());
        if is_tagged(tag, entries.last().1) {
            before.push(entries.last().0@)
        } else {
            before
        }
    }
}

/// Services of a catalog document that carry `tag`; none unless it is an object.
pub open spec fn matching_services(tag: Seq<char>, catalog: JsonValue) -> Seq<Seq<char>> {
    match catalog {
        JsonValue::Object(entries) => tagged_names(tag, entries@),
        _ => Seq::empty(),
    }
}

/// The views of a list of strings.
pub open spec fn texts(v: Seq<String>) -> Seq<Seq<char>> {
    v.map_values(|s: String| s@)
}

/// The value under the first entry named `key`.
pub open spec fn lookup(entries: Seq<(String, JsonValue)>, key: Seq<char>) -> Option<JsonValue>
    decreases entries.len(),
{
    if entries.len() == 0 {
        None
    } else if entries[0].0@ == key {
        Some(entries[0].1)
    } else {
        lookup(entries.drop_first(), key)
    }
}

/// Address and port of a node entry of the registry: an object whose
/// `ServiceAddress` is a string and whose `ServicePort` is an integer in the
/// range of ports.
pub open spec fn node_fields(v: JsonValue) -> Option<(Seq<char>, u64)> {
    match v {
        JsonValue::Object(entries) => match (lookup(entries@, "ServiceAddress"@), lookup(entries@, "ServicePort"@)) {
            (Some(JsonValue::String(address)), Some(JsonValue::Number(Some(port)))) => if port <= u16::MAX {
                Some((address@, port))
            } else {
                None
            },
            _ => None,
        },
        _ => None,
    }
}

/// `node` is the node that entry `v` of service `service_name` describes.
pub open spec fn node_from_entry(node: ServiceNode, service_name: Seq<char>, v: JsonValue) -> bool {
    &&& node_fields(v) is Some
    &&& node.service_name@ == service_name
    &&& node.ip@ == node_fields(v)->Some_0.0
    &&& node.port == node_fields(v)->Some_0.1
}

/// Every entry of a service document is a node entry; a document that is not
/// an array has none.
pub open spec fn entries_well_formed(body: JsonValue) -> bool {
    match body {
        JsonValue::Array(items) => forall|i: int| 0 <= i < items@.len() ==> (#[trigger] node_fields(items@[i])) is Some,
        _ => true,
    }
}

/// The cursor to use after a reply claiming `index`, when the last one was `prev_index`.
pub open spec fn watch_index(prev_index: i64, index: i64) -> i64 {
    if index < prev_index || index < 0 {
        0
    } else {
        index
    }
}

/// A client of the registry's catalog at `fqdn`.
pub struct ConsulClient {
    fqdn: String,
}

impl ConsulClient {
    pub closed spec fn base(&self) -> Seq<char> {
        self.fqdn@
    }

    /// A client of the registry at `consul_fqdn` (scheme, host and port).
    pub fn new(consul_fqdn: String) -> (r: ConsulClient)
        ensures
            r.base() == consul_fqdn@,
    {
        ConsulClient { fqdn: consul_fqdn }
    }

    /// The registry's address.
    pub fn fqdn(&self) -> (r: String)
        ensures
            r@ == self.base(),
    {
        self.fqdn.clone()
    }

    /// The text of `value` if it is a string, else the empty string.
    pub fn get_string_value(value: &JsonValue) -> (r: String)
        ensures
            r@ == string_value(*value),
    {
        match value {
            JsonValue::String(s) => s.clone(),
            _ => String::new(),
        }
    }

    /// Whether the tag list `tags_opt` holds `tag`.
    pub fn is_matching_service(tag: &str, tags_opt: Option<&Vec<JsonValue>>) -> (r: bool)
        ensures
            r == (tags_opt matches Some(tags) && has_tag(tag@, tags@)),
    {
        if let Some(tags) = tags_opt {
            let wanted = tag.to_string();
            let mut i: usize = 0;
            while i < tags.len()
                invariant
                    i <= tags@.len(),
                    wanted@ == tag@,
                    tags_opt == Some(tags),
                    forall|j: int| 0 <= j < i ==> string_value(#[trigger] tags@[j]) != tag@,
                decreases tags@.len() - i,
            {
                if Self::get_string_value(&tags[i]) == wanted {
                    assert(string_value(tags@[i as int]) == tag@);
                    return true;
                }
                i = i + 1;
            }
        }
        false
    }

    /// Services of the catalog document `body_json` whose tag list holds `tag`,
    /// in the order of the object's entries (key order, as the parser gives
    /// them); none when it is not an object.
    pub fn extract_matching_services(tag: &str, body_json: JsonValue) -> (r: Vec<String>)
        ensures
            texts(r@) == matching_services(tag@, body_json),
    {
        let mut matching: Vec<String> = Vec::new();
        if let JsonValue::Object(entries) = &body_json {
            let mut i: usize = 0;
            while i < entries.len()
                invariant
                    i <= entries@.len(),
                    texts(matching@) == tagged_names(tag@, entries@.subrange(0, i as int)),
                decreases entries@.len() - i,
            {
                let entry = &entries[i];
                let tags = match &entry.1 {
                    JsonValue::Array(tags) => Some(tags),
                    _ => None,
                };
                let take = Self::is_matching_service(tag, tags);
                proof {
                    let prefix = entries@.subrange(0, i + 1);
                    assert(prefix.drop_last() =~= entries@.subrange(0, i as int));
                    assert(prefix.last() == entries@[i as int]);
                }
                if take {
                    matching.push(entry.0.clone());
                    assert(texts(matching@) =~= tagged_names(tag@, entries@.subrange(0, i + 1)));
                }
                i = i + 1;
            }
            assert(entries@.subrange(0, entries@.len() as int) =~= entries@);
        }
        matching
    }

    /// The value under the first entry named `key`.
    fn find<'a>(entries: &'a Vec<(String, JsonValue)>, key: &str) -> (r: Option<&'a JsonValue>)
        ensures
            r matches Some(v) ==> lookup(entries@, key@) == Some(*v),
            r is None ==> lookup(entries@, key@) is None,
    {
        let wanted = key.to_string();
        let mut i: usize = 0;
        assert(entries@.subrange(0, entries@.len() as int) =~= entries@);
        while i < entries.len()
            invariant
                i <= entries@.len(),
                wanted@ == key@,
                lookup(entries@, key@) == lookup(entries@.subrange(i as int, entries@.len() as int), key@),
            decreases entries@.len() - i,
        {
            proof {
                let rest = entries@.subrange(i as int, entries@.len() as int);
                assert(rest.drop_first() =~= entries@.subrange(i + 1, entries@.len() as int));
            }
            if entries[i].0 == wanted {
                return Some(&entries[i].1);
            }
            i = i + 1;
        }
        None
    }

    /// Address and port of a node entry, if it is one.
    fn node_entry_fields<'a>(node_value: &'a JsonValue) -> (r: Option<(&'a String, u64)>)
        ensures
            r matches Some((address, port)) ==> node_fields(*node_value) == Some((address@, port)),
            r is None ==> node_fields(*node_value) is None,
    {
        if let JsonValue::Object(entries) = node_value {
            let address = Self::find(entries, "ServiceAddress");
            let port = Self::find(entries, "ServicePort");
            if let (Some(JsonValue::String(a)), Some(JsonValue::Number(Some(p)))) = (address, port) {
                if *p <= 65535 {
                    return Some((a, *p));
                }
            }
        }
        None
    }

    /// Whether `body_json` is a service document whose entries are all node entries.
    pub fn is_well_formed(body_json: &JsonValue) -> (r: bool)
        ensures
            r == entries_well_formed(*body_json),
    {
        if let JsonValue::Array(items) = body_json {
            let mut i: usize = 0;
            while i < items.len()
                invariant
                    i <= items@.len(),
                    *body_json == JsonValue::Array(*items),
                    forall|j: int| 0 <= j < i ==> (#[trigger] node_fields(items@[j])) is Some,
                decreases items@.len() - i,
            {
                if Self::node_entry_fields(&items[i]).is_none() {
                    assert(!(node_fields(items@[i as int]) is Some));
                    return false;
                }
                i = i + 1;
            }
        }
        true
    }

    /// The node that a node entry of service `service_name` describes.
    pub fn get_service_address_port(service_name: &str, node_value: &JsonValue) -> (r: ServiceNode)
        requires
            node_fields(*node_value) is Some,
        ensures
            node_from_entry(r, service_name@, *node_value),
    {
        let fields = Self::node_entry_fields(node_value);
        let (address, port) = fields.unwrap();
        ServiceNode { service_name: service_name.to_string(), ip: address.clone(), port: port as u16 }
    }

    /// The nodes of the service document `body_json`, in its order; none when
    /// it is not an array.
    pub fn extract_nodes(service_name: String, body_json: JsonValue) -> (r: Vec<ServiceNode>)
        requires
            entries_well_formed(body_json),
        ensures
            body_json matches JsonValue::Array(items) ==> r@.len() == items@.len() && forall|i: int|
                0 <= i < r@.len() ==> node_from_entry(#[trigger] r@[i], service_name@, items@[i]),
            !(body_json is Array) ==> r@.len() == 0,
    {
        let mut nodes: Vec<ServiceNode> = Vec::new();
        if let JsonValue::Array(items) = &body_json {
            let mut i: usize = 0;
            while i < items.len()
                invariant
                    i <= items@.len(),
                    entries_well_formed(body_json),
                    body_json == JsonValue::Array(*items),
                    nodes@.len() == i,
                    forall|j: int| 0 <= j < i ==> node_from_entry(#[trigger] nodes@[j], service_name@, items@[j]),
                decreases items@.len() - i,
            {
                assert(node_fields(items@[i as int]) is Some);
                nodes.push(Self::get_service_address_port(service_name.as_str(), &items[i]));
                i = i + 1;
            }
        }
        nodes
    }

    /// The cursor for the next query: the one the reply claims, or zero when it
    /// went back or is negative.
    pub fn get_watch_index(prev_index: i64, index: i64) -> (r: i64)
        ensures
            r == watch_index(prev_index, index),
    {
        if index < prev_index {
            return 0;
        }
        if index < 0 {
            return 0;
        }
        index
    }
}

/// A reply claiming a cursor lower than the last one resets the cursor.
pub proof fn lower_cursor_resets(cursor1: i64, cursor2: i64)
    requires
        cursor1 < cursor2,
    ensures
        watch_index(cursor2, cursor1) == 0,
{
}

/// A reply claiming a negative cursor resets the cursor, whatever the last one was.
pub proof fn negative_cursor_resets(prev_index: i64, index: i64)
    requires
        index < 0,
    ensures
        watch_index(prev_index, index) == 0,
{
}

} // verus!
