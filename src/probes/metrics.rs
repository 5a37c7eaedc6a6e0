//! Registration of the probe metrics with a metrics registry.
use vstd::prelude::*;

verus! {

#[verifier::external_type_specification]
#[verifier::external_body]
pub struct ExRegistry(prometheus::Registry);

/// The probe metrics, shared by every task. Each label-vector metric is a
/// collection of series keyed by label values; the builder types that its
/// type is made of are private to the metrics crate and cannot be declared,
/// so the collection is held here, out of the verifier's sight.
#[verifier::external_body]
pub struct Metrics {
    /// Requests by cluster, socket, status and command type.
    pub number_of_requests: prometheus::IntCounterVec,
    /// Response times by cluster, socket and command type.
    pub response_time: prometheus::HistogramVec,
    /// Failed discovery rounds.
    pub failure_services_discovery: prometheus::IntCounter,
    /// Failed probes by cluster and socket.
    pub failure_probe: prometheus::IntCounterVec,
}

/// A collector of the probe metrics.
#[derive(Debug, PartialEq, Eq, Clone, Copy, Structural)]
pub enum Collector {
    NumberOfRequests,
    ResponseTime,
    FailureServicesDiscovery,
    FailureProbe,
}

/// Relies on `prometheus::Registry::register`: adds a clone of the request
/// counter, which shares its series, to the registry; `false` when the
/// registry refuses it.
#[verifier::external_body]
fn register_number_of_requests(registry: &prometheus::Registry, metrics: &Metrics) -> (r: bool) {
    registry.register(Box::new(metrics.number_of_requests.clone())).is_ok()
}

/// Relies on `prometheus::Registry::register`: adds a clone of the response
/// time histogram, which shares its series, to the registry; `false` when the
/// registry refuses it.
#[verifier::external_body]
fn register_response_time(registry: &prometheus::Registry, metrics: &Metrics) -> (r: bool) {
    registry.register(Box::new(metrics.response_time.clone())).is_ok()
}

/// Relies on `prometheus::Registry::register`: adds a clone of the discovery
/// failure counter, which shares its value, to the registry; `false` when the
/// registry refuses it.
#[verifier::external_body]
fn register_failure_services_discovery(registry: &prometheus::Registry, metrics: &Metrics) -> (r: bool) {
    registry.register(Box::new(metrics.failure_services_discovery.clone())).is_ok()
}

/// Relies on `prometheus::Registry::register`: adds a clone of the probe
/// failure counter, which shares its series, to the registry; `false` when the
/// registry refuses it.
#[verifier::external_body]
fn register_failure_probe(registry: &prometheus::Registry, metrics: &Metrics) -> (r: bool) {
    registry.register(Box::new(metrics.failure_probe.clone())).is_ok()
}

/// The collectors, in the order they are registered.
pub open spec fn collectors() -> Seq<Collector> {
    seq![Collector::NumberOfRequests, Collector::ResponseTime, Collector::FailureServicesDiscovery, Collector::FailureProbe]
}

/// Registers the four probe metrics with `registry`, in order, stopping at
/// the first one the registry refuses and naming it.
pub fn register_custom_metrics(registry: &prometheus::Registry, metrics: &Metrics) -> (r: Result<(), Collector>)
    ensures
        r matches Err(c) ==> collectors().contains(c),
{
    if !register_number_of_requests(registry, metrics) {
        return Err(Collector::NumberOfRequests);
    }
    if !register_response_time(registry, metrics) {
        return Err(Collector::ResponseTime);
    }
    if !register_failure_services_discovery(registry, metrics) {
        return Err(Collector::FailureServicesDiscovery);
    }
    if !register_failure_probe(registry, metrics) {
        return Err(Collector::FailureProbe);
    }
    Ok(())
}

} // verus!
