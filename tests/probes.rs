use probes::consul::discovery::{DiscoveryError, ServiceNodes};
use probes::consul::ServiceNode;
use probes::probes::channel::{poll_stop, StopSignal};
use probes::probes::node::{decide, Metric, MetricSeries, TaskAction, TaskEvent, TaskPhase, TaskStep};
use probes::probes::metrics::{register_custom_metrics, Collector};
use probes::probes::{ProbeNode, ProbeServices};

fn snapshot(index: i64, nodes: &[(&str, &str, u16)]) -> ServiceNodes {
    let nodes = nodes
        .iter()
        .map(|(s, ip, port)| {
            let n = ServiceNode { service_name: s.to_string(), ip: ip.to_string(), port: *port };
            (n.to_string(), n)
        })
        .collect();
    ServiceNodes { index, nodes }
}

fn sorted(mut v: Vec<String>) -> Vec<String> {
    v.sort();
    v
}

fn probe_node() -> (ProbeNode, tokio::sync::oneshot::Sender<u8>) {
    let (tx, rx) = tokio::sync::oneshot::channel();
    (ProbeNode::new("cluster_name".to_string(), "ip".to_string(), 0, 1, rx), tx)
}

fn labels(series: &MetricSeries) -> Vec<&str> {
    series.labels.iter().map(|s| s.as_str()).collect()
}

#[test]
fn reconciling_twice_is_idempotent() {
    let mut services = ProbeServices::new("memcached".to_string(), 1000);
    let first = services.on_discovery(Ok(snapshot(7, &[("a", "h1", 1), ("a", "h2", 2)])));
    assert_eq!(first.started.len(), 2);
    assert!(first.stopped.is_empty());
    assert_eq!(services.index(), 7);
    let second = services.on_discovery(Ok(snapshot(7, &[("a", "h1", 1), ("a", "h2", 2)])));
    assert!(second.started.is_empty());
    assert!(second.stopped.is_empty());
    assert!(!second.discovery_failed);
    let mut first = first;
    for probe in first.started.iter_mut() {
        assert_eq!(poll_stop(&mut probe.stop_rx), StopSignal::Empty);
    }
}

#[test]
fn vanished_node_is_stopped_and_signalled() {
    let mut services = ProbeServices::new("memcached".to_string(), 1000);
    let mut first = services.on_discovery(Ok(snapshot(1, &[("a", "h1", 1), ("a", "h2", 2)])));
    let second = services.on_discovery(Ok(snapshot(2, &[("a", "h2", 2), ("b", "h3", 3)])));
    assert_eq!(sorted(second.stopped.clone()), vec!["a:h1:1".to_string()]);
    assert_eq!(second.started.len(), 1);
    assert_eq!(second.started[0].key, "b:h3:3");
    assert_eq!(second.started[0].node.ip, "h3");
    let gone = first.started.iter_mut().find(|p| p.key == "a:h1:1").unwrap();
    assert_eq!(poll_stop(&mut gone.stop_rx), StopSignal::Received);
    let kept = first.started.iter_mut().find(|p| p.key == "a:h2:2").unwrap();
    assert_eq!(poll_stop(&mut kept.stop_rx), StopSignal::Empty);
}

#[test]
fn discovery_failure_resets_cursor_and_keeps_probes() {
    let mut services = ProbeServices::new("t".to_string(), 10);
    let _first = services.on_discovery(Ok(snapshot(9, &[("a", "h1", 1)])));
    let failed = services.on_discovery(Err(DiscoveryError::QueryFailed { uri: "u".to_string(), status: 500 }));
    assert!(failed.discovery_failed);
    assert!(failed.started.is_empty() && failed.stopped.is_empty());
    assert_eq!(services.index(), 0);
    let again = services.on_discovery(Ok(snapshot(10, &[("a", "h1", 1)])));
    assert!(again.started.is_empty() && again.stopped.is_empty());
}

#[test]
fn empty_snapshot_stops_everything() {
    let mut services = ProbeServices::new("t".to_string(), 10);
    let _first = services.on_discovery(Ok(snapshot(1, &[("a", "h1", 1), ("b", "h2", 2)])));
    let second = services.on_discovery(Ok(snapshot(2, &[])));
    assert_eq!(sorted(second.stopped), vec!["a:h1:1".to_string(), "b:h2:2".to_string()]);
}

#[test]
fn probe_node_names() {
    let (mut node, _tx) = probe_node();
    assert_eq!(node.socket(), "ip:0");
    assert_eq!(node.to_string(), "cluster_name:ip:0");
    assert_eq!(node.failure_labels(), vec!["cluster_name".to_string(), "ip:0".to_string()]);
    assert_eq!(
        node.request_labels(0, "get"),
        vec!["cluster_name".to_string(), "ip:0".to_string(), "NoError".to_string(), "get".to_string()]
    );
    assert_eq!(node.latency_labels("set"), vec!["cluster_name".to_string(), "ip:0".to_string(), "set".to_string()]);
}

#[test]
fn stop_lists_every_series_of_the_node() {
    let (node, _tx) = probe_node();
    let series = node.stop();
    assert_eq!(series.len(), 1 + 2 * 10);
    assert!(series.iter().all(|s| s.labels[0] == "cluster_name" && s.labels[1] == "ip:0"));
    assert!(series.iter().any(|s| s.metric == Metric::FailureProbe && labels(s) == ["cluster_name", "ip:0"]));
    for t in ["set", "get"] {
        assert!(series.iter().any(|s| s.metric == Metric::ResponseTime && labels(s) == ["cluster_name", "ip:0", t]));
        for status in ["NoError", "KeyNotFound", "KeyExists", "ValueTooLarge", "InvalidArguments", "ItemNotStored",
            "IncrDecrOnNonNumericValue", "UnknownCommand", "OutOfMemory"]
        {
            assert!(series
                .iter()
                .any(|s| s.metric == Metric::NumberOfRequests && labels(s) == ["cluster_name", "ip:0", status, t]));
        }
    }
}

#[test]
fn task_connects_probes_and_waits() {
    let (mut node, _tx) = probe_node();
    let step = node.step(TaskEvent::Succeeded);
    assert_eq!(step, TaskStep { action: TaskAction::Probe, record_failure: false });
    let step = node.step(TaskEvent::Succeeded);
    assert_eq!(step, TaskStep { action: TaskAction::Sleep(1), record_failure: false });
    let step = node.step(TaskEvent::Succeeded);
    assert_eq!(step.action, TaskAction::Probe);
    let step = node.step(TaskEvent::Failed);
    assert_eq!(step, TaskStep { action: TaskAction::Sleep(500), record_failure: true });
    let step = node.step(TaskEvent::Succeeded);
    assert_eq!(step.action, TaskAction::Connect);
    let step = node.step(TaskEvent::Failed);
    assert_eq!(step, TaskStep { action: TaskAction::Sleep(500), record_failure: true });
}

#[test]
fn task_stops_on_request_or_closed_channel() {
    let (mut node, tx) = probe_node();
    assert_eq!(node.step(TaskEvent::Succeeded).action, TaskAction::Probe);
    tx.send(1).unwrap();
    // A successful probe is followed by the interval, then the stop is seen.
    assert_eq!(node.step(TaskEvent::Succeeded).action, TaskAction::Sleep(1));
    assert_eq!(node.step(TaskEvent::Succeeded).action, TaskAction::Stop);

    let (mut node, tx) = probe_node();
    drop(tx);
    assert_eq!(node.step(TaskEvent::Failed), TaskStep { action: TaskAction::Stop, record_failure: true });
}

#[test]
fn transitions() {
    let stop = StopSignal::Received;
    let empty = StopSignal::Empty;
    assert_eq!(decide(TaskPhase::BackingOff, TaskEvent::Succeeded, stop, 5).0, TaskPhase::Connecting);
    assert_eq!(decide(TaskPhase::Waiting, TaskEvent::Succeeded, StopSignal::Closed, 5).0, TaskPhase::Stopped);
    assert_eq!(
        decide(TaskPhase::Probing, TaskEvent::Succeeded, stop, 5),
        (TaskPhase::Waiting, TaskStep { action: TaskAction::Sleep(5), record_failure: false })
    );
    assert_eq!(
        decide(TaskPhase::Connecting, TaskEvent::Failed, empty, 5),
        (TaskPhase::BackingOff, TaskStep { action: TaskAction::Sleep(500), record_failure: true })
    );
}

fn metrics() -> probes::probes::metrics::Metrics {
    probes::probes::metrics::Metrics {
        number_of_requests: prometheus::IntCounterVec::new(
            prometheus::Opts::new("number_of_requests", "Number of total requests"),
            &["cluster_name", "socket", "status", "type"],
        )
        .unwrap(),
        response_time: prometheus::HistogramVec::new(
            prometheus::HistogramOpts::new("response_time_seconds", "Response Times"),
            &["cluster_name", "socket", "type"],
        )
        .unwrap(),
        failure_services_discovery: prometheus::IntCounter::new("failure_services_discovery", "Failures").unwrap(),
        failure_probe: prometheus::IntCounterVec::new(
            prometheus::Opts::new("failure_probe", "Failed to run probe action"),
            &["cluster_name", "socket"],
        )
        .unwrap(),
    }
}

#[test]
fn metrics_register_once() {
    let registry = prometheus::Registry::new();
    let m = metrics();
    assert_eq!(register_custom_metrics(&registry, &m), Ok(()));
    assert_eq!(register_custom_metrics(&registry, &m), Err(Collector::NumberOfRequests));
}

#[test]
fn stopped_node_leaves_no_series() {
    let m = metrics();
    let (mut node, _tx) = probe_node();
    let ok: Vec<String> = node.request_labels(0, "get");
    let ok: Vec<&str> = ok.iter().map(|s| s.as_str()).collect();
    m.number_of_requests.with_label_values(&ok).inc();
    let fail = node.failure_labels();
    let fail: Vec<&str> = fail.iter().map(|s| s.as_str()).collect();
    m.failure_probe.with_label_values(&fail).inc();
    let other = vec!["cluster_name", "other:1", "NoError", "get"];
    m.number_of_requests.with_label_values(&other).inc();
    remove_node_series(&m, &node);
    assert_eq!(m.number_of_requests.get_metric_with_label_values(&ok).unwrap().get(), 0);
    assert_eq!(m.failure_probe.get_metric_with_label_values(&fail).unwrap().get(), 0);
    assert_eq!(m.number_of_requests.get_metric_with_label_values(&other).unwrap().get(), 1);
}

fn remove_node_series(m: &probes::probes::metrics::Metrics, node: &ProbeNode) {
    for series in node.stop() {
        let labels: Vec<&str> = series.labels.iter().map(|s| s.as_str()).collect();
        let _ = match series.metric {
            Metric::NumberOfRequests => m.number_of_requests.remove_label_values(&labels),
            Metric::ResponseTime => m.response_time.remove_label_values(&labels),
            Metric::FailureProbe => m.failure_probe.remove_label_values(&labels),
        };
    }
}

#[test]
fn probe_node_stop() {
    let m = metrics();
    m.number_of_requests.with_label_values(&["cluster_name", "ip:0", "NoError", "get"]).inc();

    assert_eq!(
        1,
        m.number_of_requests
            .get_metric_with_label_values(&["cluster_name", "ip:0", "NoError", "get",])
            .unwrap()
            .get()
    );

    remove_node_series(&m, &probe_node().0);

    assert_eq!(
        0,
        m.number_of_requests
            .get_metric_with_label_values(&["cluster_name", "ip:0", "NoError", "get"])
            .unwrap()
            .get()
    );
}

#[test]
fn probe_manage_failure() {
    let m = metrics();
    assert_eq!(0, m.failure_probe.get_metric_with_label_values(&["cluster_name", "ip:0"]).unwrap().get());
    let (mut node, _tx) = probe_node();
    let step = node.step(TaskEvent::Failed);
    assert!(step.record_failure);
    let labels = node.failure_labels();
    let labels: Vec<&str> = labels.iter().map(|s| s.as_str()).collect();
    m.failure_probe.with_label_values(&labels).inc();

    assert_eq!(1, m.failure_probe.get_metric_with_label_values(&["cluster_name", "ip:0"]).unwrap().get());
}

#[test]
fn unnamed_status_series_is_removed_too() {
    let m = metrics();
    let (mut node, _tx) = probe_node();
    let labels = node.request_labels(7, "set");
    assert_eq!(labels[2], "7");
    let labels: Vec<&str> = labels.iter().map(|s| s.as_str()).collect();
    m.number_of_requests.with_label_values(&labels).inc();
    assert_eq!(node.stop().len(), 1 + 2 * 11);
    remove_node_series(&m, &node);
    assert_eq!(m.number_of_requests.get_metric_with_label_values(&labels).unwrap().get(), 0);
}
