//! The task that probes one node: reconnects with a backoff, probes at a
//! fixed interval, and stops on request, removing the node's metrics.
use vstd::prelude::*;

use tokio::sync::oneshot::Receiver;

use crate::consul::texts;
use crate::memcached::{is_named, is_named_status, named_status_codes, status_label, status_label_of};
use crate::probes::channel::{poll_stop, StopSignal};
use crate::text::{decimal, u64_to_decimal};

verus! {

/// Wait before reconnecting after a failure, in milliseconds.
pub const RECONNECT_BACKOFF_MS: u64 = 500;

/// What a probe task is doing.
#[derive(Debug, PartialEq, Eq, Clone, Copy, Structural)]
pub enum TaskPhase {
    /// A connection attempt is under way.
    Connecting,
    /// A probe is under way on an open connection.
    Probing,
    /// Sleeping between two probes.
    Waiting,
    /// Sleeping before reconnecting.
    BackingOff,
    /// Stopped for good.
    Stopped,
}

/// How the last action ended; a sleep always succeeds.
#[derive(Debug, PartialEq, Eq, Clone, Copy, Structural)]
pub enum TaskEvent {
    Succeeded,
    Failed,
}

/// What the task does next.
#[derive(Debug, PartialEq, Eq, Clone, Copy, Structural)]
pub enum TaskAction {
    /// Open a connection to the node.
    Connect,
    /// Run one probe over the open connection.
    Probe,
    /// Sleep this many milliseconds.
    Sleep(u64),
    /// Remove the node's metric series and end the task.
    Stop,
}

/// The next action, and whether the failure just reported is to be counted.
#[derive(Debug, PartialEq, Eq, Clone, Copy, Structural)]
pub struct TaskStep {
    pub action: TaskAction,
    pub record_failure: bool,
}

/// Whether the task looks for a stop request after `event` in `phase`.
pub open spec fn checks_stop(phase: TaskPhase, event: TaskEvent) -> bool {
    match phase {
        TaskPhase::Connecting => true,
        TaskPhase::Probing => event == TaskEvent::Failed,
        TaskPhase::Waiting => true,
        _ => false,
    }
}

/// The task's transition: after `event` in `phase`, having found `signal`.
pub open spec fn transition(phase: TaskPhase, event: TaskEvent, signal: StopSignal, interval_ms: u64) -> (TaskPhase, TaskStep) {
    let stop = signal != StopSignal::Empty;
    let failed = event == TaskEvent::Failed;
    match phase {
        TaskPhase::Connecting => if stop {
            (TaskPhase::Stopped, TaskStep { action: TaskAction::Stop, record_failure: failed })
        } else if failed {
            (TaskPhase::BackingOff, TaskStep { action: TaskAction::Sleep(RECONNECT_BACKOFF_MS), record_failure: true })
        } else {
            (TaskPhase::Probing, TaskStep { action: TaskAction::Probe, record_failure: false })
        },
        TaskPhase::Probing => if !failed {
            (TaskPhase::Waiting, TaskStep { action: TaskAction::Sleep(interval_ms), record_failure: false })
        } else if stop {
            (TaskPhase::Stopped, TaskStep { action: TaskAction::Stop, record_failure: true })
        } else {
            (TaskPhase::BackingOff, TaskStep { action: TaskAction::Sleep(RECONNECT_BACKOFF_MS), record_failure: true })
        },
        TaskPhase::Waiting => if stop {
            (TaskPhase::Stopped, TaskStep { action: TaskAction::Stop, record_failure: false })
        } else {
            (TaskPhase::Probing, TaskStep { action: TaskAction::Probe, record_failure: false })
        },
        TaskPhase::BackingOff => (TaskPhase::Connecting, TaskStep { action: TaskAction::Connect, record_failure: false }),
        TaskPhase::Stopped => (TaskPhase::Stopped, TaskStep { action: TaskAction::Stop, record_failure: false }),
    }
}

/// The task's transition, computed.
pub fn decide(phase: TaskPhase, event: TaskEvent, signal: StopSignal, interval_ms: u64) -> (r: (TaskPhase, TaskStep))
    ensures
        r == transition(phase, event, signal, interval_ms),
{
    let stop = signal != StopSignal::Empty;
    let failed = event == TaskEvent::Failed;
    match phase {
        TaskPhase::Connecting => if stop {
            (TaskPhase::Stopped, TaskStep { action: TaskAction::Stop, record_failure: failed })
        } else if failed {
            (TaskPhase::BackingOff, TaskStep { action: TaskAction::Sleep(RECONNECT_BACKOFF_MS), record_failure: true })
        } else {
            (TaskPhase::Probing, TaskStep { action: TaskAction::Probe, record_failure: false })
        },
        TaskPhase::Probing => if !failed {
            (TaskPhase::Waiting, TaskStep { action: TaskAction::Sleep(interval_ms), record_failure: false })
        } else if stop {
            (TaskPhase::Stopped, TaskStep { action: TaskAction::Stop, record_failure: true })
        } else {
            (TaskPhase::BackingOff, TaskStep { action: TaskAction::Sleep(RECONNECT_BACKOFF_MS), record_failure: true })
        },
        TaskPhase::Waiting => if stop {
            (TaskPhase::Stopped, TaskStep { action: TaskAction::Stop, record_failure: false })
        } else {
            (TaskPhase::Probing, TaskStep { action: TaskAction::Probe, record_failure: false })
        },
        TaskPhase::BackingOff => (TaskPhase::Connecting, TaskStep { action: TaskAction::Connect, record_failure: false }),
        TaskPhase::Stopped => (TaskPhase::Stopped, TaskStep { action: TaskAction::Stop, record_failure: false }),
    }
}

/// The metrics a probe records.
#[derive(Debug, PartialEq, Eq, Clone, Copy, Structural)]
pub enum Metric {
    /// Requests by cluster, socket, status and command type.
    NumberOfRequests,
    /// Response time by cluster, socket and command type.
    ResponseTime,
    /// Failed probes by cluster and socket.
    FailureProbe,
}

/// One series of a metric: its label values, in the metric's label order.
pub struct MetricSeries {
    pub metric: Metric,
    pub labels: Vec<String>,
}

/// The command types a probe sends.
pub open spec fn is_command_type(t: Seq<char>) -> bool {
    t == "set"@ || t == "get"@
}

/// `series` holds the series of `metric` with label values `labels`.
pub open spec fn has_series(series: Seq<MetricSeries>, metric: Metric, labels: Seq<Seq<char>>) -> bool {
    exists|i: int| 0 <= i < series.len() && (#[trigger] series[i]).metric == metric && texts(series[i].labels@) == labels
}

/// Every series of `series` belongs to the node at `socket` of `cluster`.
pub open spec fn all_of_node(series: Seq<MetricSeries>, cluster: Seq<char>, socket: Seq<char>) -> bool {
    forall|i: int| 0 <= i < series.len() ==> {
        let l = texts((#[trigger] series[i]).labels@);
        l.len() >= 2 && l[0] == cluster && l[1] == socket
    }
}

/// A status whose request series may exist: it has a name, or it was seen.
pub open spec fn is_reported(code: u16, seen: Seq<u16>) -> bool {
    is_named_status(code) || seen.contains(code)
}

/// Every series the probe of the node at `socket` of `cluster` may have
/// recorded, having seen the unnamed statuses `seen`, is in `series`.
pub open spec fn covers_node(series: Seq<MetricSeries>, cluster: Seq<char>, socket: Seq<char>, seen: Seq<u16>) -> bool {
    &&& has_series(series, Metric::FailureProbe, seq![cluster, socket])
    &&& forall|t: Seq<char>| #[trigger] is_command_type(t) ==> has_series(series, Metric::ResponseTime, seq![cluster, socket, t])
    &&& forall|code: u16, t: Seq<char>| #![trigger is_reported(code, seen), is_command_type(t)] is_reported(code, seen) && is_command_type(t) ==> has_series(
        series,
        Metric::NumberOfRequests,
        seq![cluster, socket, status_label_of(code), t],
    )
}

/// Appends one series.
fn push_series(out: &mut Vec<MetricSeries>, metric: Metric, labels: Vec<String>)
    ensures
        final(out)@.len() == old(out)@.len() + 1,
        final(out)@.subrange(0, old(out)@.len() as int) == old(out)@,
        final(out)@.last().metric == metric,
        final(out)@.last().labels@ == labels@,
{
    out.push(MetricSeries { metric, labels });
    assert(final(out)@.subrange(0, old(out)@.len() as int) =~= old(out)@);
}

proof fn lemma_has_series_kept(before: Seq<MetricSeries>, after: Seq<MetricSeries>, metric: Metric, labels: Seq<Seq<char>>)
    requires
        has_series(before, metric, labels),
        before.len() <= after.len(),
        after.subrange(0, before.len() as int) == before,
    ensures
        has_series(after, metric, labels),
{
    let i = choose|i: int| 0 <= i < before.len() && (#[trigger] before[i]).metric == metric && texts(before[i].labels@) == labels;
    assert(after[i] == after.subrange(0, before.len() as int)[i]);
}

/// The task probing one node.
pub struct ProbeNode {
    cluster_name: String,
    ip: String,
    port: u16,
    socket: String,
    interval_check_ms: u64,
    stop_probe_resp_rx: Receiver<u8>,
    phase: TaskPhase,
    seen_statuses: Vec<u16>,
}

impl ProbeNode {
    pub closed spec fn spec_cluster(&self) -> Seq<char> {
        self.cluster_name@
    }

    /// `ip:port` of the node.
    pub closed spec fn spec_socket(&self) -> Seq<char> {
        self.socket@
    }

    pub closed spec fn spec_interval(&self) -> u64 {
        self.interval_check_ms
    }

    pub closed spec fn spec_phase(&self) -> TaskPhase {
        self.phase
    }

    /// Statuses without a name that request labels were asked for.
    pub closed spec fn spec_seen(&self) -> Seq<u16> {
        self.seen_statuses@
    }

    /// A task for the node at `ip:port` of cluster `cluster_name`. It starts
    /// by connecting.
    pub fn new(cluster_name: String, ip: String, port: u16, interval_check_ms: u64, stop_probe_resp_rx: Receiver<u8>) -> (r: ProbeNode)
        ensures
            r.spec_cluster() == cluster_name@,
            r.spec_socket() == ip@ + ":"@ + decimal(port as nat),
            r.spec_interval() == interval_check_ms,
            r.spec_phase() == TaskPhase::Connecting,
            r.spec_seen().len() == 0,
    {
        let mut socket = ip.clone();
        socket.append(":");
        socket.append(u64_to_decimal(port as u64).as_str());
        ProbeNode {
            cluster_name,
            ip,
            port,
            socket,
            interval_check_ms,
            stop_probe_resp_rx,
            phase: TaskPhase::Connecting,
            seen_statuses: Vec::new(),
        }
    }

    pub fn cluster_name(&self) -> (r: &str)
        ensures
            r@ == self.spec_cluster(),
    {
        self.cluster_name.as_str()
    }

    pub fn socket(&self) -> (r: &str)
        ensures
            r@ == self.spec_socket(),
    {
        self.socket.as_str()
    }

    /// `cluster_name:ip:port`.
    pub fn to_string(&self) -> (r: String)
        ensures
            r@ == self.spec_cluster() + ":"@ + self.spec_socket(),
    {
        let mut s = self.cluster_name.clone();
        s.append(":");
        s.append(self.socket.as_str());
        s
    }

    /// Takes the outcome of the last action and gives the next one. The stop
    /// request is looked for only where the transition needs it.
    pub fn step(&mut self, event: TaskEvent) -> (r: TaskStep)
        requires
            old(self).spec_phase() != TaskPhase::Stopped,
        ensures
            final(self).spec_cluster() == old(self).spec_cluster(),
            final(self).spec_socket() == old(self).spec_socket(),
            final(self).spec_interval() == old(self).spec_interval(),
            final(self).spec_seen() == old(self).spec_seen(),
            exists|signal: StopSignal| {
                &&& !checks_stop(old(self).spec_phase(), event) ==> signal == StopSignal::Empty
                &&& #[trigger] transition(old(self).spec_phase(), event, signal, old(self).spec_interval()) == (
                final(self).spec_phase(), r)
            },
    {
        let ghost phase0 = self.phase;
        let needs = match self.phase {
            TaskPhase::Connecting => true,
            TaskPhase::Probing => event == TaskEvent::Failed,
            TaskPhase::Waiting => true,
            _ => false,
        };
        let signal = if needs {
            poll_stop(&mut self.stop_probe_resp_rx)
        } else {
            StopSignal::Empty
        };
        let (phase, step) = decide(self.phase, event, signal, self.interval_check_ms);
        self.phase = phase;
        assert(needs == checks_stop(phase0, event));
        assert(!checks_stop(phase0, event) ==> signal == StopSignal::Empty);
        assert(transition(old(self).spec_phase(), event, signal, old(self).spec_interval()) == (self.spec_phase(), step));
        step
    }

    /// Label values of the node's failure counter.
    pub fn failure_labels(&self) -> (r: Vec<String>)
        ensures
            texts(r@) == seq![self.spec_cluster(), self.spec_socket()],
    {
        let r = vec![self.cluster_name.clone(), self.socket.clone()];
        assert(texts(r@) =~= seq![self.spec_cluster(), self.spec_socket()]);
        r
    }

    /// Label values of the node's response time series for `cmd_type`.
    pub fn latency_labels(&self, cmd_type: &str) -> (r: Vec<String>)
        ensures
            texts(r@) == seq![self.spec_cluster(), self.spec_socket(), cmd_type@],
    {
        let r = vec![self.cluster_name.clone(), self.socket.clone(), cmd_type.to_string()];
        assert(texts(r@) =~= seq![self.spec_cluster(), self.spec_socket(), cmd_type@]);
        r
    }

    fn labels_for_status(&self, status: u16, cmd_type: &str) -> (r: Vec<String>)
        ensures
            texts(r@) == seq![self.spec_cluster(), self.spec_socket(), status_label_of(status), cmd_type@],
    {
        let r = vec![self.cluster_name.clone(), self.socket.clone(), status_label(status), cmd_type.to_string()];
        assert(texts(r@) =~= seq![self.spec_cluster(), self.spec_socket(), status_label_of(status), cmd_type@]);
        r
    }

    /// Label values of the node's request counter for a response of status
    /// `status` to a `cmd_type` command. A status without a name is
    /// remembered, so that its series is removed when the probe stops.
    pub fn request_labels(&mut self, status: u16, cmd_type: &str) -> (r: Vec<String>)
        ensures
            texts(r@) == seq![old(self).spec_cluster(), old(self).spec_socket(), status_label_of(status), cmd_type@],
            is_reported(status, final(self).spec_seen()),
            forall|code: u16| #[trigger] is_reported(code, old(self).spec_seen()) ==> is_reported(code, final(self).spec_seen()),
            final(self).spec_cluster() == old(self).spec_cluster(),
            final(self).spec_socket() == old(self).spec_socket(),
            final(self).spec_interval() == old(self).spec_interval(),
            final(self).spec_phase() == old(self).spec_phase(),
    {
        if !is_named(status) && !self.has_seen(status) {
            self.seen_statuses.push(status);
            assert(self.seen_statuses@[self.seen_statuses@.len() - 1] == status);
            assert forall|code: u16| #[trigger] is_reported(code, old(self).spec_seen()) implies is_reported(code, self.spec_seen()) by {
                if old(self).seen_statuses@.contains(code) {
                    let j = choose|j: int| 0 <= j < old(self).seen_statuses@.len() && old(self).seen_statuses@[j] == code;
                    assert(self.seen_statuses@[j] == code);
                }
            }
        }
        self.labels_for_status(status, cmd_type)
    }

    fn has_seen(&self, status: u16) -> (r: bool)
        ensures
            r == self.spec_seen().contains(status),
    {
        let mut i: usize = 0;
        while i < self.seen_statuses.len()
            invariant
                i <= self.seen_statuses@.len(),
                forall|j: int| 0 <= j < i ==> self.seen_statuses@[j] != status,
            decreases self.seen_statuses@.len() - i,
        {
            if self.seen_statuses[i] == status {
                assert(self.seen_statuses@[i as int] == status);
                return true;
            }
            i = i + 1;
        }
        false
    }

    /// Appends the request series of `cmd_type` for each status of `codes`.
    fn push_request_series(&self, out: &mut Vec<MetricSeries>, codes: &Vec<u16>, cmd_type: &str)
        requires
            all_of_node(old(out)@, self.spec_cluster(), self.spec_socket()),
        ensures
            all_of_node(final(out)@, self.spec_cluster(), self.spec_socket()),
            old(out)@.len() <= final(out)@.len(),
            final(out)@.subrange(0, old(out)@.len() as int) == old(out)@,
            forall|j: int| 0 <= j < codes@.len() ==> has_series(
                final(out)@,
                Metric::NumberOfRequests,
                seq![self.spec_cluster(), self.spec_socket(), status_label_of(#[trigger] codes@[j]), cmd_type@],
            ),
    {
        let ghost c = self.spec_cluster();
        let ghost s = self.spec_socket();
        let ghost start = out@;
        let mut i: usize = 0;
        while i < codes.len()
            invariant
                i <= codes@.len(),
                c == self.spec_cluster(),
                s == self.spec_socket(),
                all_of_node(out@, c, s),
                start.len() <= out@.len(),
                out@.subrange(0, start.len() as int) == start,
                forall|j: int| 0 <= j < i ==> has_series(
                    out@,
                    Metric::NumberOfRequests,
                    seq![c, s, status_label_of(#[trigger] codes@[j]), cmd_type@],
                ),
            decreases codes@.len() - i,
        {
            let ghost before = out@;
            push_series(out, Metric::NumberOfRequests, self.labels_for_status(codes[i], cmd_type));
            proof {
                let after = out@;
                assert(after[after.len() - 1] == after.last());
                assert(has_series(after, Metric::NumberOfRequests, seq![c, s, status_label_of(codes@[i as int]), cmd_type@]));
                assert forall|j: int| 0 <= j < i implies has_series(
                    after,
                    Metric::NumberOfRequests,
                    seq![c, s, status_label_of(#[trigger] codes@[j]), cmd_type@],
                ) by {
                    lemma_has_series_kept(before, after, Metric::NumberOfRequests, seq![c, s, status_label_of(codes@[j]), cmd_type@]);
                }
                assert forall|a: int| 0 <= a < after.len() implies {
                    let l = texts((#[trigger] after[a]).labels@);
                    l.len() >= 2 && l[0] == c && l[1] == s
                } by {
                    if a < before.len() {
                        assert(after[a] == after.subrange(0, before.len() as int)[a]);
                    }
                }
                assert(after.subrange(0, start.len() as int) =~= start) by {
                    assert(after.subrange(0, before.len() as int).subrange(0, start.len() as int) =~= before.subrange(0, start.len() as int));
                }
            }
            i = i + 1;
        }
    }

    /// Appends the response time series of `cmd_type` and its request series
    /// for each named status and each status seen so far.
    fn push_command_series(&self, out: &mut Vec<MetricSeries>, cmd_type: &str)
        requires
            all_of_node(old(out)@, self.spec_cluster(), self.spec_socket()),
        ensures
            all_of_node(final(out)@, self.spec_cluster(), self.spec_socket()),
            old(out)@.len() <= final(out)@.len(),
            final(out)@.subrange(0, old(out)@.len() as int) == old(out)@,
            has_series(final(out)@, Metric::ResponseTime, seq![self.spec_cluster(), self.spec_socket(), cmd_type@]),
            forall|code: u16| #[trigger] is_reported(code, self.spec_seen()) ==> has_series(
                final(out)@,
                Metric::NumberOfRequests,
                seq![self.spec_cluster(), self.spec_socket(), status_label_of(code), cmd_type@],
            ),
    {
        let ghost c = self.spec_cluster();
        let ghost s = self.spec_socket();
        let ghost start = out@;
        push_series(out, Metric::ResponseTime, self.latency_labels(cmd_type));
        assert(has_series(out@, Metric::ResponseTime, seq![c, s, cmd_type@])) by {
            assert(out@[out@.len() - 1] == out@.last());
        }
        assert forall|a: int| 0 <= a < out@.len() implies {
            let l = texts((#[trigger] out@[a]).labels@);
            l.len() >= 2 && l[0] == c && l[1] == s
        } by {
            if a < start.len() {
                assert(out@[a] == out@.subrange(0, start.len() as int)[a]);
            } else {
                assert(out@[a] == out@.last());
            }
        }
        let ghost after_latency = out@;
        let codes = named_status_codes();
        self.push_request_series(out, &codes, cmd_type);
        let ghost after_named = out@;
        self.push_request_series(out, &self.seen_statuses, cmd_type);
        proof {
            assert(out@.subrange(0, start.len() as int) =~= start) by {
                assert(out@.subrange(0, after_named.len() as int).subrange(0, start.len() as int) =~= after_named.subrange(0, start.len() as int));
                assert(after_named.subrange(0, after_latency.len() as int).subrange(0, start.len() as int) =~= after_latency.subrange(0, start.len() as int));
            }
            lemma_has_series_kept(after_latency, after_named, Metric::ResponseTime, seq![c, s, cmd_type@]);
            lemma_has_series_kept(after_named, out@, Metric::ResponseTime, seq![c, s, cmd_type@]);
            assert forall|code: u16| #[trigger] is_reported(code, self.spec_seen()) implies has_series(
                out@,
                Metric::NumberOfRequests,
                seq![c, s, status_label_of(code), cmd_type@],
            ) by {
                if is_named_status(code) {
                    let j = choose|j: int| 0 <= j < codes@.len() && codes@[j] == code;
                    assert(has_series(after_named, Metric::NumberOfRequests, seq![c, s, status_label_of(codes@[j]), cmd_type@]));
                    lemma_has_series_kept(after_named, out@, Metric::NumberOfRequests, seq![c, s, status_label_of(code), cmd_type@]);
                } else {
                    let j = choose|j: int| 0 <= j < self.seen_statuses@.len() && self.seen_statuses@[j] == code;
                    assert(has_series(out@, Metric::NumberOfRequests, seq![c, s, status_label_of(self.seen_statuses@[j]), cmd_type@]));
                }
            }
        }
    }

    /// The metric series of this node, to be removed when its probe stops:
    /// every series the probe may have recorded, and only series of this node.
    pub fn stop(&self) -> (r: Vec<MetricSeries>)
        ensures
            covers_node(r@, self.spec_cluster(), self.spec_socket(), self.spec_seen()),
            all_of_node(r@, self.spec_cluster(), self.spec_socket()),
    {
        let ghost c = self.spec_cluster();
        let ghost s = self.spec_socket();
        let mut out: Vec<MetricSeries> = Vec::new();
        push_series(&mut out, Metric::FailureProbe, self.failure_labels());
        assert(has_series(out@, Metric::FailureProbe, seq![c, s])) by {
            assert(out@[0] == out@.last());
        }
        let ghost first = out@;
        self.push_command_series(&mut out, "set");
        let ghost after_set = out@;
        self.push_command_series(&mut out, "get");
        proof {
            lemma_has_series_kept(first, after_set, Metric::FailureProbe, seq![c, s]);
            lemma_has_series_kept(after_set, out@, Metric::FailureProbe, seq![c, s]);
            lemma_has_series_kept(after_set, out@, Metric::ResponseTime, seq![c, s, "set"@]);
            assert forall|t: Seq<char>| #[trigger] is_command_type(t) implies has_series(out@, Metric::ResponseTime, seq![c, s, t]) by {
            }
            assert forall|code: u16, t: Seq<char>| #![trigger is_reported(code, self.spec_seen()), is_command_type(t)] is_reported(code, self.spec_seen()) && is_command_type(t) implies has_series(
                out@,
                Metric::NumberOfRequests,
                seq![c, s, status_label_of(code), t],
            ) by {
                if t == "set"@ {
                    lemma_has_series_kept(after_set, out@, Metric::NumberOfRequests, seq![c, s, status_label_of(code), t]);
                }
            }
        }
        out
    }
}

/// When a probe stops, every series it may have recorded for its node is
/// among those removed: its failure counter, its response times, and its
/// request counters for every named status and every status it saw.
pub proof fn stop_removes_recorded_series(
    series: Seq<MetricSeries>,
    cluster: Seq<char>,
    socket: Seq<char>,
    seen: Seq<u16>,
    code: u16,
    cmd_type: Seq<char>,
)
    requires
        covers_node(series, cluster, socket, seen),
        is_reported(code, seen),
        is_command_type(cmd_type),
    ensures
        has_series(series, Metric::NumberOfRequests, seq![cluster, socket, status_label_of(code), cmd_type]),
        has_series(series, Metric::ResponseTime, seq![cluster, socket, cmd_type]),
        has_series(series, Metric::FailureProbe, seq![cluster, socket]),
{
}

/// Once a stop request is seen, a probe task ends within two steps: either
/// at once, or after one step that neither starts a probe nor fails to stop;
/// that step is a sleep or one more connection attempt.
pub proof fn stop_ends_task_within_two_steps(
    phase: TaskPhase,
    first: TaskEvent,
    second: TaskEvent,
    signal1: StopSignal,
    signal2: StopSignal,
    interval_ms: u64,
)
    requires
        phase != TaskPhase::Stopped,
        signal1 != StopSignal::Empty,
        signal2 != StopSignal::Empty,
    ensures
        ({
            let (next, step) = transition(phase, first, signal1, interval_ms);
            step.action == TaskAction::Stop || (step.action != TaskAction::Probe && transition(next, second, signal2, interval_ms).1.action
                == TaskAction::Stop)
        }),
{
}

/// A probe task never stops while its stop channel is open and empty.
pub proof fn no_stop_without_request(phase: TaskPhase, event: TaskEvent, interval_ms: u64)
    requires
        phase != TaskPhase::Stopped,
    ensures
        transition(phase, event, StopSignal::Empty, interval_ms).1.action != TaskAction::Stop,
{
}

} // verus!
