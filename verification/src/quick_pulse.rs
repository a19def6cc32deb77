//! Live metrics: the running metric and the controller that decides, tick by
//! tick, whether to ping or to post and how long to wait.

use crate::text::{digits, push_number};
use crate::time::{Timestamp, NANOS_PER_MILLI};
use http::Uri;
use opentelemetry::sdk::trace::{IdGenerator, RandomIdGenerator};
use vstd::prelude::*;
use vstd::string::*;

verus! {

/// Without a successful post for this long the controller falls back to pinging. Milliseconds.
pub const MAX_POST_WAIT_TIME: u64 = 20_000;

/// Without a successful ping for this long the controller slows down. Milliseconds.
pub const MAX_PING_WAIT_TIME: u64 = 60_000;

/// The wait after the service has been out of reach for too long. Milliseconds.
pub const FALLBACK_INTERVAL: u64 = 60_000;

/// The wait between pings where the service gives no hint. Milliseconds.
pub const PING_INTERVAL: u64 = 5_000;

/// The wait between posts. Milliseconds.
pub const POST_INTERVAL: u64 = 1_000;

/// The version of the live-metrics contract that envelopes announce.
pub const INVARIANT_VERSION: i32 = 1;

/// `http::Uri`, the address of an endpoint. The controller keeps and hands
/// on such addresses and never looks inside one.
#[verifier::external_type_specification]
#[verifier::external_body]
pub struct ExUri(Uri);

/// One live metric: a running mean and the number of samples folded into it.
pub struct QuickPulseMetric {
    pub name: String,
    pub value: u64,
    pub weight: u32,
}

/// A metric as contracts see it.
pub struct QuickPulseMetricView {
    pub name: Seq<char>,
    pub value: u64,
    pub weight: u32,
}

impl View for QuickPulseMetric {
    type V = QuickPulseMetricView;

    open spec fn view(&self) -> QuickPulseMetricView {
        QuickPulseMetricView { name: self.name@, value: self.value, weight: self.weight }
    }
}

impl DeepView for QuickPulseMetric {
    type V = QuickPulseMetricView;

    open spec fn deep_view(&self) -> QuickPulseMetricView {
        self@
    }
}

/// The mean after one more sample: the sample itself where it is the first,
/// else the weighted mean of the old mean and the sample, rounded down.
pub open spec fn running_mean(value: u64, weight: u32, sample: u64) -> int {
    if weight == 0 {
        sample as int
    } else {
        (value * weight + sample) / (weight + 1)
    }
}

/// The running mean lies between the old mean and the sample, so it fits
/// wherever they do.
pub proof fn lemma_running_mean_bounds(value: u64, weight: u32, sample: u64)
    ensures
        0 <= running_mean(value, weight, sample) <= u64::MAX,
        value <= sample ==> value <= running_mean(value, weight, sample) <= sample,
        sample <= value ==> sample <= running_mean(value, weight, sample) <= value,
{
    let v = value as int;
    let w = weight as int;
    let s = sample as int;
    if weight != 0 {
        let q = (v * w + s) / (w + 1);
        assert(q * (w + 1) <= v * w + s < (q + 1) * (w + 1)) by (nonlinear_arith)
            requires
                q == (v * w + s) / (w + 1),
                w + 1 > 0,
        ;
        if v <= s {
            assert(v <= q <= s) by (nonlinear_arith)
                requires
                    q * (w + 1) <= v * w + s < (q + 1) * (w + 1),
                    v <= s,
                    w > 0,
            ;
        } else {
            assert(s <= q <= v) by (nonlinear_arith)
                requires
                    q * (w + 1) <= v * w + s < (q + 1) * (w + 1),
                    s < v,
                    w > 0,
            ;
        }
    }
}

/// Folds one sample into the running mean.
pub fn add_metric(metric: &mut QuickPulseMetric, sample: u64)
    requires
        old(metric).weight < u32::MAX,
    ensures
        final(metric).value == running_mean(old(metric).value, old(metric).weight, sample),
        final(metric).weight == old(metric).weight + 1,
        final(metric).name == old(metric).name,
{
    if metric.weight == 0 {
        metric.value = sample;
        metric.weight = 1;
    } else {
        proof {
            lemma_running_mean_bounds(metric.value, metric.weight, sample);
            assert(metric.value * metric.weight <= u64::MAX * u32::MAX) by (nonlinear_arith)
                requires
                    0 <= metric.value <= u64::MAX,
                    0 <= metric.weight <= u32::MAX,
            ;
        }
        let total: u128 = (metric.value as u128) * (metric.weight as u128) + (sample as u128);
        let count: u128 = (metric.weight as u128) + 1;
        metric.value = (total / count) as u64;
        metric.weight = metric.weight + 1;
    }
}

/// Clears the running mean: value and weight go back to zero, the name stays.
pub fn reset_metric(metric: &mut QuickPulseMetric)
    ensures
        final(metric).value == 0,
        final(metric).weight == 0,
        final(metric).name == old(metric).name,
{
    metric.value = 0;
    metric.weight = 0;
}

/// The name under which the processor load is reported.
pub const CPU_METRIC_NAME: &'static str = "\\Processor(_Total)\\% Processor Time";

/// What an envelope says of a machine or an instance that nobody named.
pub const UNKNOWN: &'static str = "Unknown";

/// How an envelope is delivered: as a post of collected metrics, or as a ping
/// that asks whether anyone is watching.
#[derive(Clone, Copy, Debug, PartialEq, Eq, Structural)]
pub enum PostOrPing {
    Post,
    Ping,
}

/// The controller's state: pinging, posting, or stopped for good.
#[derive(Clone, Copy, Debug, PartialEq, Eq, Structural)]
pub enum Mode {
    Ping,
    Post,
    Stopped,
}

/// The live-metrics envelope of one tick.
pub struct QuickPulseEnvelope {
    pub metrics: Vec<QuickPulseMetric>,
    pub invariant_version: i32,
    pub timestamp: String,
    pub version: Option<String>,
    pub stream_id: String,
    pub machine_name: String,
    pub instance: String,
    pub role_name: Option<String>,
}

/// A live-metrics envelope as contracts see it.
pub struct QuickPulseEnvelopeView {
    pub metrics: Seq<QuickPulseMetricView>,
    pub invariant_version: i32,
    pub timestamp: Seq<char>,
    pub version: Option<Seq<char>>,
    pub stream_id: Seq<char>,
    pub machine_name: Seq<char>,
    pub instance: Seq<char>,
    pub role_name: Option<Seq<char>>,
}

impl View for QuickPulseEnvelope {
    type V = QuickPulseEnvelopeView;

    open spec fn view(&self) -> QuickPulseEnvelopeView {
        QuickPulseEnvelopeView {
            metrics: self.metrics.deep_view(),
            invariant_version: self.invariant_version,
            timestamp: self.timestamp@,
            version: self.version.deep_view(),
            stream_id: self.stream_id@,
            machine_name: self.machine_name@,
            instance: self.instance@,
            role_name: self.role_name.deep_view(),
        }
    }
}

/// What the service answered to a ping or a post.
pub struct Response {
    pub should_post: bool,
    pub redirected_host: Option<Uri>,
    pub polling_interval_hint: Option<u64>,
}

/// What can happen to the controller.
pub enum ControllerEvent {
    /// The wait ran out: a new tick, with the load sampled and the time read.
    Elapsed { sample: u64, now: Timestamp },
    /// The shutdown signal arrived.
    Cancelled,
    /// The exchange of this tick was answered.
    Succeeded(Response),
    /// The exchange of this tick failed.
    Failed,
}

/// One exchange with the service: what to send and how.
pub struct Exchange {
    pub mode: PostOrPing,
    pub envelope: QuickPulseEnvelope,
}

/// What the controller asks its driver to do next.
pub enum Action {
    /// Send the envelope, then report how the exchange went.
    Send(Exchange),
    /// Wait this many milliseconds, or until the shutdown signal.
    Wait(u64),
    /// Leave the loop.
    Stop,
}

/// An action as contracts see it.
pub enum ActionView {
    Send { mode: PostOrPing, envelope: QuickPulseEnvelopeView },
    Wait(u64),
    Stop,
}

impl View for Action {
    type V = ActionView;

    open spec fn view(&self) -> ActionView {
        match self {
            Action::Send(exchange) => ActionView::Send {
                mode: exchange.mode,
                envelope: exchange.envelope@,
            },
            Action::Wait(millis) => ActionView::Wait(*millis),
            Action::Stop => ActionView::Stop,
        }
    }
}

/// The controller as contracts see it.
pub struct ControllerView {
    pub mode: Mode,
    pub last_success_time: Timestamp,
    pub tick_time: Timestamp,
    pub redirected_host: Option<Uri>,
    pub polling_interval_hint: Option<u64>,
    pub stream_id: Seq<char>,
    pub current_timeout: u64,
}

/// The stream identifier made from a seed: its 32 hexadecimal digits.
pub open spec fn stream_id_text(seed: u128) -> Seq<char> {
    digits(seed as nat, 16, 32)
}

/// The controller before its first tick: pinging, never yet successful, on
/// the default endpoint.
pub open spec fn initial_view(seed: u128) -> ControllerView {
    ControllerView {
        mode: Mode::Ping,
        last_success_time: Timestamp { nanos: 0 },
        tick_time: Timestamp { nanos: 0 },
        redirected_host: None,
        polling_interval_hint: None,
        stream_id: stream_id_text(seed),
        current_timeout: PING_INTERVAL,
    }
}

/// The timestamp of an envelope: milliseconds since the epoch, in the
/// service's date notation.
pub open spec fn date_text(now: Timestamp) -> Seq<char> {
    "/Date("@ + digits(now.spec_millis() as nat, 10, 1) + ")/"@
}

/// The envelope of a tick: the one metric with the sample as its mean.
pub open spec fn tick_envelope(stream_id: Seq<char>, sample: u64, now: Timestamp)
    -> QuickPulseEnvelopeView {
    QuickPulseEnvelopeView {
        metrics: seq![
            QuickPulseMetricView { name: CPU_METRIC_NAME@, value: sample, weight: 1 },
        ],
        invariant_version: INVARIANT_VERSION,
        timestamp: date_text(now),
        version: None,
        stream_id: stream_id,
        machine_name: UNKNOWN@,
        instance: UNKNOWN@,
        role_name: None,
    }
}

/// The wait where nothing is wrong: short while posting, else what the
/// service hinted at, else the ping interval.
pub open spec fn regular_wait(mode: Mode, hint: Option<u64>) -> u64 {
    if mode == Mode::Post {
        POST_INTERVAL
    } else {
        match hint {
            Some(millis) => millis,
            None => PING_INTERVAL,
        }
    }
}

/// Whether the last success lies too far back for the mode: at least the
/// mode's limit before the tick, or after it, which a clock set back gives.
pub open spec fn is_stale(mode: Mode, last_success_time: Timestamp, tick_time: Timestamp) -> bool {
    let limit = if mode == Mode::Post {
        MAX_POST_WAIT_TIME
    } else {
        MAX_PING_WAIT_TIME
    };
    tick_time.nanos < last_success_time.nanos || tick_time.nanos - last_success_time.nanos >= limit
        * NANOS_PER_MILLI
}

/// The state after an event.
pub open spec fn next_state(s: ControllerView, event: ControllerEvent) -> ControllerView {
    if s.mode == Mode::Stopped {
        s
    } else {
        match event {
            ControllerEvent::Cancelled => ControllerView { mode: Mode::Stopped, ..s },
            ControllerEvent::Elapsed { sample, now } => ControllerView { tick_time: now, ..s },
            ControllerEvent::Succeeded(response) => {
                let mode = if response.should_post {
                    Mode::Post
                } else {
                    Mode::Ping
                };
                let hint = if response.polling_interval_hint is Some {
                    response.polling_interval_hint
                } else {
                    s.polling_interval_hint
                };
                ControllerView {
                    mode: mode,
                    last_success_time: s.tick_time,
                    redirected_host: if response.redirected_host is Some {
                        response.redirected_host
                    } else {
                        s.redirected_host
                    },
                    polling_interval_hint: hint,
                    current_timeout: regular_wait(mode, hint),
                    ..s
                }
            },
            ControllerEvent::Failed => {
                if is_stale(s.mode, s.last_success_time, s.tick_time) {
                    ControllerView { mode: Mode::Ping, current_timeout: FALLBACK_INTERVAL, ..s }
                } else {
                    ControllerView {
                        current_timeout: regular_wait(s.mode, s.polling_interval_hint),
                        ..s
                    }
                }
            },
        }
    }
}

/// What the controller asks for in answer to an event: an exchange on a tick,
/// the next wait once the exchange is over, and nothing more once stopped.
pub open spec fn action_for(s: ControllerView, event: ControllerEvent) -> ActionView {
    if s.mode == Mode::Stopped {
        ActionView::Stop
    } else {
        match event {
            ControllerEvent::Cancelled => ActionView::Stop,
            ControllerEvent::Elapsed { sample, now } => ActionView::Send {
                mode: if s.mode == Mode::Post {
                    PostOrPing::Post
                } else {
                    PostOrPing::Ping
                },
                envelope: tick_envelope(s.stream_id, sample, now),
            },
            _ => ActionView::Wait(next_state(s, event).current_timeout),
        }
    }
}

/// The live-metrics controller. Its driver waits, samples and sends; the
/// controller decides.
pub struct QuickPulseState {
    mode: Mode,
    last_success_time: Timestamp,
    tick_time: Timestamp,
    redirected_host: Option<Uri>,
    polling_interval_hint: Option<u64>,
    stream_id: String,
    cpu_metric: QuickPulseMetric,
    current_timeout: u64,
}

impl View for QuickPulseState {
    type V = ControllerView;

    closed spec fn view(&self) -> ControllerView {
        ControllerView {
            mode: self.mode,
            last_success_time: self.last_success_time,
            tick_time: self.tick_time,
            redirected_host: self.redirected_host,
            polling_interval_hint: self.polling_interval_hint,
            stream_id: self.stream_id@,
            current_timeout: self.current_timeout,
        }
    }
}

/// A fresh 128-bit identifier from `RandomIdGenerator::new_trace_id` of the
/// tracing SDK. It is random, so nothing is claimed of its value.
#[verifier::external_body]
fn random_trace_id() -> (id: u128) {
    u128::from_be_bytes(RandomIdGenerator::default().new_trace_id().to_bytes())
}

impl QuickPulseState {
    /// Between ticks the running metric is clear and carries its name.
    #[verifier::type_invariant]
    spec fn metric_at_rest(self) -> bool {
        &&& self.cpu_metric.value == 0
        &&& self.cpu_metric.weight == 0
        &&& self.cpu_metric.name@ == CPU_METRIC_NAME@
    }

    /// A controller with a stream identifier drawn at random.
    pub fn new() -> (state: QuickPulseState)
        ensures
            exists|seed: u128| state@ == initial_view(seed),
    {
        let seed = random_trace_id();
        let state = QuickPulseState::with_stream_seed(seed);
        assert(state@ == initial_view(seed));
        state
    }

    /// A controller whose stream identifier is made from `seed`.
    pub fn with_stream_seed(seed: u128) -> (state: QuickPulseState)
        ensures
            state@ == initial_view(seed),
    {
        let mut stream_id = String::new();
        push_number(&mut stream_id, seed, 16, 32);
        assert(stream_id@ =~= stream_id_text(seed));
        QuickPulseState {
            mode: Mode::Ping,
            last_success_time: Timestamp::epoch(),
            tick_time: Timestamp::epoch(),
            redirected_host: None,
            polling_interval_hint: None,
            stream_id: stream_id,
            cpu_metric: QuickPulseMetric {
                name: String::from_str(CPU_METRIC_NAME),
                value: 0,
                weight: 0,
            },
            current_timeout: PING_INTERVAL,
        }
    }

    /// The controller's mode.
    pub fn mode(&self) -> (mode: Mode)
        ensures
            mode == self@.mode,
    {
        self.mode
    }

    /// The wait, in milliseconds, that the controller last decided on.
    pub fn current_timeout(&self) -> (millis: u64)
        ensures
            millis == self@.current_timeout,
    {
        self.current_timeout
    }

    /// The identifier that every envelope of this controller carries.
    pub fn stream_id(&self) -> (id: &String)
        ensures
            id@ == self@.stream_id,
    {
        &self.stream_id
    }

    /// The running metric. Between events it is clear: each tick folds its
    /// sample in, hands the mean to the envelope and resets.
    pub fn cpu_metric(&self) -> (metric: &QuickPulseMetric)
        ensures
            metric.value == 0,
            metric.weight == 0,
            metric.name@ == CPU_METRIC_NAME@,
    {
        proof {
            use_type_invariant(self);
        }
        &self.cpu_metric
    }

    /// Where to send: the endpoint that the service redirected to, if it
    /// ever did, else the default.
    pub fn target_endpoint<'a>(&'a self, default_endpoint: &'a Uri) -> (endpoint: &'a Uri)
        ensures
            *endpoint == match self@.redirected_host {
                Some(host) => host,
                None => *default_endpoint,
            },
    {
        match &self.redirected_host {
            Some(host) => host,
            None => default_endpoint,
        }
    }

    /// Whether the last success is too old for the current mode.
    fn stale(&self) -> (stale: bool)
        ensures
            stale == is_stale(self@.mode, self@.last_success_time, self@.tick_time),
    {
        let limit: u128 = match self.mode {
            Mode::Post => MAX_POST_WAIT_TIME as u128,
            _ => MAX_PING_WAIT_TIME as u128,
        };
        self.tick_time.nanos < self.last_success_time.nanos || self.tick_time.nanos
            - self.last_success_time.nanos >= limit * NANOS_PER_MILLI
    }

    /// The wait for a mode and the hint on record.
    fn wait_for(mode: Mode, hint: Option<u64>) -> (millis: u64)
        ensures
            millis == regular_wait(mode, hint),
    {
        match mode {
            Mode::Post => POST_INTERVAL,
            _ => match hint {
                Some(millis) => millis,
                None => PING_INTERVAL,
            },
        }
    }

    /// The envelope of a tick.
    fn envelope(&self, metric: QuickPulseMetric, now: Timestamp) -> (envelope: QuickPulseEnvelope)
        ensures
            envelope@ == (QuickPulseEnvelopeView {
                metrics: seq![metric@],
                ..tick_envelope(self@.stream_id, 0, now)
            }),
    {
        let mut timestamp = String::from_str("/Date(");
        push_number(&mut timestamp, now.millis(), 10, 1);
        timestamp.append(")/");
        let mut metrics: Vec<QuickPulseMetric> = Vec::new();
        metrics.push(metric);
        let envelope = QuickPulseEnvelope {
            metrics: metrics,
            invariant_version: INVARIANT_VERSION,
            timestamp: timestamp,
            version: None,
            stream_id: self.stream_id.clone(),
            machine_name: String::from_str(UNKNOWN),
            instance: String::from_str(UNKNOWN),
            role_name: None,
        };
        assert(envelope@.metrics =~= seq![metric@]);
        envelope
    }

    /// Takes one event and answers with what to do next.
    pub fn step(&mut self, event: ControllerEvent) -> (action: Action)
        ensures
            final(self)@ == next_state(old(self)@, event),
            action@ == action_for(old(self)@, event),
    {
        proof {
            use_type_invariant(&*self);
        }
        match self.mode {
            Mode::Stopped => {
                return Action::Stop;
            },
            _ => {},
        }
        match event {
            ControllerEvent::Cancelled => {
                self.mode = Mode::Stopped;
                Action::Stop
            },
            ControllerEvent::Elapsed { sample, now } => {
                self.tick_time = now;
                let mut metric = QuickPulseMetric {
                    name: self.cpu_metric.name.clone(),
                    value: self.cpu_metric.value,
                    weight: self.cpu_metric.weight,
                };
                add_metric(&mut metric, sample);
                let reading = QuickPulseMetric {
                    name: metric.name.clone(),
                    value: metric.value,
                    weight: metric.weight,
                };
                let envelope = self.envelope(reading, now);
                reset_metric(&mut metric);
                self.cpu_metric = metric;
                let mode = match self.mode {
                    Mode::Post => PostOrPing::Post,
                    _ => PostOrPing::Ping,
                };
                Action::Send(Exchange { mode: mode, envelope: envelope })
            },
            ControllerEvent::Succeeded(response) => {
                let mode = if response.should_post {
                    Mode::Post
                } else {
                    Mode::Ping
                };
                self.mode = mode;
                self.last_success_time = self.tick_time;
                if response.redirected_host.is_some() {
                    self.redirected_host = response.redirected_host;
                }
                if response.polling_interval_hint.is_some() {
                    self.polling_interval_hint = response.polling_interval_hint;
                }
                self.current_timeout = QuickPulseState::wait_for(mode, self.polling_interval_hint);
                Action::Wait(self.current_timeout)
            },
            ControllerEvent::Failed => {
                if self.stale() {
                    self.mode = Mode::Ping;
                    self.current_timeout = FALLBACK_INTERVAL;
                } else {
                    self.current_timeout = QuickPulseState::wait_for(
                        self.mode,
                        self.polling_interval_hint,
                    );
                }
                Action::Wait(self.current_timeout)
            },
        }
    }
}

/// The state after a run of events, taken in order.
pub open spec fn run(s: ControllerView, events: Seq<ControllerEvent>) -> ControllerView
    decreases events.len(),
{
    if events.len() == 0 {
        s
    } else {
        next_state(run(s, events.drop_last()), events.last())
    }
}

/// The action that answers the event at position `i` of a run.
pub open spec fn action_at(s: ControllerView, events: Seq<ControllerEvent>, i: int) -> ActionView {
    action_for(run(s, events.take(i)), events[i])
}

/// A stopped controller stays as it is and asks for nothing but to stop.
pub proof fn lemma_stopped_is_terminal(s: ControllerView, event: ControllerEvent)
    requires
        s.mode == Mode::Stopped,
    ensures
        next_state(s, event) == s,
        action_for(s, event) == ActionView::Stop,
{
}

/// The shutdown signal stops the controller whatever it was doing, at once
/// and without an exchange.
pub proof fn lemma_cancel_stops(s: ControllerView)
    ensures
        next_state(s, ControllerEvent::Cancelled).mode == Mode::Stopped,
        action_for(s, ControllerEvent::Cancelled) == ActionView::Stop,
{
}

/// Once the shutdown signal has arrived, no later event of the run leads to
/// an exchange or a wait: every answer from there on is to stop.
pub proof fn lemma_no_exchange_after_cancel(
    s: ControllerView,
    events: Seq<ControllerEvent>,
    cancelled_at: int,
)
    requires
        0 <= cancelled_at < events.len(),
        events[cancelled_at] == ControllerEvent::Cancelled,
    ensures
        run(s, events).mode == Mode::Stopped,
        forall|i: int|
            cancelled_at <= i < events.len() ==> #[trigger] action_at(s, events, i)
                == ActionView::Stop,
    decreases events.len(),
{
    let before = events.drop_last();
    let last = events.len() - 1;
    assert(events.take(last) == before);
    if cancelled_at < last {
        lemma_no_exchange_after_cancel(s, before, cancelled_at);
        assert forall|i: int| cancelled_at <= i < events.len() implies #[trigger] action_at(
            s,
            events,
            i,
        ) == ActionView::Stop by {
            if i < last {
                assert(events.take(i) == before.take(i));
                assert(action_at(s, before, i) == ActionView::Stop);
            }
        }
    } else {
        assert forall|i: int| cancelled_at <= i < events.len() implies #[trigger] action_at(
            s,
            events,
            i,
        ) == ActionView::Stop by {
            assert(i == last);
        }
    }
}

/// The controller's table of transitions, row by row.
pub proof fn lemma_state_table(s: ControllerView, response: Response)
    requires
        s.mode != Mode::Stopped,
    ensures
        ({
            let after = next_state(s, ControllerEvent::Succeeded(response));
            &&& response.should_post ==> after.mode == Mode::Post && after.current_timeout
                == POST_INTERVAL
            &&& !response.should_post ==> after.mode == Mode::Ping
            &&& !response.should_post && response.polling_interval_hint is Some
                ==> after.current_timeout == response.polling_interval_hint->0
            &&& !response.should_post && response.polling_interval_hint is None
                && s.polling_interval_hint is Some ==> after.current_timeout
                == s.polling_interval_hint->0
            &&& !response.should_post && response.polling_interval_hint is None
                && s.polling_interval_hint is None ==> after.current_timeout == PING_INTERVAL
            &&& after.last_success_time == s.tick_time
            &&& action_for(s, ControllerEvent::Succeeded(response)) == ActionView::Wait(
                after.current_timeout,
            )
        }),
        ({
            let after = next_state(s, ControllerEvent::Failed);
            &&& is_stale(s.mode, s.last_success_time, s.tick_time) ==> after.mode == Mode::Ping
                && after.current_timeout == FALLBACK_INTERVAL
            &&& !is_stale(s.mode, s.last_success_time, s.tick_time) ==> after.mode == s.mode
                && after.current_timeout == regular_wait(s.mode, s.polling_interval_hint)
            &&& after.last_success_time == s.last_success_time
            &&& action_for(s, ControllerEvent::Failed) == ActionView::Wait(after.current_timeout)
        }),
{
}

/// While posting, a failure at 20 seconds or more after the last success
/// sends the controller back to pinging, with the long wait next.
pub proof fn lemma_stale_post_falls_back(s: ControllerView)
    requires
        s.mode == Mode::Post,
        s.tick_time.nanos >= s.last_success_time.nanos + MAX_POST_WAIT_TIME * NANOS_PER_MILLI,
    ensures
        next_state(s, ControllerEvent::Failed).mode == Mode::Ping,
        next_state(s, ControllerEvent::Failed).current_timeout == FALLBACK_INTERVAL,
{
}

} // verus!
