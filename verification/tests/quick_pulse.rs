use opentelemetry_application_insights::quick_pulse::{
    add_metric, reset_metric, Action, ControllerEvent, Mode, PostOrPing, QuickPulseMetric,
    QuickPulseState, Response, FALLBACK_INTERVAL, PING_INTERVAL, POST_INTERVAL,
};
use opentelemetry_application_insights::time::Timestamp;

fn seconds(s: u128) -> Timestamp {
    Timestamp { nanos: s * 1_000_000_000 }
}

#[test]
fn running_mean_of_three_samples() {
    let mut metric = QuickPulseMetric { name: String::from("cpu"), value: 0, weight: 0 };
    add_metric(&mut metric, 10);
    assert_eq!((metric.value, metric.weight), (10, 1));
    add_metric(&mut metric, 20);
    assert_eq!((metric.value, metric.weight), (15, 2));
    add_metric(&mut metric, 30);
    assert_eq!((metric.value, metric.weight), (20, 3));
    reset_metric(&mut metric);
    assert_eq!((metric.value, metric.weight), (0, 0));
    assert_eq!(metric.name, "cpu");
}

#[test]
fn ping_success_with_collect_hint_starts_posting() {
    let mut state = QuickPulseState::with_stream_seed(0xabc);
    assert_eq!(state.mode(), Mode::Ping);
    assert_eq!(state.current_timeout(), PING_INTERVAL);
    let action = state.step(ControllerEvent::Elapsed { sample: 42, now: seconds(100) });
    match action {
        Action::Send(exchange) => {
            assert_eq!(exchange.mode, PostOrPing::Ping);
            assert_eq!(exchange.envelope.timestamp, "/Date(100000)/");
            assert_eq!(exchange.envelope.stream_id, "00000000000000000000000000000abc");
            assert_eq!(exchange.envelope.metrics.len(), 1);
            assert_eq!(exchange.envelope.metrics[0].value, 42);
            assert_eq!(exchange.envelope.metrics[0].weight, 1);
            assert_eq!(
                exchange.envelope.metrics[0].name,
                "\\Processor(_Total)\\% Processor Time"
            );
        }
        _ => panic!("a tick asks for an exchange"),
    }
    let action = state.step(ControllerEvent::Succeeded(Response {
        should_post: true,
        redirected_host: None,
        polling_interval_hint: None,
    }));
    assert!(matches!(action, Action::Wait(POST_INTERVAL)));
    assert_eq!(state.mode(), Mode::Post);
    assert_eq!(state.current_timeout(), POST_INTERVAL);
}

#[test]
fn failures_while_posting_fall_back_to_ping() {
    let mut state = QuickPulseState::with_stream_seed(1);
    state.step(ControllerEvent::Elapsed { sample: 1, now: seconds(100) });
    state.step(ControllerEvent::Succeeded(Response {
        should_post: true,
        redirected_host: None,
        polling_interval_hint: None,
    }));
    state.step(ControllerEvent::Elapsed { sample: 1, now: seconds(119) });
    let action = state.step(ControllerEvent::Failed);
    assert!(matches!(action, Action::Wait(POST_INTERVAL)));
    assert_eq!(state.mode(), Mode::Post);
    state.step(ControllerEvent::Elapsed { sample: 1, now: seconds(120) });
    let action = state.step(ControllerEvent::Failed);
    assert!(matches!(action, Action::Wait(FALLBACK_INTERVAL)));
    assert_eq!(state.mode(), Mode::Ping);
}

fn succeeded(should_post: bool, redirect: Option<&str>, hint: Option<u64>) -> ControllerEvent {
    ControllerEvent::Succeeded(Response {
        should_post,
        redirected_host: redirect.map(|uri| uri.parse().unwrap()),
        polling_interval_hint: hint,
    })
}

#[test]
fn cancellation_mid_wait_stops_for_good() {
    let mut state = QuickPulseState::with_stream_seed(7);
    assert!(matches!(state.step(ControllerEvent::Cancelled), Action::Stop));
    assert_eq!(state.mode(), Mode::Stopped);
    assert!(matches!(
        state.step(ControllerEvent::Elapsed { sample: 1, now: seconds(1) }),
        Action::Stop
    ));
    assert!(matches!(state.step(succeeded(true, None, None)), Action::Stop));
    assert!(matches!(state.step(ControllerEvent::Failed), Action::Stop));
    assert!(matches!(state.step(ControllerEvent::Cancelled), Action::Stop));
    assert_eq!(state.mode(), Mode::Stopped);
    assert_eq!(state.current_timeout(), PING_INTERVAL);
}

#[test]
fn cancellation_while_posting_stops_too() {
    let mut state = QuickPulseState::with_stream_seed(7);
    state.step(ControllerEvent::Elapsed { sample: 1, now: seconds(10) });
    state.step(succeeded(true, None, None));
    assert_eq!(state.mode(), Mode::Post);
    assert!(matches!(state.step(ControllerEvent::Cancelled), Action::Stop));
    assert_eq!(state.mode(), Mode::Stopped);
}

#[test]
fn posting_sends_posts_and_stops_on_the_hint() {
    let mut state = QuickPulseState::with_stream_seed(7);
    state.step(ControllerEvent::Elapsed { sample: 1, now: seconds(10) });
    state.step(succeeded(true, None, Some(2_500)));
    match state.step(ControllerEvent::Elapsed { sample: 9, now: seconds(11) }) {
        Action::Send(exchange) => {
            assert_eq!(exchange.mode, PostOrPing::Post);
            assert_eq!(exchange.envelope.metrics[0].value, 9);
            assert_eq!(exchange.envelope.metrics[0].weight, 1);
            assert_eq!(exchange.envelope.invariant_version, 1);
            assert_eq!(exchange.envelope.machine_name, "Unknown");
            assert_eq!(exchange.envelope.instance, "Unknown");
            assert_eq!(exchange.envelope.version, None);
            assert_eq!(exchange.envelope.role_name, None);
            assert_eq!(exchange.envelope.timestamp, "/Date(11000)/");
        }
        _ => panic!("a tick asks for an exchange"),
    }
    let action = state.step(succeeded(false, None, None));
    assert!(matches!(action, Action::Wait(2_500)));
    assert_eq!(state.mode(), Mode::Ping);
    assert_eq!(state.current_timeout(), 2_500);
}

#[test]
fn the_hint_sets_the_ping_interval_and_is_remembered() {
    let mut state = QuickPulseState::with_stream_seed(7);
    state.step(ControllerEvent::Elapsed { sample: 1, now: seconds(10) });
    assert!(matches!(state.step(succeeded(false, None, None)), Action::Wait(PING_INTERVAL)));
    state.step(ControllerEvent::Elapsed { sample: 1, now: seconds(15) });
    assert!(matches!(state.step(succeeded(false, None, Some(750))), Action::Wait(750)));
    state.step(ControllerEvent::Elapsed { sample: 1, now: seconds(16) });
    assert!(matches!(state.step(succeeded(false, None, None)), Action::Wait(750)));
    state.step(ControllerEvent::Elapsed { sample: 1, now: seconds(17) });
    assert!(matches!(state.step(ControllerEvent::Failed), Action::Wait(750)));
    assert_eq!(state.mode(), Mode::Ping);
}

#[test]
fn a_redirect_is_adopted_for_good() {
    let default_endpoint: http::Uri = "https://rt.example.com".parse().unwrap();
    let redirected: http::Uri = "https://eu.example.com/live".parse().unwrap();
    let mut state = QuickPulseState::with_stream_seed(7);
    assert_eq!(state.target_endpoint(&default_endpoint), &default_endpoint);
    state.step(ControllerEvent::Elapsed { sample: 1, now: seconds(10) });
    state.step(succeeded(false, Some("https://eu.example.com/live"), None));
    assert_eq!(state.target_endpoint(&default_endpoint), &redirected);
    state.step(ControllerEvent::Elapsed { sample: 1, now: seconds(15) });
    state.step(succeeded(true, None, None));
    assert_eq!(state.target_endpoint(&default_endpoint), &redirected);
    state.step(ControllerEvent::Elapsed { sample: 1, now: seconds(16) });
    state.step(ControllerEvent::Failed);
    assert_eq!(state.target_endpoint(&default_endpoint), &redirected);
}

#[test]
fn pinging_slows_down_after_a_minute_without_success() {
    let mut state = QuickPulseState::with_stream_seed(7);
    state.step(ControllerEvent::Elapsed { sample: 1, now: seconds(100) });
    state.step(succeeded(false, None, None));
    state.step(ControllerEvent::Elapsed { sample: 1, now: seconds(159) });
    assert!(matches!(state.step(ControllerEvent::Failed), Action::Wait(PING_INTERVAL)));
    state.step(ControllerEvent::Elapsed { sample: 1, now: seconds(160) });
    assert!(matches!(state.step(ControllerEvent::Failed), Action::Wait(FALLBACK_INTERVAL)));
    assert_eq!(state.mode(), Mode::Ping);
    state.step(ControllerEvent::Elapsed { sample: 1, now: seconds(220) });
    assert!(matches!(state.step(succeeded(false, None, None)), Action::Wait(PING_INTERVAL)));
}

#[test]
fn a_first_failure_counts_as_stale() {
    let mut state = QuickPulseState::with_stream_seed(7);
    state.step(ControllerEvent::Elapsed { sample: 1, now: seconds(1_600_000_000) });
    assert!(matches!(state.step(ControllerEvent::Failed), Action::Wait(FALLBACK_INTERVAL)));
    assert_eq!(state.mode(), Mode::Ping);
}

#[test]
fn a_clock_set_back_counts_as_stale() {
    let mut state = QuickPulseState::with_stream_seed(7);
    state.step(ControllerEvent::Elapsed { sample: 1, now: seconds(100) });
    state.step(succeeded(true, None, None));
    state.step(ControllerEvent::Elapsed { sample: 1, now: seconds(99) });
    assert!(matches!(state.step(ControllerEvent::Failed), Action::Wait(FALLBACK_INTERVAL)));
    assert_eq!(state.mode(), Mode::Ping);
}

#[test]
fn the_metric_is_clear_between_events() {
    let mut state = QuickPulseState::with_stream_seed(7);
    assert_eq!((state.cpu_metric().value, state.cpu_metric().weight), (0, 0));
    state.step(ControllerEvent::Elapsed { sample: 77, now: seconds(1) });
    assert_eq!((state.cpu_metric().value, state.cpu_metric().weight), (0, 0));
    assert_eq!(state.cpu_metric().name, "\\Processor(_Total)\\% Processor Time");
    state.step(ControllerEvent::Failed);
    assert_eq!((state.cpu_metric().value, state.cpu_metric().weight), (0, 0));
}

#[test]
fn a_new_controller_draws_its_stream_identifier() {
    let state = QuickPulseState::new();
    assert_eq!(state.mode(), Mode::Ping);
    assert_eq!(state.current_timeout(), PING_INTERVAL);
    assert_eq!(state.stream_id().len(), 32);
    assert!(state.stream_id().chars().all(|c| c.is_ascii_digit() || ('a'..='f').contains(&c)));
    let other = QuickPulseState::new();
    assert_ne!(state.stream_id(), other.stream_id());
    assert_eq!(
        QuickPulseState::with_stream_seed(u128::MAX).stream_id(),
        "ffffffffffffffffffffffffffffffff"
    );
}

#[test]
fn running_mean_rounds_down_and_takes_large_values() {
    let mut metric = QuickPulseMetric { name: String::new(), value: 0, weight: 0 };
    add_metric(&mut metric, 1);
    add_metric(&mut metric, 2);
    assert_eq!((metric.value, metric.weight), (1, 2));
    let mut large = QuickPulseMetric { name: String::new(), value: u64::MAX, weight: u32::MAX - 1 };
    add_metric(&mut large, u64::MAX);
    assert_eq!((large.value, large.weight), (u64::MAX, u32::MAX));
}
