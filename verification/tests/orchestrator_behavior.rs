//! Tests for the inner loop's decisions and the single-flight gate.

use perpl_market_making_bot::orchestrator::{initial_state, loop_step, Directive, LoopState, Wake};

#[test]
fn the_first_batch_starts_an_execution() {
    let s0 = initial_state();
    assert!(!s0.permit_held);
    assert_eq!(s0.pending_batches, 0);
    let (s1, d) = loop_step(s0, Wake::StreamBatch);
    assert_eq!(d, Directive::DrainAndExecute);
    assert!(s1.permit_held);
    assert_eq!(s1.pending_batches, 0);
}

#[test]
fn batches_buffer_while_an_execution_runs() {
    let (s1, _) = loop_step(initial_state(), Wake::StreamBatch);
    let (s2, d2) = loop_step(s1, Wake::StreamBatch);
    assert_eq!(d2, Directive::SkipBusy);
    assert_eq!(s2.pending_batches, 1);
    let (s3, d3) = loop_step(s2, Wake::StreamBatch);
    assert_eq!(d3, Directive::SkipBusy);
    assert_eq!(s3.pending_batches, 2);
    // Once the submission settles, the next batch drains the whole buffer.
    let (s4, d4) = loop_step(s3, Wake::SubmissionSettled);
    assert_eq!(d4, Directive::Idle);
    assert!(!s4.permit_held);
    let (s5, d5) = loop_step(s4, Wake::StreamBatch);
    assert_eq!(d5, Directive::DrainAndExecute);
    assert_eq!(s5.pending_batches, 0);
}

#[test]
fn ticks_and_error_reports_execute_only_when_idle() {
    let s0 = initial_state();
    let (s1, d1) = loop_step(s0, Wake::Tick);
    assert_eq!(d1, Directive::ExecuteEmpty);
    assert!(s1.permit_held);
    // Busy: the retry wake is dropped, not queued.
    let (s2, d2) = loop_step(s1, Wake::ErrorReport);
    assert_eq!(d2, Directive::SkipBusy);
    assert_eq!(s2, s1);
    let (s3, d3) = loop_step(s2, Wake::Tick);
    assert_eq!(d3, Directive::SkipBusy);
    assert_eq!(s3, s1);
    // Idle again: an error report re-runs the strategy.
    let (s4, _) = loop_step(s3, Wake::SubmissionSettled);
    let (_, d5) = loop_step(s4, Wake::ErrorReport);
    assert_eq!(d5, Directive::ExecuteEmpty);
}

#[test]
fn stream_failure_restarts_and_clears_the_loop() {
    let (s1, _) = loop_step(initial_state(), Wake::StreamBatch);
    let (s2, _) = loop_step(s1, Wake::StreamBatch);
    let (s3, d3) = loop_step(s2, Wake::StreamFailed);
    assert_eq!(d3, Directive::Restart);
    assert_eq!(
        s3,
        LoopState {
            permit_held: false,
            pending_batches: 0
        }
    );
    let (s4, d4) = loop_step(initial_state(), Wake::ErrorChannelClosed);
    assert_eq!(d4, Directive::Restart);
    assert!(!s4.permit_held);
}

#[test]
fn no_second_execution_starts_before_the_first_settles() {
    // Walk an adversarial wake order and count executions in flight: one
    // may start only when no other is running.
    let wakes = [
        Wake::StreamBatch,
        Wake::Tick,
        Wake::StreamBatch,
        Wake::ErrorReport,
        Wake::SubmissionSettled,
        Wake::Tick,
        Wake::StreamBatch,
        Wake::SubmissionSettled,
        Wake::StreamBatch,
    ];
    let mut in_flight = 0u32;
    let mut s = initial_state();
    for w in wakes {
        let (next, d) = loop_step(s, w);
        match d {
            Directive::DrainAndExecute | Directive::ExecuteEmpty => {
                in_flight += 1;
            }
            _ => {}
        }
        if w == Wake::SubmissionSettled {
            in_flight = in_flight.saturating_sub(1);
        }
        assert!(in_flight <= 1);
        s = next;
    }
}
