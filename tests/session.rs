use tonos_call::dispatch::{
    Action, CallError, CallFlags, CallSession, ClientFailure, Completion, Event, EXECUTION_ERROR_CODE,
};
use tonos_call::emulate::{emulation_account, AccountState};
use tonos_call::header::compose_header;
use tonos_call::replay::{replay_params, replay_summary, TraceLevel};

fn flags(is_fee: bool, async_call: bool, local_run: bool, debug_fail: bool) -> CallFlags {
    CallFlags { is_fee, async_call, local_run, debug_fail }
}

fn is_submission(a: &Action) -> bool {
    matches!(a, Action::SendMessage | Action::ProcessMessage)
}

#[test]
fn header_expiry_is_now_plus_lifetime() {
    let h = compose_header(60, 1_700_000_000_123).unwrap();
    assert_eq!(h.expire, 1_700_000_060);
    assert_eq!(h.time, 1_700_000_000_123);
    assert!(h.expire as u64 * 1000 > h.time);
    assert!(compose_header(u32::MAX, 5_000).is_none());
    assert_eq!(compose_header(1, 999).unwrap().expire, 1);
}

#[test]
fn default_call_waits_for_confirmation() {
    let mut s = CallSession::new(flags(false, false, false, false));
    assert!(matches!(s.step(Event::Begin), Action::ProcessMessage));
    let a = s.step(Event::Processed(Ok(())));
    assert!(matches!(a, Action::Finish(Ok(Completion::Confirmed))));
}

#[test]
fn fee_mode_never_submits_on_missing_account() {
    let mut s = CallSession::new(flags(true, false, false, false));
    let mut actions = vec![];
    actions.push(s.step(Event::Begin));
    actions.push(s.step(Event::Encoded(Ok(()))));
    assert!(matches!(actions[1], Action::Emulate { fee_mode: true }));
    let acc = emulation_account(Err("account not found".to_string()), true).unwrap();
    assert!(matches!(acc.state, AccountState::Synthesized));
    assert_eq!(acc.unlimited_balance, Some(true));
    actions.push(s.step(Event::Emulated(Ok(()))));
    assert!(matches!(actions[2], Action::Finish(Ok(Completion::FeeEstimated))));
    actions.push(s.step(Event::Processed(Ok(()))));
    assert!(matches!(actions[3], Action::Ignore));
    assert!(!actions.iter().any(is_submission));
}

#[test]
fn fee_mode_reports_emulation_failure() {
    let mut s = CallSession::new(flags(true, true, false, true));
    s.step(Event::Begin);
    s.step(Event::Encoded(Ok(())));
    let a = s.step(Event::Emulated(Err(CallError::Emulation("no gas".to_string()))));
    assert!(matches!(a, Action::Finish(Err(CallError::Emulation(m))) if m == "no gas"));
}

#[test]
fn account_unavailable_outside_fee_mode() {
    let r = emulation_account(Err("not found".to_string()), false);
    assert!(matches!(r, Err(CallError::AccountUnavailable(m)) if m == "not found"));
    let r = emulation_account(Ok("te6cc".to_string()), false).unwrap();
    assert!(matches!(r.state, AccountState::Fetched(b) if b == "te6cc"));
    assert_eq!(r.unlimited_balance, None);
}

#[test]
fn async_call_returns_without_waiting() {
    let mut s = CallSession::new(flags(false, true, false, true));
    assert!(matches!(s.step(Event::Begin), Action::EncodeMessage));
    assert!(matches!(s.step(Event::Encoded(Ok(()))), Action::SendMessage));
    assert!(matches!(s.step(Event::Sent(Ok(()))), Action::Finish(Ok(Completion::Dispatched))));
}

#[test]
fn async_send_failure_is_transport_error() {
    let mut s = CallSession::new(flags(false, true, false, false));
    s.step(Event::Begin);
    s.step(Event::Encoded(Ok(())));
    let a = s.step(Event::Sent(Err("timeout".to_string())));
    assert!(matches!(a, Action::Finish(Err(CallError::Transport(m))) if m == "timeout"));
}

#[test]
fn local_run_is_advisory() {
    let mut s = CallSession::new(flags(false, false, true, false));
    s.step(Event::Begin);
    assert!(matches!(s.step(Event::Encoded(Ok(()))), Action::Emulate { fee_mode: false }));
    let a = s.step(Event::Emulated(Err(CallError::Emulation("failed".to_string()))));
    assert!(matches!(a, Action::ProcessMessage));
}

#[test]
fn encoding_error_stops_before_network() {
    let mut s = CallSession::new(flags(false, false, true, false));
    s.step(Event::Begin);
    let a = s.step(Event::Encoded(Err("bad args".to_string())));
    assert!(matches!(a, Action::Finish(Err(CallError::Encoding(m))) if m == "bad args"));
}

#[test]
fn execution_error_triggers_replay() {
    let mut s = CallSession::new(flags(false, false, false, true));
    assert!(matches!(s.step(Event::Begin), Action::EncodeMessage));
    assert!(matches!(s.step(Event::Encoded(Ok(()))), Action::CaptureDiagnostics));
    assert!(matches!(s.step(Event::Captured(Ok(()))), Action::ProcessMessage));
    let failure = ClientFailure { code: EXECUTION_ERROR_CODE, message: "aborted".to_string() };
    assert!(matches!(s.step(Event::Processed(Err(failure))), Action::ReplayLocally));
    let a = s.step(Event::Replayed(Ok(())));
    assert!(matches!(a, Action::Finish(Err(CallError::Remote(f))) if f.code == 414 && f.message == "aborted"));
}

#[test]
fn other_errors_leave_replay_untouched() {
    let mut s = CallSession::new(flags(false, false, false, true));
    s.step(Event::Begin);
    s.step(Event::Encoded(Ok(())));
    s.step(Event::Captured(Ok(())));
    let failure = ClientFailure { code: 607, message: "timeout".to_string() };
    let a = s.step(Event::Processed(Err(failure)));
    assert!(matches!(a, Action::Finish(Err(CallError::Remote(f))) if f.code == 607));
    assert!(matches!(s.step(Event::Replayed(Ok(()))), Action::Ignore));
}

#[test]
fn execution_error_without_debug_is_returned() {
    let mut s = CallSession::new(flags(false, false, false, false));
    s.step(Event::Begin);
    let failure = ClientFailure { code: EXECUTION_ERROR_CODE, message: "aborted".to_string() };
    let a = s.step(Event::Processed(Err(failure)));
    assert!(matches!(a, Action::Finish(Err(CallError::Remote(_)))));
}

#[test]
fn capture_failure_ends_call() {
    let mut s = CallSession::new(flags(false, false, false, true));
    s.step(Event::Begin);
    s.step(Event::Encoded(Ok(())));
    let a = s.step(Event::Captured(Err("no config".to_string())));
    assert!(matches!(a, Action::Finish(Err(CallError::Capture(m))) if m == "no config"));
}

#[test]
fn set_params_scenario_prints_no_fees() {
    // A plain call of a deployed contract goes straight to processing and is confirmed.
    let mut s = CallSession::new(flags(false, false, false, false));
    let first = s.step(Event::Begin);
    assert!(!matches!(first, Action::Emulate { .. }));
    assert!(matches!(first, Action::ProcessMessage));
    assert!(matches!(s.step(Event::Processed(Ok(()))), Action::Finish(Ok(Completion::Confirmed))));
}

#[test]
fn replay_params_from_captured_time() {
    let p = replay_params(1_700_000_000_123, TraceLevel::Minimal);
    assert_eq!(p.block_unixtime, 1_700_000_000);
    assert_eq!(p.block_lt, 1_700_000_000_123);
    assert_eq!(p.last_tr_lt, 1_700_000_000_123);
    assert_eq!(p.seed_block, vec![0u8; 32]);
    assert!(p.debug);
    assert_eq!(p.trace, TraceLevel::Minimal);
    let q = replay_params(1_700_000_000_123, TraceLevel::Minimal);
    assert_eq!(p.block_unixtime, q.block_unixtime);
    assert_eq!(p.seed_block, q.seed_block);
}

#[test]
fn replay_summary_lines() {
    assert_eq!(replay_summary(&Ok(())), "Debug finished.");
    assert_eq!(replay_summary(&Err("stack underflow".to_string())), "Debug failed: stack underflow");
}
