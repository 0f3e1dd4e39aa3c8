use nulang::debugger::DebugState;
use std::sync::{Arc, Mutex};

#[test]
fn test_breakpoint_hit() {
    let mut state = DebugState::new();
    state.add_breakpoint("main.nula", 10);
    assert!(state.should_break("main.nula", 10));
    assert!(!state.should_break("main.nula", 11));
    assert!(!state.should_break("other.nula", 10));
}

#[test]
fn test_step_next() {
    let mut state = DebugState::new();
    state.step_next = true;
    assert!(state.should_break("any.nula", 1));
}

#[test]
fn test_remove_breakpoint() {
    let mut state = DebugState::new();
    state.add_breakpoint("main.nula", 10);
    state.add_breakpoint("main.nula", 20);
    state.remove_breakpoint("main.nula", 10);
    assert!(!state.should_break("main.nula", 10));
    assert!(state.should_break("main.nula", 20));
}

#[test]
fn test_dap_message_handling() {
    // Test message parsing without a real TCP connection
    let state = Arc::new(Mutex::new(DebugState::new()));
    // Simulate the handle logic directly
    {
        let mut s = state.lock().unwrap();
        s.add_breakpoint("test.nula", 5);
    }
    let bps = state.lock().unwrap();
    assert_eq!(bps.breakpoints.len(), 1);
}

#[test]
fn protocol_messages_change_the_state() {
    let mut state = DebugState::new();
    assert_eq!(state.handle_message("pause"), "ok paused");
    assert!(state.paused);
    assert_eq!(state.handle_message("next"), "ok stepping over");
    assert!(state.step_next && !state.paused);
    assert_eq!(state.handle_message("step"), "ok stepping into");
    assert!(state.step_into && !state.step_next);
    assert_eq!(state.handle_message("continue"), "ok continuing");
    assert!(!state.step_into);
    assert_eq!(
        state.handle_message("breakpoint main.nula 12"),
        "ok breakpoint set at main.nula:12"
    );
    assert!(state.should_break("main.nula", 12));
    assert_eq!(state.handle_message("jump"), "error unknown command: jump");
}

#[test]
fn unreadable_line_numbers_count_as_zero() {
    let mut state = DebugState::new();
    assert_eq!(
        state.handle_message("breakpoint main.nula x"),
        "ok breakpoint set at main.nula:0"
    );
    assert!(state.should_break("main.nula", 0));
}

#[test]
fn protocol_takes_the_adapter_words() {
    let mut state = DebugState::new();
    assert_eq!(
        state.handle_message("setBreakpoints main.nula 7"),
        "ok breakpoint set at main.nula:7"
    );
    assert!(state.should_break("main.nula", 7));
    assert_eq!(state.handle_message("breakpoints"), "breakpoints [main.nula:7]");
    assert_eq!(state.handle_message("stepIn"), "ok stepping into");
    assert!(state.step_into && !state.step_next);
}
