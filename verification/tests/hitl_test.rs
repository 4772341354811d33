//! Tests for the Human-In-The-Loop (HITL) approval flow.

use mcp_guard::hitl::{
    approval_message, next_approval_step, prompt_for_approval_with_answer, start_approval,
    ApprovalEvent, ApprovalStep,
};

/// Runs the flow with no injected answer, feeding `events` in order.
fn run(events: Vec<ApprovalEvent>) -> ApprovalStep {
    let mut step = start_approval(None);
    for event in &events {
        step = next_approval_step(step, event);
    }
    step
}

/// Verify the approve path returns `true`.
#[test]
fn test_hitl_approve() {
    let result = prompt_for_approval_with_answer("safe_tool", r#"{"cmd": "ls"}"#, true);
    assert!(result, "Expected approval when answer is injected as true");
}

/// Verify the deny path returns `false`.
#[test]
fn test_hitl_deny() {
    let result = prompt_for_approval_with_answer("risky_tool", r#"{"cmd": "rm -rf /"}"#, false);
    assert!(!result, "Expected denial when answer is injected as false");
}

/// Verify that the no-TTY fallback defaults to deny.
#[test]
fn test_hitl_no_tty_defaults_to_deny() {
    let result = prompt_for_approval_with_answer("risky_tool", r#"{"cmd": "rm -rf /"}"#, false);
    assert!(!result, "Expected deny when no approval given");
}

#[test]
fn test_impl_injected_approve_branch() {
    let step = start_approval(Some(true));
    assert_eq!(step, ApprovalStep::Decided(true));
    let after = next_approval_step(step, &ApprovalEvent::Terminal(false));
    assert_eq!(after, ApprovalStep::Decided(true));
}

#[test]
fn test_gui_fallback_approve() {
    // No TTY, display available, GUI dialog answers yes: approved.
    let result = run(vec![
        ApprovalEvent::MockAnswer(None),
        ApprovalEvent::Terminal(false),
        ApprovalEvent::Display(true),
        ApprovalEvent::DialogAnswer(Some(true)),
    ]);
    assert_eq!(result, ApprovalStep::Decided(true), "Expected approval when GUI dialog returns Ok(true)");
}

#[test]
fn test_gui_fallback_deny() {
    let result = run(vec![
        ApprovalEvent::MockAnswer(None),
        ApprovalEvent::Terminal(false),
        ApprovalEvent::Display(true),
        ApprovalEvent::DialogAnswer(Some(false)),
    ]);
    assert_eq!(result, ApprovalStep::Decided(false), "Expected denial when GUI dialog returns Ok(false)");
}

#[test]
fn test_gui_fallback_error() {
    let result = run(vec![
        ApprovalEvent::MockAnswer(None),
        ApprovalEvent::Terminal(false),
        ApprovalEvent::Display(true),
        ApprovalEvent::DialogAnswer(None),
    ]);
    assert_eq!(result, ApprovalStep::Decided(false), "Expected denial when GUI dialog fails to render");
}

#[test]
fn test_gui_no_display_server() {
    // No TTY, no display server: fail closed at once, without a dialog.
    let mut step = start_approval(None);
    step = next_approval_step(step, &ApprovalEvent::MockAnswer(None));
    assert_eq!(step, ApprovalStep::CheckTerminal);
    step = next_approval_step(step, &ApprovalEvent::Terminal(false));
    assert_eq!(step, ApprovalStep::CheckDisplay);
    step = next_approval_step(step, &ApprovalEvent::Display(false));
    assert_eq!(step, ApprovalStep::Decided(false), "Expected denial when no display server is available");
}

#[test]
fn test_terminal_prompt_approved() {
    let result = run(vec![
        ApprovalEvent::MockAnswer(None),
        ApprovalEvent::Terminal(true),
        ApprovalEvent::TerminalAnswer(Some(true)),
    ]);
    assert_eq!(result, ApprovalStep::Decided(true), "Expected approval when terminal prompt returns Ok(true)");
}

#[test]
fn test_terminal_prompt_denied() {
    let result = run(vec![
        ApprovalEvent::MockAnswer(None),
        ApprovalEvent::Terminal(true),
        ApprovalEvent::TerminalAnswer(Some(false)),
    ]);
    assert_eq!(result, ApprovalStep::Decided(false), "Expected denial when terminal prompt returns Ok(false)");
}

#[test]
fn test_terminal_prompt_error() {
    let result = run(vec![
        ApprovalEvent::MockAnswer(None),
        ApprovalEvent::Terminal(true),
        ApprovalEvent::TerminalAnswer(None),
    ]);
    assert_eq!(result, ApprovalStep::Decided(false), "Expected denial when terminal prompt returns Err");
}

#[test]
fn test_mock_variable_approve_and_deny() {
    let approve = run(vec![ApprovalEvent::MockAnswer(Some("approve".to_string()))]);
    assert_eq!(approve, ApprovalStep::Decided(true));
    let deny = run(vec![ApprovalEvent::MockAnswer(Some("deny".to_string()))]);
    assert_eq!(deny, ApprovalStep::Decided(false));
    let other = run(vec![ApprovalEvent::MockAnswer(Some("yes".to_string()))]);
    assert_eq!(other, ApprovalStep::Decided(false));
}

#[test]
fn test_unexpected_event_denies() {
    let result = run(vec![ApprovalEvent::MockAnswer(None), ApprovalEvent::DialogAnswer(Some(true))]);
    assert_eq!(result, ApprovalStep::Decided(false));
}

#[test]
fn test_decided_stays_decided() {
    let result = run(vec![
        ApprovalEvent::MockAnswer(None),
        ApprovalEvent::Terminal(false),
        ApprovalEvent::Display(false),
        ApprovalEvent::DialogAnswer(Some(true)),
        ApprovalEvent::TerminalAnswer(Some(true)),
    ]);
    assert_eq!(result, ApprovalStep::Decided(false));
}

#[test]
fn test_approval_message_text() {
    let message = approval_message("bash", r#"{"cmd": "ls"}"#);
    assert_eq!(
        message,
        "MCP Client is requesting to execute: 'bash'\nPayload: {\"cmd\": \"ls\"}\nAllow this execution?"
    );
}
