//! Human-In-The-Loop (HITL) approval of high-risk operations.
//!
//! The flow asks, in turn, for an injected answer, for the mock answer that
//! the environment may hold, for a terminal, for a display server, and for the
//! answer of a native dialog or of a terminal prompt. The decisions are here;
//! whoever drives the flow performs each step and reports what came of it.
//! The flow fails closed: it approves only on an explicit approval.
use vstd::prelude::*;

verus! {

/// What the approval flow needs next, or its final answer.
#[derive(Debug, Clone, Copy, PartialEq, Eq, Structural)]
pub enum ApprovalStep {
    /// The final answer: `true` when the call may proceed.
    Decided(bool),
    /// Read the mock answer variable of the environment.
    ReadMockAnswer,
    /// Find out whether a controlling terminal is available.
    CheckTerminal,
    /// Find out whether a display server is reachable.
    CheckDisplay,
    /// Show the approval message in a native dialog.
    ShowDialog,
    /// Ask on the terminal.
    AskOnTerminal,
}

/// What performing a step gave.
#[derive(Debug)]
pub enum ApprovalEvent {
    /// The mock answer variable, where it is set.
    MockAnswer(Option<String>),
    /// Whether a terminal is available.
    Terminal(bool),
    /// Whether a display server is reachable.
    Display(bool),
    /// The dialog's answer; `None` when the dialog could not be shown.
    DialogAnswer(Option<bool>),
    /// The terminal prompt's answer; `None` when the prompt failed.
    TerminalAnswer(Option<bool>),
}

/// The first step of the flow: an injected answer decides at once.
pub open spec fn first_step(injected: Option<bool>) -> ApprovalStep {
    match injected {
        Some(answer) => ApprovalStep::Decided(answer),
        None => ApprovalStep::ReadMockAnswer,
    }
}

/// The step that follows `step` when performing it gave `event`.
///
/// An event that does not answer the step denies.
pub open spec fn following_step(step: ApprovalStep, event: ApprovalEvent) -> ApprovalStep {
    match step {
        ApprovalStep::Decided(answer) => ApprovalStep::Decided(answer),
        ApprovalStep::ReadMockAnswer => match event {
            ApprovalEvent::MockAnswer(Some(value)) => ApprovalStep::Decided(value@ == "approve"@),
            ApprovalEvent::MockAnswer(None) => ApprovalStep::CheckTerminal,
            _ => ApprovalStep::Decided(false),
        },
        ApprovalStep::CheckTerminal => match event {
            ApprovalEvent::Terminal(true) => ApprovalStep::AskOnTerminal,
            ApprovalEvent::Terminal(false) => ApprovalStep::CheckDisplay,
            _ => ApprovalStep::Decided(false),
        },
        ApprovalStep::CheckDisplay => match event {
            ApprovalEvent::Display(true) => ApprovalStep::ShowDialog,
            _ => ApprovalStep::Decided(false),
        },
        ApprovalStep::ShowDialog => match event {
            ApprovalEvent::DialogAnswer(answer) => ApprovalStep::Decided(answer == Some(true)),
            _ => ApprovalStep::Decided(false),
        },
        ApprovalStep::AskOnTerminal => match event {
            ApprovalEvent::TerminalAnswer(answer) => ApprovalStep::Decided(answer == Some(true)),
            _ => ApprovalStep::Decided(false),
        },
    }
}

/// Whether an event is an explicit approval.
pub open spec fn grants(event: ApprovalEvent) -> bool {
    match event {
        ApprovalEvent::MockAnswer(Some(value)) => value@ == "approve"@,
        ApprovalEvent::DialogAnswer(Some(true)) => true,
        ApprovalEvent::TerminalAnswer(Some(true)) => true,
        _ => false,
    }
}

/// The step reached from `step` after the events in order.
pub open spec fn run_flow(step: ApprovalStep, events: Seq<ApprovalEvent>) -> ApprovalStep
    decreases events.len(),
{
    if events.len() == 0 {
        step
    } else {
        run_flow(following_step(step, events[0]), events.drop_first())
    }
}

/// The text shown to the human who approves or denies.
pub open spec fn approval_text(tool_name: Seq<char>, payload: Seq<char>) -> Seq<char> {
    "MCP Client is requesting to execute: '"@ + tool_name + "'\nPayload: "@ + payload
        + "\nAllow this execution?"@
}

/// Starts the approval flow; `injected` is an answer fixed in advance.
pub fn start_approval(injected: Option<bool>) -> (r: ApprovalStep)
    ensures
        r == first_step(injected),
{
    match injected {
        Some(answer) => ApprovalStep::Decided(answer),
        None => ApprovalStep::ReadMockAnswer,
    }
}

/// The step that follows `step` when performing it gave `event`.
pub fn next_approval_step(step: ApprovalStep, event: &ApprovalEvent) -> (r: ApprovalStep)
    ensures
        r == following_step(step, *event),
{
    match step {
        ApprovalStep::Decided(answer) => ApprovalStep::Decided(answer),
        ApprovalStep::ReadMockAnswer => match event {
            ApprovalEvent::MockAnswer(Some(value)) => ApprovalStep::Decided(
                *value == String::from_str("approve"),
            ),
            ApprovalEvent::MockAnswer(None) => ApprovalStep::CheckTerminal,
            _ => ApprovalStep::Decided(false),
        },
        ApprovalStep::CheckTerminal => match event {
            ApprovalEvent::Terminal(true) => ApprovalStep::AskOnTerminal,
            ApprovalEvent::Terminal(false) => ApprovalStep::CheckDisplay,
            _ => ApprovalStep::Decided(false),
        },
        ApprovalStep::CheckDisplay => match event {
            ApprovalEvent::Display(true) => ApprovalStep::ShowDialog,
            _ => ApprovalStep::Decided(false),
        },
        ApprovalStep::ShowDialog => match event {
            ApprovalEvent::DialogAnswer(Some(true)) => ApprovalStep::Decided(true),
            ApprovalEvent::DialogAnswer(_) => ApprovalStep::Decided(false),
            _ => ApprovalStep::Decided(false),
        },
        ApprovalStep::AskOnTerminal => match event {
            ApprovalEvent::TerminalAnswer(Some(true)) => ApprovalStep::Decided(true),
            ApprovalEvent::TerminalAnswer(_) => ApprovalStep::Decided(false),
            _ => ApprovalStep::Decided(false),
        },
    }
}

/// The message that asks for approval of `tool_name` with `payload`.
pub fn approval_message(tool_name: &str, payload: &str) -> (r: String)
    ensures
        r@ == approval_text(tool_name@, payload@),
{
    let mut text = String::from_str("MCP Client is requesting to execute: '");
    text.append(tool_name);
    text.append("'\nPayload: ");
    text.append(payload);
    text.append("\nAllow this execution?");
    text
}

/// Approves or denies `tool_name` with an answer given in advance, so that no
/// terminal, display or environment is consulted.
pub fn prompt_for_approval_with_answer(tool_name: &str, payload: &str, answer: bool) -> (r: bool)
    ensures
        r == answer,
{
    match start_approval(Some(answer)) {
        ApprovalStep::Decided(decided) => decided,
        _ => false,
    }
}

/// The approval message shows the tool name and the whole payload, each
/// as it was given, between a fixed opening of 38 characters, a fixed
/// middle of 11 and a fixed closing of 22: nothing of the payload is cut.
pub proof fn law_message_shows_whole_payload(tool_name: Seq<char>, payload: Seq<char>)
    ensures
        approval_text(tool_name, payload).len() == 38 + tool_name.len() + 11 + payload.len() + 22,
        approval_text(tool_name, payload).subrange(38, 38 + tool_name.len() as int) == tool_name,
        approval_text(tool_name, payload).subrange(
            38 + tool_name.len() as int + 11,
            38 + tool_name.len() as int + 11 + payload.len() as int,
        ) == payload,
        forall|t2: Seq<char>, p2: Seq<char>|
            approval_text(tool_name, payload) == #[trigger] approval_text(t2, p2) && t2.len()
                == tool_name.len() ==> t2 == tool_name && p2 == payload,
{
    reveal_strlit("MCP Client is requesting to execute: '");
    reveal_strlit("'\nPayload: ");
    reveal_strlit("\nAllow this execution?");
    let m = approval_text(tool_name, payload);
    let a: int = 38 + tool_name.len() as int;
    let b: int = a + 11;
    assert(m.subrange(38, a) =~= tool_name);
    assert(m.subrange(b, b + payload.len() as int) =~= payload);
    assert forall|t2: Seq<char>, p2: Seq<char>|
        m == #[trigger] approval_text(t2, p2) && t2.len() == tool_name.len() implies t2 == tool_name
        && p2 == payload by {
        let m2 = approval_text(t2, p2);
        assert(m2.len() == 71 + t2.len() + p2.len());
        assert(p2.len() == payload.len());
        assert(m2.subrange(38, a) =~= t2);
        assert(m2.subrange(b, b + p2.len() as int) =~= p2);
    }
}

/// An injected answer is the answer.
pub proof fn law_injected_answer_decides(answer: bool, events: Seq<ApprovalEvent>)
    ensures
        run_flow(first_step(Some(answer)), events) == ApprovalStep::Decided(answer),
    decreases events.len(),
{
    lemma_decided_is_final(answer, events);
}

/// Once decided, the answer stays whatever happens next.
pub proof fn lemma_decided_is_final(answer: bool, events: Seq<ApprovalEvent>)
    ensures
        run_flow(ApprovalStep::Decided(answer), events) == ApprovalStep::Decided(answer),
    decreases events.len(),
{
    if events.len() > 0 {
        lemma_decided_is_final(answer, events.drop_first());
    }
}

/// Without a mock answer, a terminal or a display server the flow denies,
/// whatever is reported afterwards.
pub proof fn law_headless_denies(rest: Seq<ApprovalEvent>)
    ensures
        run_flow(
            first_step(None),
            seq![
                ApprovalEvent::MockAnswer(None),
                ApprovalEvent::Terminal(false),
                ApprovalEvent::Display(false),
            ] + rest,
        ) == ApprovalStep::Decided(false),
{
    let events = seq![
        ApprovalEvent::MockAnswer(None),
        ApprovalEvent::Terminal(false),
        ApprovalEvent::Display(false),
    ] + rest;
    let e1 = events.drop_first();
    let e2 = e1.drop_first();
    let e3 = e2.drop_first();
    assert(e3 =~= rest);
    assert(e1[0] == ApprovalEvent::Terminal(false));
    assert(e2[0] == ApprovalEvent::Display(false));
    lemma_decided_is_final(false, rest);
    assert(run_flow(ApprovalStep::CheckDisplay, e2) == run_flow(ApprovalStep::Decided(false), e3));
    assert(run_flow(ApprovalStep::CheckTerminal, e1) == run_flow(ApprovalStep::CheckDisplay, e2));
    assert(run_flow(ApprovalStep::ReadMockAnswer, events) == run_flow(ApprovalStep::CheckTerminal, e1));
}

/// The flow fails closed: whatever the steps and events, it approves only
/// where one of the events is an explicit approval.
pub proof fn law_approval_needs_explicit_consent(step: ApprovalStep, events: Seq<ApprovalEvent>)
    requires
        step != ApprovalStep::Decided(true),
        run_flow(step, events) == ApprovalStep::Decided(true),
    ensures
        exists|i: int| 0 <= i < events.len() && grants(#[trigger] events[i]),
    decreases events.len(),
{
    if events.len() == 0 {
    } else {
        let next = following_step(step, events[0]);
        if next == ApprovalStep::Decided(true) {
            assert(grants(events[0]));
        } else {
            law_approval_needs_explicit_consent(next, events.drop_first());
            let i = choose|i: int| 0 <= i < events.drop_first().len() && grants(
                #[trigger] events.drop_first()[i],
            );
            assert(events[i + 1] == events.drop_first()[i]);
        }
    }
}

} // verus!
