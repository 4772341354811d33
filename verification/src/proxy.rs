//! The decisions of the proxy on each message from the client.
//!
//! A tool call or a resource read whose parameters can be read is held
//! against the policy; whatever else the client sends goes to the server as
//! it came. A held request that needs approval waits for the answer of the
//! approval flow. Every held request leaves an audit record, and a denied one
//! is answered with a JSON-RPC error in place of reaching the server.
use vstd::prelude::*;

use crate::audit::AuditRecord;
use crate::json::{opt_data, JsonValue};
use crate::policy::{
    argument_entries, decide, pattern_denies, Decision, Evaluation, Policy, ToolRule,
};
use crate::rpc::{error_object, params_data, params_from_value, JsonRpcMessage, McpRequestParams};

verus! {

/// A request that the policy holds: a tool call or a resource read.
#[derive(Debug)]
pub struct InterceptedRequest {
    /// The method of the message.
    pub method: Option<String>,
    /// Its parameters.
    pub params: McpRequestParams,
    /// What the policy decided.
    pub evaluation: Evaluation,
}

/// What the proxy does with a held request.
#[derive(Debug)]
pub struct ProxyOutcome {
    /// The record for the audit log.
    pub record: AuditRecord,
    /// Whether the message goes on to the server.
    pub forward: bool,
    /// The error response sent back to the client in its place.
    pub reply: Option<JsonRpcMessage>,
}

/// The error code of a blocked request.
pub const BLOCKED_CODE: i32 = -32000i32;

/// The text of an optional string.
pub open spec fn opt_text(s: Option<String>) -> Option<Seq<char>> {
    match s {
        Some(t) => Some(t@),
        None => None,
    }
}

/// The arguments, borrowed.
pub open spec fn borrowed(arguments: &Option<JsonValue>) -> Option<&JsonValue> {
    match arguments {
        Some(v) => Some(v),
        None => None,
    }
}

/// Whether the method is one the policy holds.
pub open spec fn is_inspected(method: Option<String>) -> bool {
    method matches Some(m) && (m@ == "tools/call"@ || m@ == "resources/read"@)
}

/// The parameters that a message carries, if any can be read.
pub open spec fn message_params(msg: JsonRpcMessage) -> Option<(Seq<char>, Option<crate::json::JsonData>)> {
    match msg.params {
        Some(v) => params_from_value(v),
        None => None,
    }
}

/// The action recorded for a decision.
pub open spec fn action_label(decision: Decision, approved: bool) -> Seq<char> {
    match decision {
        Decision::Allowed => "allowed"@,
        Decision::Denied(_) => "denied"@,
        Decision::PromptRequired => if approved {
            "approved"@
        } else {
            "denied"@
        },
    }
}

/// Whether a request with this decision goes on to the server.
pub open spec fn forwards(decision: Decision, approved: bool) -> bool {
    match decision {
        Decision::Allowed => true,
        Decision::Denied(_) => false,
        Decision::PromptRequired => approved,
    }
}

/// The text of the error that answers a blocked request.
pub open spec fn blocked_text() -> Seq<char> {
    "Blocked by MCP Guard Policy"@
}

/// Holds a message from the client against the policy. `None` means that
/// the message is not held and goes to the server as it came.
pub fn intercept_request(policy: &Policy, msg: &JsonRpcMessage) -> (r: Option<InterceptedRequest>)
    ensures
        !(msg.method matches Some(m) && (m@ == "tools/call"@ || m@ == "resources/read"@)) ==> r is None,
        r matches Some(req) ==> req.method matches Some(m) && (m@ == "tools/call"@ || m@
            == "resources/read"@),
        match r {
            None => !is_inspected(msg.method) || message_params(*msg) is None,
            Some(req) => {
                &&& is_inspected(msg.method)
                &&& message_params(*msg) == Some(params_data(req.params))
                &&& opt_text(req.method) == opt_text(msg.method)
                &&& req.evaluation.decision() == decide(
                    policy.tools@,
                    req.params.name@,
                    borrowed(&req.params.arguments),
                )
            },
        },
{
    if !(msg.is_tool_call() || msg.is_resource_read()) {
        return None;
    }
    let params = match msg.extract_mcp_params() {
        Some(p) => p,
        None => return None,
    };
    let arguments = params.arguments.as_ref();
    assert(arguments == borrowed(&params.arguments));
    let evaluation = policy.evaluate(params.name.as_str(), arguments);
    let method = match &msg.method {
        Some(m) => Some(m.clone()),
        None => None,
    };
    Some(InterceptedRequest { method, params, evaluation })
}

impl InterceptedRequest {
    /// Whether the request waits for the answer of the approval flow.
    pub fn needs_approval(&self) -> (r: bool)
        ensures
            r == (self.evaluation is PromptRequired),
    {
        match self.evaluation {
            Evaluation::PromptRequired => true,
            _ => false,
        }
    }

    /// What the proxy does with this request of `msg`, where `approved` is
    /// the answer of the approval flow (it counts only where the request
    /// needs approval) and `timestamp` is the time of the decision, in
    /// RFC 3339 format, for the audit record.
    pub fn settle(&self, msg: &JsonRpcMessage, approved: bool, timestamp: String) -> (r: ProxyOutcome)
        ensures
            r.record.timestamp@ == timestamp@,
            r.record.direction@ == "client_to_server"@,
            opt_text(r.record.method) == opt_text(self.method),
            opt_text(r.record.tool_name) == Some(self.params.name@),
            opt_data(r.record.arguments) == opt_data(self.params.arguments),
            r.record.action@ == action_label(self.evaluation.decision(), approved),
            r.forward == forwards(self.evaluation.decision(), approved),
            r.forward <==> r.reply is None,
            r.reply matches Some(reply) ==> {
                &&& reply.jsonrpc@ == "2.0"@
                &&& opt_data(reply.id) == opt_data(msg.id)
                &&& reply.method is None
                &&& reply.params is None
                &&& reply.result is None
                &&& opt_data(reply.error) == Some(error_object(BLOCKED_CODE as int, blocked_text()))
            },
    {
        let forward = match self.evaluation {
            Evaluation::Allowed => true,
            Evaluation::Denied(_) => false,
            Evaluation::PromptRequired => approved,
        };
        let action = match self.evaluation {
            Evaluation::Allowed => String::from_str("allowed"),
            Evaluation::Denied(_) => String::from_str("denied"),
            Evaluation::PromptRequired => if approved {
                String::from_str("approved")
            } else {
                String::from_str("denied")
            },
        };
        let method = match &self.method {
            Some(m) => Some(m.clone()),
            None => None,
        };
        let arguments = match &self.params.arguments {
            Some(a) => Some(a.duplicate()),
            None => None,
        };
        let record = AuditRecord {
            timestamp,
            direction: String::from_str("client_to_server"),
            method,
            tool_name: Some(self.params.name.clone()),
            arguments,
            action,
        };
        let reply = if forward {
            None
        } else {
            Some(msg.create_error_response(BLOCKED_CODE, "Blocked by MCP Guard Policy"))
        };
        ProxyOutcome { record, forward, reply }
    }
}

/// Only tool calls and resource reads are held: a message with any other
/// method, or with none, goes to the server as it came.
pub proof fn law_only_tool_calls_and_resource_reads_are_held(method: Option<String>)
    ensures
        is_inspected(method) <==> (method matches Some(m) && (m@ == "tools/call"@ || m@
            == "resources/read"@)),
        method is None ==> !is_inspected(method),
{
}

/// A request that the policy denies never reaches the server, whatever the
/// approval flow answers.
pub proof fn law_denied_never_forwarded(decision: Decision, approved: bool)
    requires
        decision is Denied,
    ensures
        !forwards(decision, approved),
        action_label(decision, approved) == "denied"@,
{
}

/// A request that the policy allows reaches the server without approval.
pub proof fn law_allowed_always_forwarded(decision: Decision, approved: bool)
    requires
        decision is Allowed,
    ensures
        forwards(decision, approved),
{
}

/// A request to a tool that the policy does not list reaches the server
/// exactly when the approval flow approves it.
pub proof fn law_unlisted_tool_forwarded_only_if_approved(
    rules: Map<Seq<char>, ToolRule>,
    name: Seq<char>,
    arguments: Option<&JsonValue>,
    approved: bool,
)
    requires
        !rules.contains_key(name),
    ensures
        forwards(decide(rules, name, arguments), approved) == approved,
{
}

/// A deny pattern that matches a string argument blocks the request, what
/// ever the rule's action and the approval flow's answer.
pub proof fn law_deny_pattern_blocks(
    rules: Map<Seq<char>, ToolRule>,
    name: Seq<char>,
    arguments: Option<&JsonValue>,
    k: int,
    approved: bool,
)
    requires
        rules.contains_key(name),
        0 <= k < rules[name].deny_patterns@.len(),
        pattern_denies(rules[name].deny_patterns@[k]@, argument_entries(arguments)),
    ensures
        decide(rules, name, arguments) is Denied,
        !forwards(decide(rules, name, arguments), approved),
{
    crate::policy::law_deny_pattern_overrides_action(rules, name, arguments, k);
}

} // verus!
