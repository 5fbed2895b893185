//! The plain argument and result shapes of the supervisor's tool surface,
//! and the typed parameters of the conversation methods.
//!
//! The unverified shell derives its serialization on mirror copies of these;
//! here they are bare data, so contracts can speak of their fields.

use vstd::prelude::*;

verus! {

/// Arguments of the spawn tool: an optional custom identifier and an
/// optional working directory.
#[derive(Debug, PartialEq, Eq)]
pub struct SpawnAgentArgs {
    pub id: Option<String>,
    pub cwd: Option<String>,
}

/// Result of the spawn tool: the identifier the agent runs under.
#[derive(Debug, PartialEq, Eq)]
pub struct SpawnAgentResult {
    pub agent_id: String,
}

/// Arguments of the list tool: none.
#[derive(Debug, PartialEq, Eq)]
pub struct ListAgentsArgs {}

/// Result of the list tool: the registered identifiers.
#[derive(Debug, PartialEq, Eq)]
pub struct ListAgentsResult {
    pub agent_ids: Vec<String>,
}

/// Arguments of the kill tool.
#[derive(Debug, PartialEq, Eq)]
pub struct KillAgentArgs {
    pub agent_id: String,
}

/// Result of the kill tool: nothing beyond success.
#[derive(Debug, PartialEq, Eq)]
pub struct KillAgentResult {}

/// Arguments of the approval decision tool: the composite key
/// `<agentId>:<requestId>` and the decision, `allow` or `deny`.
#[derive(Debug, PartialEq, Eq)]
pub struct ApprovalDecisionArgs {
    pub key: String,
    pub decision: String,
}

/// Arguments of the approval listing tool: none.
#[derive(Debug, PartialEq, Eq)]
pub struct ListApprovalsArgs {}

/// Result of the approval listing tool: the pending keys.
#[derive(Debug, PartialEq, Eq)]
pub struct ListApprovalsResult {
    pub keys: Vec<String>,
}

/// Arguments of the rollout reader: the recording's path and how many of its
/// last events to return.
#[derive(Debug, PartialEq, Eq)]
pub struct GetConversationEventsArgs {
    pub rollout_path: String,
    pub limit: Option<usize>,
}

/// Parameters of a new-conversation call; the agent fills every default.
#[derive(Debug, PartialEq, Eq)]
pub struct NewConversationParams {}

/// Reply of a new-conversation call, beyond the remembered identifier.
#[derive(Debug, PartialEq, Eq)]
pub struct NewConversationResponse {}

/// Parameters of a send-message call.
#[derive(Debug, PartialEq, Eq)]
pub struct SendUserMessageParams {
    pub conversation_id: String,
}

/// Reply of a send-message call.
#[derive(Debug, PartialEq, Eq)]
pub struct SendUserMessageResponse {}

/// Parameters of a send-turn call.
#[derive(Debug, PartialEq, Eq)]
pub struct SendUserTurnParams {
    pub conversation_id: String,
}

/// Reply of a send-turn call.
#[derive(Debug, PartialEq, Eq)]
pub struct SendUserTurnResponse {}

/// Parameters of an interrupt call.
#[derive(Debug, PartialEq, Eq)]
pub struct InterruptConversationParams {
    pub conversation_id: String,
}

/// Reply of an interrupt call: why the turn stopped.
#[derive(Debug, PartialEq, Eq)]
pub struct InterruptConversationResponse {
    pub abort_reason: String,
}

} // verus!
