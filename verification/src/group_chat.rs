//! A group chat: a set of participant agents sharing one runtime, a
//! manager, and the topics that tie the conversation together.

use vstd::prelude::*;
use crate::agent_runtime::AgentRuntime;
use crate::ids::AgentId;

verus! {

/// When a group conversation is considered finished; the policy lives with
/// the host.
#[derive(Debug)]
pub struct TerminationCondition;

/// A conversation among several agents over one runtime.
pub struct GroupChat {
    pub runtime: AgentRuntime,
    pub participants: Vec<AgentId>,
    pub termination_condition: Option<TerminationCondition>,
    pub group_chat_manager: AgentId,
    pub parent_topic_type: String,
    pub group_topic_type: String,
    pub participant_topic_types: Vec<String>,
    pub participant_descriptions: Vec<String>,
}

impl GroupChat {
    /// Assembles a group chat from its parts.
    pub fn new(
        participants: Vec<AgentId>,
        runtime: AgentRuntime,
        group_chat_manager: AgentId,
        group_topic_type: String,
        termination_condition: Option<TerminationCondition>,
        parent_topic_type: String,
        participant_topic_types: Vec<String>,
        participant_descriptions: Vec<String>,
    ) -> (r: GroupChat)
        ensures
            r.participants@ == participants@,
            r.runtime == runtime,
            r.group_chat_manager == group_chat_manager,
            r.group_topic_type == group_topic_type,
            r.parent_topic_type == parent_topic_type,
            r.participant_topic_types@ == participant_topic_types@,
            r.participant_descriptions@ == participant_descriptions@,
    {
        GroupChat {
            runtime,
            participants,
            termination_condition,
            group_chat_manager,
            group_topic_type,
            parent_topic_type,
            participant_topic_types,
            participant_descriptions,
        }
    }
}

} // verus!
