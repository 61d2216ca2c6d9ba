use vstd::prelude::*;
use vstd::string::{StrSliceExecFns, StringExecFns};

use crate::error::HyperspaceError;

verus! {

/// Who a message to the agent comes from.
#[derive(Debug, Clone, Copy, PartialEq, Eq, Structural)]
pub enum AgentRole {
    System,
    User,
    Assistant,
}

/// A message handed to an agent.
#[derive(Debug, Clone)]
pub struct AgentMessage {
    pub role: AgentRole,
    pub text: String,
}

impl AgentMessage {
    /// A message from the user.
    pub fn user(text: String) -> (m: Self)
        ensures
            m.role == AgentRole::User,
            m.text == text,
    {
        AgentMessage { role: AgentRole::User, text }
    }
}

/// An agent's answer.
#[derive(Debug, Clone)]
pub struct AgentReply {
    pub text: String,
}

/// How many characters of a user request the stub quotes.
pub const QUOTE_LIMIT: usize = 120;

/// `input` if it has at most `max` characters; otherwise its first `max - 1` characters
/// (none when `max` is 0) followed by an ellipsis.
pub open spec fn truncated(input: Seq<char>, max: nat) -> Seq<char> {
    if input.len() <= max {
        input
    } else {
        input.take(if max == 0 { 0 } else { max - 1 }) + "…"@
    }
}

/// A text within the limit is kept whole; a longer one keeps its first `max - 1`
/// characters and ends in a single ellipsis, so that (for a limit of at least one) it is
/// exactly `max` characters long.
pub proof fn lemma_truncated_shape(input: Seq<char>, max: nat)
    ensures
        input.len() <= max ==> truncated(input, max) == input,
        input.len() > max && max >= 1 ==> {
            &&& truncated(input, max).len() == max
            &&& truncated(input, max).take(max - 1) == input.take(max - 1)
            &&& truncated(input, max).last() == '…'
        },
        input.len() > max && max == 0 ==> truncated(input, max) == seq!['…'],
{
    reveal_strlit("…");
    if input.len() > max {
        let keep: int = if max == 0 { 0 } else { max - 1 };
        assert(truncated(input, max).take(keep) =~= input.take(keep));
        if max == 0 {
            assert(truncated(input, max) =~= seq!['…']);
        }
    }
}

/// Shortens `input` to at most `max` characters, marking a cut with an ellipsis.
pub fn truncate(input: &str, max: usize) -> (r: String)
    ensures
        r@ == truncated(input@, max as nat),
{
    if input.unicode_len() <= max {
        return String::from_str(input);
    }
    let keep = if max == 0 { 0 } else { max - 1 };
    let mut shortened = String::from_str(input.substring_char(0, keep));
    shortened.append("…");
    shortened
}

/// The stub model's reply text for a message.
pub open spec fn stub_reply(message: AgentMessage) -> Seq<char> {
    stub_reply_text(message.role, message.text@)
}

/// The stub model's reply text to a message from `role` saying `text`.
pub open spec fn stub_reply_text(role: AgentRole, text: Seq<char>) -> Seq<char> {
    match role {
        AgentRole::System => "Stub model received a system prompt. Real local inference plugs in here."@,
        AgentRole::User => "Hyperspace agent (stub): I received your request — \""@ + truncated(
            text,
            QUOTE_LIMIT as nat,
        ) + "\". When the Redox-side runtime is wired up, this will run fully local."@,
        AgentRole::Assistant => "Stub model echo."@,
    }
}

/// A deterministic stand-in for local inference: canned replies that confirm the hook
/// is wired.
#[derive(Debug, Default)]
pub struct StubModel;

impl StubModel {
    /// Answers a message with the canned reply for its role; a user request is quoted,
    /// shortened to 120 characters.
    pub fn complete(&self, message: AgentMessage) -> (r: Result<AgentReply, &'static str>)
        ensures
            r matches Ok(reply) && reply.text@ == stub_reply(message),
    {
        let text = match message.role {
            AgentRole::System => String::from_str(
                "Stub model received a system prompt. Real local inference plugs in here.",
            ),
            AgentRole::User => {
                let mut t = String::from_str("Hyperspace agent (stub): I received your request — \"");
                let quoted = truncate(message.text.as_str(), QUOTE_LIMIT);
                t.append(quoted.as_str());
                t.append("\". When the Redox-side runtime is wired up, this will run fully local.");
                t
            },
            AgentRole::Assistant => String::from_str("Stub model echo."),
        };
        Ok(AgentReply { text })
    }
}

/// The interface local agents are reached through.
pub trait AgentRuntime {
    fn ping(&self) -> Result<String, HyperspaceError>;

    fn complete(&self, message: AgentMessage) -> Result<AgentReply, HyperspaceError>;
}

/// The agent runtime of this build, backed by the stub model.
#[derive(Debug, Default)]
pub struct LocalAgentRuntime {
    model: StubModel,
}

impl LocalAgentRuntime {
    /// The model this runtime answers through.
    pub closed spec fn model(&self) -> StubModel {
        self.model
    }

    /// A runtime backed by the stub model.
    pub fn new() -> (r: Self)
        ensures
            r.model() == StubModel,
    {
        LocalAgentRuntime { model: StubModel }
    }
}

impl AgentRuntime for LocalAgentRuntime {
    /// Reports that the runtime is online.
    fn ping(&self) -> (r: Result<String, HyperspaceError>)
        ensures
            r matches Ok(s) && s@ == "Local agent runtime online (stub model)"@,
    {
        Ok(String::from_str("Local agent runtime online (stub model)"))
    }

    /// Answers through the stub model; a model error would come back as `AiRuntime`.
    fn complete(&self, message: AgentMessage) -> (r: Result<AgentReply, HyperspaceError>)
        ensures
            r matches Ok(reply) && reply.text@ == stub_reply(message),
    {
        match self.model.complete(message) {
            Ok(reply) => Ok(reply),
            Err(err) => Err(HyperspaceError::AiRuntime(String::from_str(err))),
        }
    }
}

} // verus!
