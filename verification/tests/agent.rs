use hyperspace::agent::{
    truncate, AgentMessage, AgentReply, AgentRole, AgentRuntime, LocalAgentRuntime, StubModel,
};
use hyperspace::error::HyperspaceError;

fn message(role: AgentRole, text: &str) -> AgentMessage {
    AgentMessage { role, text: text.to_string() }
}

#[test]
fn truncate_keeps_short_input() {
    assert_eq!(truncate("hello", 5), "hello");
    assert_eq!(truncate("", 0), "");
    assert_eq!(truncate("héllo wörld", 11), "héllo wörld");
}

#[test]
fn truncate_cuts_long_input_with_ellipsis() {
    assert_eq!(truncate("hello world", 5), "hell…");
    assert_eq!(truncate("héllo", 2), "h…");
    assert_eq!(truncate("ab", 1), "…");
    assert_eq!(truncate("ab", 0), "…");
    assert_eq!(truncate("abc", 3), "abc");
}

#[test]
fn stub_model_replies_per_role() {
    let model = StubModel;
    let system = model.complete(message(AgentRole::System, "x")).unwrap();
    assert_eq!(
        system.text,
        "Stub model received a system prompt. Real local inference plugs in here."
    );
    let assistant = model.complete(message(AgentRole::Assistant, "x")).unwrap();
    assert_eq!(assistant.text, "Stub model echo.");
    let user = model.complete(AgentMessage::user("hi there".to_string())).unwrap();
    assert_eq!(
        user.text,
        "Hyperspace agent (stub): I received your request — \"hi there\". When the Redox-side runtime is wired up, this will run fully local."
    );
}

#[test]
fn stub_model_quotes_at_most_120_characters() {
    let long: String = std::iter::repeat('x').take(200).collect();
    let reply: AgentReply = StubModel.complete(message(AgentRole::User, &long)).unwrap();
    let quoted: String = std::iter::repeat('x').take(119).collect();
    assert!(reply.text.contains(&format!("\"{quoted}…\"")));
    let exact: String = std::iter::repeat('y').take(120).collect();
    let reply = StubModel.complete(message(AgentRole::User, &exact)).unwrap();
    assert!(reply.text.contains(&format!("\"{exact}\"")));
}

#[test]
fn local_runtime_pings_and_completes() {
    let runtime = LocalAgentRuntime::new();
    assert_eq!(runtime.ping().unwrap(), "Local agent runtime online (stub model)");
    let reply = runtime.complete(message(AgentRole::Assistant, "x")).unwrap();
    assert_eq!(reply.text, "Stub model echo.");
}

#[test]
fn error_messages() {
    assert_eq!(
        HyperspaceError::DimensionNotFound("d".to_string()).message(),
        "dimension not found: d"
    );
    assert_eq!(HyperspaceError::ObjectNotFound("o".to_string()).message(), "object not found: o");
    assert_eq!(
        HyperspaceError::Filesystem("disk full".to_string()).message(),
        "filesystem error: disk full"
    );
    assert_eq!(HyperspaceError::AiRuntime("down".to_string()).message(), "ai runtime error: down");
}
