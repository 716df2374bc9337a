use dba_bridge::session::{
    run_python_query_with_history, AgentError, AgentSession, Phase, Resource, SessionAction,
    SessionEvent,
};
use dba_bridge::stream::StreamChunk;

/// What a scripted agent does when asked to act.
#[derive(Clone, Copy)]
enum Script {
    Proceed,
    Fail,
    Cancel,
}

/// A stand-in for the outside world that records every acquisition and
/// release and answers each action from a script.
struct Double {
    acquired: Vec<Resource>,
    released: Vec<Resource>,
    chunks: Vec<Option<&'static str>>,
    acquire_script: Vec<Script>,
    read_fail_at: Option<usize>,
    cancel_at: Option<usize>,
    release_script: Vec<Script>,
    reads: usize,
}

impl Double {
    fn new(chunks: Vec<Option<&'static str>>) -> Double {
        Double {
            acquired: Vec::new(),
            released: Vec::new(),
            chunks,
            acquire_script: Vec::new(),
            read_fail_at: None,
            cancel_at: None,
            release_script: Vec::new(),
            reads: 0,
        }
    }

    fn failure(what: &str) -> SessionEvent {
        SessionEvent::Failed(AgentError { message: what.to_string(), trace: "at line 1".to_string() })
    }

    fn run(&mut self, mut session: AgentSession, first: SessionAction) -> Result<String, AgentError> {
        let mut action = first;
        loop {
            let event = match action {
                SessionAction::Finish(outcome) => {
                    assert_eq!(session.phase, Phase::Done);
                    return outcome;
                }
                SessionAction::Acquire(r) => {
                    match self.acquire_script.get(self.acquired.len()).copied().unwrap_or(Script::Proceed) {
                        Script::Proceed => {
                            self.acquired.push(r);
                            SessionEvent::Acquired
                        }
                        Script::Fail => Double::failure("acquire failed"),
                        Script::Cancel => SessionEvent::Cancelled,
                    }
                }
                SessionAction::ReadChunk => {
                    let i = self.reads;
                    self.reads += 1;
                    if self.read_fail_at == Some(i) {
                        Double::failure("stream broke")
                    } else if self.cancel_at == Some(i) {
                        SessionEvent::Cancelled
                    } else if i < self.chunks.len() {
                        SessionEvent::Chunk(StreamChunk {
                            text: self.chunks[i].map(|t| t.to_string()),
                            tool_calls: 1,
                        })
                    } else {
                        SessionEvent::StreamEnded
                    }
                }
                SessionAction::Release(r) => {
                    let k = self.released.len();
                    self.released.push(r);
                    match self.release_script.get(k).copied().unwrap_or(Script::Proceed) {
                        Script::Proceed => SessionEvent::Released,
                        Script::Fail => Double::failure("release failed"),
                        Script::Cancel => SessionEvent::Cancelled,
                    }
                }
            };
            assert!(session.accepts(&event));
            action = session.step(event);
        }
    }

    fn assert_balanced(&self) {
        let mut reversed = self.acquired.clone();
        reversed.reverse();
        assert_eq!(self.released, reversed);
    }
}

fn start() -> (AgentSession, SessionAction) {
    let h: Vec<(String, String)> = Vec::new();
    run_python_query_with_history("status?", &h, "/srv/tool/index.js", true)
}

#[test]
fn session_success_releases_everything_once() {
    let mut d = Double::new(vec![Some("Hello, "), None, Some("world"), Some("")]);
    let (s, a) = start();
    assert_eq!(s.prompt, "status?");
    let out = d.run(s, a);
    assert_eq!(out.unwrap(), "Hello, world");
    assert_eq!(d.acquired, vec![Resource::Credential, Resource::ToolClient, Resource::AgentClient]);
    d.assert_balanced();
}

#[test]
fn session_without_chunks_answers_sentinel() {
    let mut d = Double::new(vec![]);
    let (s, a) = start();
    assert_eq!(d.run(s, a).unwrap(), "No response from agent");
    d.assert_balanced();
}

#[test]
fn failure_while_acquiring_releases_what_was_held() {
    let mut d = Double::new(vec![Some("x")]);
    d.acquire_script = vec![Script::Proceed, Script::Proceed, Script::Fail];
    let (s, a) = start();
    let err = d.run(s, a).unwrap_err();
    assert_eq!(err.message, "acquire failed");
    assert_eq!(d.acquired, vec![Resource::Credential, Resource::ToolClient]);
    d.assert_balanced();
}

#[test]
fn failure_on_first_acquisition_finishes_at_once() {
    let mut d = Double::new(vec![]);
    d.acquire_script = vec![Script::Fail];
    let (s, a) = start();
    assert!(d.run(s, a).is_err());
    assert!(d.acquired.is_empty());
    assert!(d.released.is_empty());
}

#[test]
fn failure_mid_stream_is_an_error_and_releases_all() {
    let mut d = Double::new(vec![Some("partial "), Some("answer")]);
    d.read_fail_at = Some(1);
    let (s, a) = start();
    let err = d.run(s, a).unwrap_err();
    assert_eq!(err.message, "stream broke");
    assert_eq!(err.describe(), "Error: stream broke\n\nTraceback:\nat line 1");
    d.assert_balanced();
    assert_eq!(d.released.len(), 3);
}

#[test]
fn cancellation_mid_stream_releases_all() {
    let mut d = Double::new(vec![Some("a"), Some("b"), Some("c")]);
    d.cancel_at = Some(2);
    let (s, a) = start();
    let err = d.run(s, a).unwrap_err();
    assert_eq!(err.message, "query cancelled");
    assert_eq!(err.trace, "");
    d.assert_balanced();
    assert_eq!(d.released.len(), 3);
}

#[test]
fn cancellation_while_acquiring_releases_all_held() {
    let mut d = Double::new(vec![]);
    d.acquire_script = vec![Script::Proceed, Script::Cancel];
    let (s, a) = start();
    assert!(d.run(s, a).is_err());
    assert_eq!(d.acquired, vec![Resource::Credential]);
    d.assert_balanced();
}

#[test]
fn failed_release_turns_success_into_error_but_releases_rest() {
    let mut d = Double::new(vec![Some("done")]);
    d.release_script = vec![Script::Proceed, Script::Fail, Script::Proceed];
    let (s, a) = start();
    let err = d.run(s, a).unwrap_err();
    assert_eq!(err.message, "release failed");
    d.assert_balanced();
    assert_eq!(d.released.len(), 3);
}

#[test]
fn first_error_is_kept_through_failed_releases() {
    let mut d = Double::new(vec![Some("x")]);
    d.read_fail_at = Some(0);
    d.release_script = vec![Script::Fail, Script::Fail, Script::Fail];
    let (s, a) = start();
    assert_eq!(d.run(s, a).unwrap_err().message, "stream broke");
    d.assert_balanced();
}

#[test]
fn missing_tool_server_is_answered_as_text() {
    let h: Vec<(String, String)> = Vec::new();
    let (s, a) = run_python_query_with_history("q", &h, "/opt/mcp/index.js", false);
    assert_eq!(s.phase, Phase::Done);
    assert_eq!(s.held, 0);
    match a {
        SessionAction::Finish(Ok(t)) => assert_eq!(t, "Error: MCP server not found at /opt/mcp/index.js"),
        other => panic!("unexpected first action {:?}", other),
    }
}

#[test]
fn session_prompt_carries_history() {
    let h = vec![("q1".to_string(), "r1".to_string())];
    let (s, a) = run_python_query_with_history("q2", &h, "/x", true);
    assert!(matches!(a, SessionAction::Acquire(Resource::Credential)));
    assert!(s.prompt.starts_with("Previous conversation:\nUser: q1\nAssistant: r1\n---\nCurrent question: q2"));
}

#[test]
fn session_refuses_events_out_of_turn() {
    let (s, _) = start();
    assert!(!s.accepts(&SessionEvent::StreamEnded));
    assert!(!s.accepts(&SessionEvent::Released));
    assert!(s.accepts(&SessionEvent::Acquired));
    assert!(s.accepts(&SessionEvent::Cancelled));
}
