//! The protocol of one agent session. The session acquires a credential, a
//! tool-protocol client and an agent client, streams the answer, and releases
//! whatever it holds in reverse order on every way out: success, failure or
//! cancellation. The caller performs each action and reports what happened.
use vstd::prelude::*;
use crate::prompt::{assemble_prompt, assembled_prompt, history_view};
use crate::stream::{add_tool_calls, chunk_fragments, final_answer, ResponseAccumulator, StreamChunk};

verus! {

/// The scoped resources of a session, in acquisition order.
#[derive(Clone, Copy, PartialEq, Eq, Structural, Debug)]
pub enum Resource {
    Credential,
    ToolClient,
    AgentClient,
}

/// How many resources a session holds while it streams.
pub const SESSION_RESOURCES: usize = 3;

/// The `i`-th resource to acquire.
pub open spec fn acquisition_order(i: int) -> Resource {
    if i == 0 {
        Resource::Credential
    } else if i == 1 {
        Resource::ToolClient
    } else {
        Resource::AgentClient
    }
}

fn resource_at(i: usize) -> (r: Resource)
    requires
        i < SESSION_RESOURCES,
    ensures
        r == acquisition_order(i as int),
{
    if i == 0 {
        Resource::Credential
    } else if i == 1 {
        Resource::ToolClient
    } else {
        Resource::AgentClient
    }
}

/// A failure during set-up or streaming, with its diagnostic context.
#[derive(Debug)]
pub struct AgentError {
    pub message: String,
    pub trace: String,
}

/// An error as text: its message and its trace.
pub type ErrorView = (Seq<char>, Seq<char>);

/// A session's result as text.
pub type OutcomeView = Result<Seq<char>, ErrorView>;

impl View for AgentError {
    type V = ErrorView;

    open spec fn view(&self) -> ErrorView {
        (self.message@, self.trace@)
    }
}

pub open spec fn outcome_view(r: Result<String, AgentError>) -> OutcomeView {
    match r {
        Ok(s) => Ok(s@),
        Err(e) => Err(e@),
    }
}

/// The message of the error that a cancellation becomes.
pub open spec fn cancelled_message() -> Seq<char> {
    "query cancelled"@
}

/// The text shown for a failed query.
pub open spec fn error_text(e: ErrorView) -> Seq<char> {
    "Error: "@ + e.0 + "\n\nTraceback:\n"@ + e.1
}

impl AgentError {
    /// Renders the error as it is shown to the user.
    pub fn describe(&self) -> (r: String)
        ensures
            r@ == error_text(self@),
    {
        let mut out = String::from_str("Error: ");
        out.append(self.message.as_str());
        out.append("\n\nTraceback:\n");
        out.append(self.trace.as_str());
        out
    }
}

/// Where a session stands.
#[derive(Clone, Copy, PartialEq, Eq, Structural, Debug)]
pub enum Phase {
    Acquiring,
    Streaming,
    Releasing,
    Done,
}

/// What the caller reports back after performing an action.
#[derive(Debug)]
pub enum SessionEvent {
    /// The resource asked for is now held.
    Acquired,
    /// The stream delivered a chunk.
    Chunk(StreamChunk),
    /// The stream is exhausted.
    StreamEnded,
    /// The last action raised an error.
    Failed(AgentError),
    /// The host cancelled the query.
    Cancelled,
    /// The resource asked for has been released.
    Released,
}

/// What the caller is to do next.
#[derive(Debug)]
pub enum SessionAction {
    Acquire(Resource),
    ReadChunk,
    Release(Resource),
    Finish(Result<String, AgentError>),
}

pub open spec fn is_abort(e: SessionEvent) -> bool {
    e is Failed || e is Cancelled
}

/// The error that an aborting event stands for.
pub open spec fn event_error(e: SessionEvent) -> ErrorView {
    match e {
        SessionEvent::Failed(err) => err@,
        _ => (cancelled_message(), Seq::empty()),
    }
}

/// The events a session can take in each phase.
pub open spec fn event_accepted(p: Phase, e: SessionEvent) -> bool {
    match p {
        Phase::Acquiring => e is Acquired || is_abort(e),
        Phase::Streaming => e is Chunk || e is StreamEnded || is_abort(e),
        Phase::Releasing => e is Released || is_abort(e),
        Phase::Done => false,
    }
}

/// The phases and resource counts a session can be in.
pub open spec fn shape_wf(p: Phase, held: nat) -> bool {
    match p {
        Phase::Acquiring => held < SESSION_RESOURCES,
        Phase::Streaming => held == SESSION_RESOURCES,
        Phase::Releasing => 0 < held <= SESSION_RESOURCES,
        Phase::Done => held == 0,
    }
}

pub open spec fn next_phase(p: Phase, held: nat, e: SessionEvent) -> Phase {
    match p {
        Phase::Acquiring => if e is Acquired {
            if held + 1 < SESSION_RESOURCES {
                Phase::Acquiring
            } else {
                Phase::Streaming
            }
        } else if held == 0 {
            Phase::Done
        } else {
            Phase::Releasing
        },
        Phase::Streaming => if e is Chunk {
            Phase::Streaming
        } else {
            Phase::Releasing
        },
        Phase::Releasing => if held <= 1 {
            Phase::Done
        } else {
            Phase::Releasing
        },
        Phase::Done => Phase::Done,
    }
}

pub open spec fn next_held(p: Phase, held: nat, e: SessionEvent) -> nat {
    match p {
        Phase::Acquiring => if e is Acquired {
            held + 1
        } else {
            held
        },
        Phase::Releasing => (held - 1) as nat,
        _ => held,
    }
}

/// The action asked for in a phase with `held` resources held.
pub open spec fn action_fits(a: SessionAction, p: Phase, held: nat) -> bool {
    match p {
        Phase::Acquiring => a == SessionAction::Acquire(acquisition_order(held as int)),
        Phase::Streaming => a is ReadChunk,
        Phase::Releasing => a == SessionAction::Release(acquisition_order(held - 1)),
        Phase::Done => a is Finish,
    }
}

/// The outcome after one more release: a failed or cancelled release turns
/// a success into that error, and an earlier error stays.
pub open spec fn after_release(o: OutcomeView, e: SessionEvent) -> OutcomeView {
    if e is Released {
        o
    } else {
        match o {
            Ok(_) => Err(event_error(e)),
            Err(x) => Err(x),
        }
    }
}

/// Once a session has failed, no later release turns it into a success.
pub proof fn lemma_failure_persists(o: OutcomeView, e: SessionEvent)
    requires
        o is Err,
    ensures
        after_release(o, e) == o,
{
}

/// The state of one agent session.
pub struct AgentSession {
    /// The prompt the session sends to the agent.
    pub prompt: String,
    pub phase: Phase,
    /// How many resources are held: the first `held` of the acquisition order.
    pub held: usize,
    pub acc: ResponseAccumulator,
    /// The result, decided when the session starts to release.
    pub outcome: Option<Result<String, AgentError>>,
}

impl AgentSession {
    pub open spec fn wf(&self) -> bool {
        &&& shape_wf(self.phase, self.held as nat)
        &&& (self.phase is Acquiring || self.phase is Streaming || self.phase is Done) ==> self.outcome is None
        &&& self.phase is Releasing ==> self.outcome is Some
    }

    pub open spec fn outcome_now(&self) -> OutcomeView {
        outcome_view(self.outcome->Some_0)
    }

    /// Whether the session can take `event` now.
    pub fn accepts(&self, event: &SessionEvent) -> (r: bool)
        ensures
            r == event_accepted(self.phase, *event),
    {
        match self.phase {
            Phase::Acquiring => match event {
                SessionEvent::Acquired | SessionEvent::Failed(_) | SessionEvent::Cancelled => true,
                _ => false,
            },
            Phase::Streaming => match event {
                SessionEvent::Chunk(_)
                | SessionEvent::StreamEnded
                | SessionEvent::Failed(_)
                | SessionEvent::Cancelled => true,
                _ => false,
            },
            Phase::Releasing => match event {
                SessionEvent::Released | SessionEvent::Failed(_) | SessionEvent::Cancelled => true,
                _ => false,
            },
            Phase::Done => false,
        }
    }

    /// Takes the report of the last action and says what to do next.
    pub fn step(&mut self, event: SessionEvent) -> (a: SessionAction)
        requires
            old(self).wf(),
            event_accepted(old(self).phase, event),
        ensures
            final(self).wf(),
            final(self).prompt == old(self).prompt,
            final(self).phase == next_phase(old(self).phase, old(self).held as nat, event),
            final(self).held == next_held(old(self).phase, old(self).held as nat, event),
            action_fits(a, final(self).phase, final(self).held as nat),
            old(self).phase is Streaming && event is Chunk ==> {
                &&& final(self).acc.fragments_view() == old(self).acc.fragments_view()
                    + chunk_fragments(event->Chunk_0)
                &&& final(self).acc.tool_call_count == add_tool_calls(
                    old(self).acc.tool_call_count,
                    event->Chunk_0.tool_calls,
                )
            },
            !(old(self).phase is Streaming && event is Chunk) ==> final(self).acc == old(self).acc,
            old(self).phase is Streaming && event is StreamEnded ==> final(self).outcome_now() == Ok::<
                Seq<char>,
                ErrorView,
            >(final_answer(old(self).acc.fragments_view())),
            (old(self).phase is Acquiring || old(self).phase is Streaming) && is_abort(event) ==> {
                let o = Err::<Seq<char>, ErrorView>(event_error(event));
                &&& final(self).phase is Releasing ==> final(self).outcome_now() == o
                &&& final(self).phase is Done ==> outcome_view(a->Finish_0) == o
            },
            old(self).phase is Releasing ==> {
                let o = after_release(old(self).outcome_now(), event);
                &&& final(self).phase is Releasing ==> final(self).outcome_now() == o
                &&& final(self).phase is Done ==> outcome_view(a->Finish_0) == o
            },
    {
        match self.phase {
            Phase::Acquiring => {
                if let SessionEvent::Acquired = event {
                    self.held = self.held + 1;
                    if self.held < SESSION_RESOURCES {
                        SessionAction::Acquire(resource_at(self.held))
                    } else {
                        self.phase = Phase::Streaming;
                        SessionAction::ReadChunk
                    }
                } else {
                    self.abort(event)
                }
            },
            Phase::Streaming => match event {
                SessionEvent::Chunk(c) => {
                    self.acc.absorb(&c);
                    SessionAction::ReadChunk
                },
                SessionEvent::StreamEnded => {
                    self.outcome = Some(Ok(self.acc.answer()));
                    self.phase = Phase::Releasing;
                    SessionAction::Release(resource_at(self.held - 1))
                },
                other => self.abort(other),
            },
            _ => {
                self.held = self.held - 1;
                if let SessionEvent::Released = event {
                } else {
                    let err = error_of(event);
                    if let Some(Ok(_)) = &self.outcome {
                        self.outcome = Some(Err(err));
                    }
                }
                if self.held > 0 {
                    SessionAction::Release(resource_at(self.held - 1))
                } else {
                    self.phase = Phase::Done;
                    let o = self.outcome.take();
                    SessionAction::Finish(o.unwrap())
                }
            },
        }
    }

    /// Gives up before the answer is complete: releases what is held, or
    /// finishes at once when nothing is.
    fn abort(&mut self, event: SessionEvent) -> (a: SessionAction)
        requires
            old(self).wf(),
            old(self).phase is Acquiring || old(self).phase is Streaming,
            is_abort(event),
        ensures
            final(self).prompt == old(self).prompt,
            final(self).acc == old(self).acc,
            final(self).held == old(self).held,
            old(self).held == 0 ==> final(self).phase is Done && final(self).outcome is None
                && a is Finish && outcome_view(a->Finish_0) == Err::<Seq<char>, ErrorView>(
                event_error(event),
            ),
            old(self).held > 0 ==> final(self).phase is Releasing && final(self).outcome is Some
                && final(self).outcome_now() == Err::<Seq<char>, ErrorView>(event_error(event))
                && a == SessionAction::Release(acquisition_order(old(self).held - 1)),
    {
        let err = error_of(event);
        if self.held == 0 {
            self.phase = Phase::Done;
            SessionAction::Finish(Err(err))
        } else {
            self.phase = Phase::Releasing;
            self.outcome = Some(Err(err));
            SessionAction::Release(resource_at(self.held - 1))
        }
    }
}

fn error_of(event: SessionEvent) -> (e: AgentError)
    requires
        is_abort(event),
    ensures
        e@ == event_error(event),
{
    match event {
        SessionEvent::Failed(err) => err,
        _ => AgentError { message: String::from_str("query cancelled"), trace: String::new() },
    }
}

/// The answer given when the tool-protocol server cannot be found.
pub open spec fn missing_tool_server_notice(path: Seq<char>) -> Seq<char> {
    "Error: MCP server not found at "@ + path
}

/// Opens the session for `query` after the turns in `history`. When the
/// tool-protocol server is missing the session ends at once, with a notice
/// as its answer; otherwise the first resource is asked for.
pub fn run_python_query_with_history(
    query: &str,
    history: &Vec<(String, String)>,
    tool_server_path: &str,
    tool_server_found: bool,
) -> (r: (AgentSession, SessionAction))
    ensures
        r.0.wf(),
        r.0.prompt@ == assembled_prompt(history_view(history@), query@),
        r.0.acc.fragments_view() == Seq::<Seq<char>>::empty(),
        r.0.acc.tool_call_count == 0,
        r.0.held == 0,
        tool_server_found ==> r.0.phase is Acquiring && r.1 == SessionAction::Acquire(Resource::Credential),
        !tool_server_found ==> r.0.phase is Done && r.1 is Finish && outcome_view(r.1->Finish_0) == Ok::<
            Seq<char>,
            ErrorView,
        >(missing_tool_server_notice(tool_server_path@)),
{
    let prompt = assemble_prompt(history, query);
    let acc = ResponseAccumulator::new();
    if tool_server_found {
        let session = AgentSession { prompt, phase: Phase::Acquiring, held: 0, acc, outcome: None };
        (session, SessionAction::Acquire(Resource::Credential))
    } else {
        let mut notice = String::from_str("Error: MCP server not found at ");
        notice.append(tool_server_path);
        let session = AgentSession { prompt, phase: Phase::Done, held: 0, acc, outcome: None };
        (session, SessionAction::Finish(Ok(notice)))
    }
}

/// Phase, resources held, acquisitions and releases after a run of events
/// from a session that found its tool-protocol server.
pub type RunShape = (Phase, nat, nat, nat);

pub open spec fn run_shape(es: Seq<SessionEvent>) -> RunShape
    decreases es.len(),
{
    if es.len() == 0 {
        (Phase::Acquiring, 0, 0, 0)
    } else {
        let s = run_shape(es.drop_last());
        let e = es.last();
        (
            next_phase(s.0, s.1, e),
            next_held(s.0, s.1, e),
            if s.0 is Acquiring && e is Acquired {
                s.2 + 1
            } else {
                s.2
            },
            if s.0 is Releasing {
                s.3 + 1
            } else {
                s.3
            },
        )
    }
}

/// Each event of the run was one the session could take at that point.
pub open spec fn run_accepted(es: Seq<SessionEvent>) -> bool
    decreases es.len(),
{
    es.len() == 0 || (run_accepted(es.drop_last()) && event_accepted(run_shape(es.drop_last()).0, es.last()))
}

/// Along any run, the resources held are those acquired and not yet
/// released; a finished session has released every resource it acquired,
/// each exactly once.
pub proof fn lemma_resources_balanced(es: Seq<SessionEvent>)
    requires
        run_accepted(es),
    ensures
        shape_wf(run_shape(es).0, run_shape(es).1),
        run_shape(es).1 + run_shape(es).3 == run_shape(es).2,
        run_shape(es).0 is Done ==> run_shape(es).3 == run_shape(es).2,
    decreases es.len(),
{
    if es.len() > 0 {
        lemma_resources_balanced(es.drop_last());
    }
}

proof fn lemma_abort_prefix(es: Seq<SessionEvent>, tail: Seq<SessionEvent>, k: int)
    requires
        run_accepted(es),
        run_shape(es).0 is Acquiring || run_shape(es).0 is Streaming,
        tail.len() == run_shape(es).1 + 1,
        is_abort(tail[0]),
        forall|i: int| 1 <= i < tail.len() ==> is_abort(#[trigger] tail[i]) || tail[i] is Released,
        1 <= k <= tail.len(),
    ensures
        run_accepted(es + tail.take(k)),
        run_shape(es + tail.take(k)).1 == run_shape(es).1 + 1 - k,
        run_shape(es + tail.take(k)).0 == (if k == tail.len() {
            Phase::Done
        } else {
            Phase::Releasing
        }),
    decreases k,
{
    lemma_resources_balanced(es);
    let cur = es + tail.take(k);
    assert(cur.drop_last() =~= es + tail.take(k - 1));
    assert(cur.last() == tail[k - 1]);
    if k == 1 {
        assert(tail.take(0) =~= Seq::<SessionEvent>::empty());
        assert(es + tail.take(0) =~= es);
    } else {
        lemma_abort_prefix(es, tail, k - 1);
    }
}

/// On every way out before the answer is complete: after a failure or a
/// cancellation, the session asks to release each held resource in turn,
/// most recent first, and finishes once all of them are released.
pub proof fn lemma_abort_releases_all(es: Seq<SessionEvent>, tail: Seq<SessionEvent>)
    requires
        run_accepted(es),
        run_shape(es).0 is Acquiring || run_shape(es).0 is Streaming,
        tail.len() == run_shape(es).1 + 1,
        is_abort(tail[0]),
        forall|i: int| 1 <= i < tail.len() ==> is_abort(#[trigger] tail[i]) || tail[i] is Released,
    ensures
        run_accepted(es + tail),
        run_shape(es + tail).0 is Done,
        run_shape(es + tail).1 == 0,
        forall|k: int|
            1 <= k < tail.len() ==> {
                &&& #[trigger] run_shape(es + tail.take(k)).0 is Releasing
                &&& run_shape(es + tail.take(k)).1 == run_shape(es).1 + 1 - k
            },
{
    assert forall|k: int| 1 <= k < tail.len() implies {
        &&& #[trigger] run_shape(es + tail.take(k)).0 is Releasing
        &&& run_shape(es + tail.take(k)).1 == run_shape(es).1 + 1 - k
    } by {
        lemma_abort_prefix(es, tail, k);
    }
    lemma_abort_prefix(es, tail, tail.len() as int);
    assert(tail.take(tail.len() as int) =~= tail);
}

} // verus!
