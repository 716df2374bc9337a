//! The operations the host calls, over the state shared between them:
//! connection metadata and the conversation so far.
use vstd::prelude::*;
use crate::session::{error_text, AgentError};

verus! {

/// What the host keeps between commands. The host guards it with one lock,
/// taken only for a single read or update.
#[derive(Debug)]
pub struct AppState {
    pub is_connected: bool,
    pub server_name: Option<String>,
    pub database_name: Option<String>,
    /// `(user_query, assistant_response)` pairs, oldest first.
    pub conversation_history: Vec<(String, String)>,
}

impl Default for AppState {
    fn default() -> (r: AppState)
        ensures
            !r.is_connected,
            r.server_name is None,
            r.database_name is None,
            r.conversation_history@.len() == 0,
    {
        AppState {
            is_connected: false,
            server_name: None,
            database_name: None,
            conversation_history: Vec::new(),
        }
    }
}

impl AppState {
    /// A copy of the conversation so far, taken before a query is sent.
    pub fn history_snapshot(&self) -> (r: Vec<(String, String)>)
        ensures
            r@ == self.conversation_history@,
    {
        let mut out: Vec<(String, String)> = Vec::new();
        let mut i: usize = 0;
        while i < self.conversation_history.len()
            invariant
                i <= self.conversation_history.len(),
                out@ == self.conversation_history@.take(i as int),
            decreases self.conversation_history.len() - i,
        {
            let turn = &self.conversation_history[i];
            out.push((turn.0.clone(), turn.1.clone()));
            assert(out@ =~= self.conversation_history@.take(i as int + 1));
            i = i + 1;
        }
        assert(self.conversation_history@.take(i as int) =~= self.conversation_history@);
        out
    }

    /// How many turns are recorded.
    pub fn history_len(&self) -> (n: usize)
        ensures
            n == self.conversation_history@.len(),
    {
        self.conversation_history.len()
    }
}

/// Where to connect, as the user gave it.
#[derive(Debug)]
pub struct ConnectionInfo {
    pub server: String,
    pub database: String,
    pub username: Option<String>,
}

/// The reply to a query.
#[derive(Debug)]
pub struct QueryResult {
    pub success: bool,
    pub message: String,
    pub data: Option<String>,
    pub execution_time_ms: u64,
}

/// What is known of the connection.
#[derive(Debug)]
pub struct ConnectionStatus {
    pub is_connected: bool,
    pub server: Option<String>,
    pub database: Option<String>,
}

pub open spec fn greeting(name: Seq<char>) -> Seq<char> {
    "Hello, "@ + name + "! Welcome to RDBMS Assistant."@
}

pub open spec fn query_success_message() -> Seq<char> {
    "Query executed successfully"@
}

pub open spec fn cleared_message() -> Seq<char> {
    "Conversation cleared"@
}

pub open spec fn connected_message(server: Seq<char>, database: Seq<char>) -> Seq<char> {
    "Connected to "@ + server + "."@ + database
}

/// The conversation after a query completes with `outcome`: one whole turn
/// more on success, unchanged on failure.
pub open spec fn history_after(
    h: Seq<(String, String)>,
    query: String,
    outcome: Result<String, AgentError>,
) -> Seq<(String, String)> {
    match outcome {
        Ok(answer) => h.push((query, answer)),
        Err(_) => h,
    }
}

/// The conversation after several completions, taken one at a time.
pub open spec fn history_after_all(
    h: Seq<(String, String)>,
    done: Seq<(String, Result<String, AgentError>)>,
) -> Seq<(String, String)>
    decreases done.len(),
{
    if done.len() == 0 {
        h
    } else {
        let last = done.last();
        history_after(history_after_all(h, done.drop_last()), last.0, last.1)
    }
}

/// The turns that successful completions contribute, in completion order.
pub open spec fn successful_turns(done: Seq<(String, Result<String, AgentError>)>) -> Seq<(String, String)>
    decreases done.len(),
{
    if done.len() == 0 {
        Seq::empty()
    } else {
        let last = done.last();
        match last.1 {
            Ok(answer) => successful_turns(done.drop_last()).push((last.0, answer)),
            Err(_) => successful_turns(done.drop_last()),
        }
    }
}

/// However completions are ordered, each one that succeeded adds its whole
/// turn, query and answer together, after what was there; failures add
/// nothing and nothing else is changed.
pub proof fn lemma_completions_append_whole_turns(
    h: Seq<(String, String)>,
    done: Seq<(String, Result<String, AgentError>)>,
)
    ensures
        history_after_all(h, done) == h + successful_turns(done),
    decreases done.len(),
{
    if done.len() == 0 {
        assert(h + Seq::<(String, String)>::empty() =~= h);
    } else {
        lemma_completions_append_whole_turns(h, done.drop_last());
        let last = done.last();
        match last.1 {
            Ok(answer) => {
                assert((h + successful_turns(done.drop_last())).push((last.0, answer))
                    =~= h + successful_turns(done.drop_last()).push((last.0, answer)));
            },
            Err(_) => {},
        }
    }
}

/// Greets the user by name.
pub fn greet(name: &str) -> (r: String)
    ensures
        r@ == greeting(name@),
{
    let mut out = String::from_str("Hello, ");
    out.append(name);
    out.append("! Welcome to RDBMS Assistant.");
    out
}

/// Completes a query once its agent session has finished with `outcome`,
/// which took `execution_time_ms`. A success appends the whole turn to the
/// conversation and is returned with its timing; a failure is returned as
/// its error text and leaves the state as it was.
pub fn run_dba_query(
    query: String,
    outcome: Result<String, AgentError>,
    execution_time_ms: u64,
    state: &mut AppState,
) -> (r: Result<QueryResult, String>)
    ensures
        outcome is Ok ==> {
            let answer = outcome->Ok_0;
            &&& r is Ok
            &&& r->Ok_0.success
            &&& r->Ok_0.message@ == query_success_message()
            &&& r->Ok_0.data == Some(answer)
            &&& r->Ok_0.execution_time_ms == execution_time_ms
            &&& final(state).conversation_history@ == old(state).conversation_history@.push((query, answer))
            &&& final(state).conversation_history@ == history_after(
                old(state).conversation_history@,
                query,
                outcome,
            )
            &&& final(state).is_connected == old(state).is_connected
            &&& final(state).server_name == old(state).server_name
            &&& final(state).database_name == old(state).database_name
        },
        outcome is Err ==> {
            &&& r is Err
            &&& r->Err_0@ == error_text(outcome->Err_0@)
            &&& *final(state) == *old(state)
            &&& final(state).conversation_history@ == history_after(
                old(state).conversation_history@,
                query,
                outcome,
            )
        },
{
    match outcome {
        Ok(answer) => {
            state.conversation_history.push((query, answer.clone()));
            Ok(
                QueryResult {
                    success: true,
                    message: String::from_str("Query executed successfully"),
                    data: Some(answer),
                    execution_time_ms,
                },
            )
        },
        Err(e) => Err(e.describe()),
    }
}

/// Forgets the whole conversation at once.
pub fn clear_conversation(state: &mut AppState) -> (r: String)
    ensures
        r@ == cleared_message(),
        final(state).conversation_history@.len() == 0,
        final(state).is_connected == old(state).is_connected,
        final(state).server_name == old(state).server_name,
        final(state).database_name == old(state).database_name,
{
    state.conversation_history.clear();
    String::from_str("Conversation cleared")
}

/// Records the connection the user asked for. Nothing is contacted here:
/// the tool-protocol server connects when a query runs.
pub fn connect_database(connection_info: ConnectionInfo, state: &mut AppState) -> (r: Result<
    String,
    String,
>)
    ensures
        r is Ok,
        r->Ok_0@ == connected_message(connection_info.server@, connection_info.database@),
        final(state).is_connected,
        final(state).server_name == Some(connection_info.server),
        final(state).database_name == Some(connection_info.database),
        final(state).conversation_history == old(state).conversation_history,
{
    let mut msg = String::from_str("Connected to ");
    msg.append(connection_info.server.as_str());
    msg.append(".");
    msg.append(connection_info.database.as_str());
    state.is_connected = true;
    state.server_name = Some(connection_info.server);
    state.database_name = Some(connection_info.database);
    Ok(msg)
}

/// Reports the recorded connection.
pub fn get_connection_status(state: &AppState) -> (r: ConnectionStatus)
    ensures
        r.is_connected == state.is_connected,
        r.server == state.server_name,
        r.database == state.database_name,
{
    ConnectionStatus {
        is_connected: state.is_connected,
        server: state.server_name.clone(),
        database: state.database_name.clone(),
    }
}

} // verus!
