use dba_bridge::bootstrap::{initialize_python, EnvironmentDirs};
use dba_bridge::commands::{
    clear_conversation, connect_database, get_connection_status, greet, run_dba_query, AppState,
    ConnectionInfo,
};
use dba_bridge::forensic::{chunk_record, query_record, result_record, stream_complete_record};
use dba_bridge::prompt::assemble_prompt;
use dba_bridge::session::AgentError;
use dba_bridge::stream::{ResponseAccumulator, StreamChunk};
use dba_bridge::text::{decimal_string, head_of, tail_of};

fn heavy() -> String {
    "=".repeat(80)
}

fn dirs() -> EnvironmentDirs {
    EnvironmentDirs {
        project_dir: "/w/app".to_string(),
        project_root: "/w".to_string(),
        venv_dir: "/.venv".to_string(),
        site_packages: "/.venv/lib/python3.13/site-packages".to_string(),
    }
}

#[test]
fn decimal_rendering() {
    assert_eq!(decimal_string(0), "0");
    assert_eq!(decimal_string(7), "7");
    assert_eq!(decimal_string(10), "10");
    assert_eq!(decimal_string(1234567890), "1234567890");
    assert_eq!(decimal_string(u64::MAX), "18446744073709551615");
}

#[test]
fn previews_cut_by_characters() {
    assert_eq!(head_of("abcdef", 3), "abc");
    assert_eq!(tail_of("abcdef", 3), "def");
    assert_eq!(head_of("ab", 3), "ab");
    assert_eq!(tail_of("ab", 3), "ab");
    assert_eq!(head_of("äöüß", 2), "äö");
    assert_eq!(tail_of("äöüß", 2), "üß");
}

#[test]
fn query_record_dumps_history() {
    let h = vec![("q0".to_string(), "r0".to_string()), ("q1".to_string(), "r1".to_string())];
    let r = query_record(1700000000, "next?", &h);
    let expected = format!(
        "\n{}\nTIMESTAMP: 1700000000\nINCOMING QUERY: next?\nHISTORY LENGTH: 2\n  History[0] Q: q0\n  History[0] R: r0\n  History[1] Q: q1\n  History[1] R: r1\n{}\n\n",
        heavy(),
        heavy()
    );
    assert_eq!(r, expected);
}

#[test]
fn chunk_record_with_and_without_text() {
    let c = StreamChunk { text: Some("hi".to_string()), tool_calls: 2 };
    assert_eq!(
        chunk_record(5, 1, &c),
        format!("\n[RAW CHUNK 1]\nTIMESTAMP: 5\nTool calls: 2\nText: hi\n{}\n", "-".repeat(40))
    );
    let c = StreamChunk { text: None, tool_calls: 0 };
    assert_eq!(
        chunk_record(6, 12, &c),
        format!("\n[RAW CHUNK 12]\nTIMESTAMP: 6\nTool calls: 0\n{}\n", "-".repeat(40))
    );
}

#[test]
fn stream_complete_record_counts() {
    let mut acc = ResponseAccumulator::new();
    acc.absorb(&StreamChunk { text: Some("a".to_string()), tool_calls: 3 });
    acc.absorb(&StreamChunk { text: Some("b".to_string()), tool_calls: 0 });
    assert_eq!(
        stream_complete_record(9, &acc),
        format!("\n[STREAMING COMPLETE]\nTIMESTAMP: 9\nTotal text chunks: 2\nTotal tool calls detected: 3\n{}\n", heavy())
    );
}

#[test]
fn result_record_previews_long_result() {
    let result = format!("{}{}{}", "A".repeat(200), "M".repeat(100), "Z".repeat(200));
    let r = result_record(3, &result);
    let expected = format!(
        "[RESULT RECEIVED]\nTIMESTAMP: 3\nResult length: 500 characters\nResult preview (first 200): {}\nResult preview (last 200): {}\n{}\n\n",
        "A".repeat(200),
        "Z".repeat(200),
        heavy()
    );
    assert_eq!(r, expected);
}

#[test]
fn result_record_short_result_shown_whole() {
    let r = result_record(0, "ok");
    assert!(r.contains("Result length: 2 characters\nResult preview (first 200): ok\nResult preview (last 200): ok\n"));
}

#[test]
fn bootstrap_puts_environment_first_and_dedups() {
    let current = vec!["/usr/lib/python313.zip".to_string(), "/w".to_string(), "/usr/lib/python3.13".to_string()];
    let p = initialize_python(&current, &dirs(), true).unwrap();
    assert_eq!(
        p,
        vec![
            "/w".to_string(),
            "/w/app".to_string(),
            "/.venv/lib/python3.13/site-packages".to_string(),
            "/usr/lib/python313.zip".to_string(),
            "/usr/lib/python3.13".to_string(),
        ]
    );
}

#[test]
fn bootstrap_is_idempotent() {
    let current = vec!["/a".to_string(), "/w/app".to_string(), "/b".to_string()];
    let once = initialize_python(&current, &dirs(), true).unwrap();
    let twice = initialize_python(&once, &dirs(), true).unwrap();
    assert_eq!(once, twice);
}

#[test]
fn bootstrap_without_environment_fails() {
    let current: Vec<String> = Vec::new();
    let err = initialize_python(&current, &dirs(), false).unwrap_err();
    assert_eq!(err.message, "dependency environment not found at /.venv");
}

#[test]
fn greet_by_name() {
    assert_eq!(greet("Ada"), "Hello, Ada! Welcome to RDBMS Assistant.");
}

#[test]
fn default_state_is_disconnected_and_empty() {
    let s = AppState::default();
    let st = get_connection_status(&s);
    assert!(!st.is_connected);
    assert_eq!(st.server, None);
    assert_eq!(st.database, None);
    assert_eq!(s.history_len(), 0);
}

#[test]
fn connect_records_metadata() {
    let mut s = AppState::default();
    let info = ConnectionInfo { server: "db01".to_string(), database: "sales".to_string(), username: None };
    assert_eq!(connect_database(info, &mut s).unwrap(), "Connected to db01.sales");
    let st = get_connection_status(&s);
    assert!(st.is_connected);
    assert_eq!(st.server.as_deref(), Some("db01"));
    assert_eq!(st.database.as_deref(), Some("sales"));
}

#[test]
fn successful_query_appends_one_turn() {
    let mut s = AppState::default();
    let r = run_dba_query("q1".to_string(), Ok("a1".to_string()), 17, &mut s).unwrap();
    assert!(r.success);
    assert_eq!(r.message, "Query executed successfully");
    assert_eq!(r.data.as_deref(), Some("a1"));
    assert_eq!(r.execution_time_ms, 17);
    assert_eq!(s.history_snapshot(), vec![("q1".to_string(), "a1".to_string())]);
    let p = assemble_prompt(&s.history_snapshot(), "q2");
    assert!(p.contains("User: q1\nAssistant: a1"));
}

#[test]
fn failed_query_leaves_history_unchanged() {
    let mut s = AppState::default();
    run_dba_query("q1".to_string(), Ok("a1".to_string()), 1, &mut s).unwrap();
    let err = AgentError { message: "boom".to_string(), trace: "tb".to_string() };
    let r = run_dba_query("q2".to_string(), Err(err), 2, &mut s);
    assert_eq!(r.unwrap_err(), "Error: boom\n\nTraceback:\ntb");
    assert_eq!(s.history_snapshot(), vec![("q1".to_string(), "a1".to_string())]);
}

#[test]
fn clear_then_status_and_new_query_see_empty_history() {
    let mut s = AppState::default();
    let info = ConnectionInfo { server: "srv".to_string(), database: "db".to_string(), username: Some("sa".to_string()) };
    connect_database(info, &mut s).unwrap();
    run_dba_query("q1".to_string(), Ok("a1".to_string()), 1, &mut s).unwrap();
    run_dba_query("q2".to_string(), Ok("a2".to_string()), 1, &mut s).unwrap();
    assert_eq!(clear_conversation(&mut s), "Conversation cleared");
    assert_eq!(s.history_len(), 0);
    assert!(get_connection_status(&s).is_connected);
    assert_eq!(assemble_prompt(&s.history_snapshot(), "fresh"), "fresh");
}
