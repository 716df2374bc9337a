use dba_bridge::prompt::{assemble_prompt, format_history};
use dba_bridge::stream::{aggregate_stream, ResponseAccumulator, StreamChunk};

fn turns(pairs: &[(&str, &str)]) -> Vec<(String, String)> {
    pairs.iter().map(|(q, r)| (q.to_string(), r.to_string())).collect()
}

fn text_chunk(t: &str) -> StreamChunk {
    StreamChunk { text: Some(t.to_string()), tool_calls: 0 }
}

#[test]
fn empty_history_prompt_is_raw_query() {
    let h: Vec<(String, String)> = Vec::new();
    assert_eq!(assemble_prompt(&h, "list all tables"), "list all tables");
}

#[test]
fn prompt_with_history_exact_text() {
    let h = turns(&[("q1", "r1"), ("q2", "r2")]);
    let p = assemble_prompt(&h, "q3");
    assert_eq!(
        p,
        "Previous conversation:\nUser: q1\nAssistant: r1\n---\nUser: q2\nAssistant: r2\n---\nCurrent question: q3\n\nPlease answer based on the context from our previous conversation."
    );
}

#[test]
fn prompt_is_deterministic() {
    let h = turns(&[("show indexes", "there are 3"), ("which is largest?", "IX_big")]);
    let a = assemble_prompt(&h, "drop it?");
    let b = assemble_prompt(&h, "drop it?");
    assert_eq!(a, b);
}

#[test]
fn prompt_keeps_turns_in_order_and_query_last() {
    let h = turns(&[("alpha-q", "alpha-r"), ("beta-q", "beta-r"), ("gamma-q", "gamma-r")]);
    let p = assemble_prompt(&h, "delta-q");
    let mut last = 0;
    for needle in ["alpha-q", "alpha-r", "beta-q", "beta-r", "gamma-q", "gamma-r", "delta-q"] {
        let at = p[last..].find(needle).expect("text missing from prompt") + last;
        assert!(at >= last);
        last = at + needle.len();
    }
}

#[test]
fn single_turn_history_format() {
    let h = turns(&[("how many rows?", "42")]);
    assert_eq!(format_history(&h), "User: how many rows?\nAssistant: 42");
    let empty: Vec<(String, String)> = Vec::new();
    assert_eq!(format_history(&empty), "");
}

#[test]
fn stream_hello_world_aggregates() {
    let chunks = vec![text_chunk("Hello, "), text_chunk("world"), text_chunk("")];
    assert_eq!(aggregate_stream(&chunks), "Hello, world");
}

#[test]
fn zero_chunk_stream_gives_sentinel() {
    let chunks: Vec<StreamChunk> = Vec::new();
    assert_eq!(aggregate_stream(&chunks), "No response from agent");
}

#[test]
fn stream_of_empty_or_tool_only_chunks_gives_sentinel() {
    let chunks = vec![
        StreamChunk { text: None, tool_calls: 2 },
        text_chunk(""),
        StreamChunk { text: None, tool_calls: 1 },
    ];
    assert_eq!(aggregate_stream(&chunks), "No response from agent");
}

#[test]
fn accumulator_counts_fragments_and_tool_calls() {
    let mut acc = ResponseAccumulator::new();
    acc.absorb(&StreamChunk { text: None, tool_calls: 2 });
    acc.absorb(&StreamChunk { text: Some("A".to_string()), tool_calls: 1 });
    acc.absorb(&text_chunk(""));
    acc.absorb(&text_chunk("B"));
    assert_eq!(acc.text_fragment_count(), 2);
    assert_eq!(acc.tool_call_count, 3);
    assert_eq!(acc.answer(), "AB");
}

#[test]
fn tool_call_count_saturates() {
    let mut acc = ResponseAccumulator::new();
    acc.absorb(&StreamChunk { text: None, tool_calls: u64::MAX - 1 });
    acc.absorb(&StreamChunk { text: None, tool_calls: 5 });
    assert_eq!(acc.tool_call_count, u64::MAX);
}

#[test]
fn fragments_keep_arrival_order_without_dedup() {
    let chunks = vec![text_chunk("b"), text_chunk("a"), text_chunk("a"), text_chunk("c")];
    assert_eq!(aggregate_stream(&chunks), "baac");
}
