//! Records of the forensic log: one when a query arrives, one per stream
//! chunk, one when streaming completes and one with the final result. Each
//! carries the time it was made. Writing them is left to the caller, which
//! ignores any failure to write.
use vstd::prelude::*;
use crate::prompt::{history_view, TurnView};
use crate::stream::{ResponseAccumulator, StreamChunk};
use crate::text::{decimal, decimal_string, head, head_of, tail, tail_of};

verus! {

/// How many characters of the result each preview shows.
pub const PREVIEW_CHARS: usize = 200;

pub open spec fn heavy_rule() -> Seq<char> {
    "================================================================================"@
}

pub open spec fn light_rule() -> Seq<char> {
    "----------------------------------------"@
}

/// The two lines that dump turn `i`.
pub open spec fn turn_entry(i: nat, t: TurnView) -> Seq<char> {
    "  History["@ + decimal(i) + "] Q: "@ + t.0 + "\n"@ + "  History["@ + decimal(i) + "] R: "@ + t.1 + "\n"@
}

/// The dump of the first `n` turns.
pub open spec fn history_dump(h: Seq<TurnView>, n: nat) -> Seq<char>
    decreases n,
{
    if n == 0 || n > h.len() {
        Seq::empty()
    } else {
        history_dump(h, (n - 1) as nat) + turn_entry((n - 1) as nat, h[n - 1])
    }
}

pub open spec fn query_record_text(timestamp: nat, query: Seq<char>, h: Seq<TurnView>) -> Seq<char> {
    "\n"@ + heavy_rule() + "\nTIMESTAMP: "@ + decimal(timestamp) + "\nINCOMING QUERY: "@ + query
        + "\nHISTORY LENGTH: "@ + decimal(h.len()) + "\n"@ + history_dump(h, h.len()) + heavy_rule()
        + "\n\n"@
}

pub open spec fn chunk_record_text(timestamp: nat, index: nat, c: StreamChunk) -> Seq<char> {
    "\n[RAW CHUNK "@ + decimal(index) + "]\nTIMESTAMP: "@ + decimal(timestamp) + "\nTool calls: "@
        + decimal(c.tool_calls as nat) + "\n"@ + match c.text {
        Some(t) => "Text: "@ + t@ + "\n"@,
        None => Seq::empty(),
    } + light_rule() + "\n"@
}

pub open spec fn stream_complete_text(timestamp: nat, fragments: nat, tool_calls: nat) -> Seq<char> {
    "\n[STREAMING COMPLETE]\nTIMESTAMP: "@ + decimal(timestamp) + "\nTotal text chunks: "@ + decimal(
        fragments,
    ) + "\nTotal tool calls detected: "@ + decimal(tool_calls) + "\n"@ + heavy_rule() + "\n"@
}

pub open spec fn result_record_text(timestamp: nat, result: Seq<char>) -> Seq<char> {
    "[RESULT RECEIVED]\nTIMESTAMP: "@ + decimal(timestamp) + "\nResult length: "@ + decimal(result.len())
        + " characters\nResult preview (first 200): "@ + head(result, PREVIEW_CHARS as nat)
        + "\nResult preview (last 200): "@ + tail(result, PREVIEW_CHARS as nat) + "\n"@ + heavy_rule()
        + "\n\n"@
}

/// The record of an arriving query, with the whole history it is sent with.
pub fn query_record(timestamp: u64, query: &str, history: &Vec<(String, String)>) -> (r: String)
    ensures
        r@ == query_record_text(timestamp as nat, query@, history_view(history@)),
{
    let ghost hv = history_view(history@);
    let mut out = String::from_str("\n");
    out.append("================================================================================");
    out.append("\nTIMESTAMP: ");
    out.append(decimal_string(timestamp).as_str());
    out.append("\nINCOMING QUERY: ");
    out.append(query);
    out.append("\nHISTORY LENGTH: ");
    out.append(decimal_string(history.len() as u64).as_str());
    out.append("\n");
    let ghost before = out@;
    let mut i: usize = 0;
    while i < history.len()
        invariant
            i <= history.len(),
            hv == history_view(history@),
            out@ == before + history_dump(hv, i as nat),
        decreases history.len() - i,
    {
        let idx = decimal_string(i as u64);
        let turn = &history[i];
        let ghost prev = out@;
        out.append("  History[");
        out.append(idx.as_str());
        out.append("] Q: ");
        out.append(turn.0.as_str());
        out.append("\n");
        out.append("  History[");
        out.append(idx.as_str());
        out.append("] R: ");
        out.append(turn.1.as_str());
        out.append("\n");
        assert(out@ =~= prev + turn_entry(i as nat, hv[i as int]));
        assert(history_dump(hv, (i + 1) as nat) == history_dump(hv, i as nat) + turn_entry(i as nat, hv[i as int]));
        i = i + 1;
    }
    out.append("================================================================================");
    out.append("\n\n");
    assert(out@ =~= query_record_text(timestamp as nat, query@, hv));
    out
}

/// The record of one stream chunk; `index` counts chunks from one.
pub fn chunk_record(timestamp: u64, index: u64, chunk: &StreamChunk) -> (r: String)
    ensures
        r@ == chunk_record_text(timestamp as nat, index as nat, *chunk),
{
    let mut out = String::from_str("\n[RAW CHUNK ");
    out.append(decimal_string(index).as_str());
    out.append("]\nTIMESTAMP: ");
    out.append(decimal_string(timestamp).as_str());
    out.append("\nTool calls: ");
    out.append(decimal_string(chunk.tool_calls).as_str());
    out.append("\n");
    match &chunk.text {
        Some(t) => {
            out.append("Text: ");
            out.append(t.as_str());
            out.append("\n");
        },
        None => {},
    }
    out.append("----------------------------------------");
    out.append("\n");
    assert(out@ =~= chunk_record_text(timestamp as nat, index as nat, *chunk));
    out
}

/// The record written when the stream is exhausted.
pub fn stream_complete_record(timestamp: u64, acc: &ResponseAccumulator) -> (r: String)
    ensures
        r@ == stream_complete_text(
            timestamp as nat,
            acc.fragments_view().len(),
            acc.tool_call_count as nat,
        ),
{
    let mut out = String::from_str("\n[STREAMING COMPLETE]\nTIMESTAMP: ");
    out.append(decimal_string(timestamp).as_str());
    out.append("\nTotal text chunks: ");
    out.append(decimal_string(acc.text_fragment_count() as u64).as_str());
    out.append("\nTotal tool calls detected: ");
    out.append(decimal_string(acc.tool_call_count).as_str());
    out.append("\n");
    out.append("================================================================================");
    out.append("\n");
    assert(out@ =~= stream_complete_text(
        timestamp as nat,
        acc.fragments_view().len(),
        acc.tool_call_count as nat,
    ));
    out
}

/// The record of the final result: its length and both ends of it.
pub fn result_record(timestamp: u64, result: &str) -> (r: String)
    ensures
        r@ == result_record_text(timestamp as nat, result@),
{
    let mut out = String::from_str("[RESULT RECEIVED]\nTIMESTAMP: ");
    out.append(decimal_string(timestamp).as_str());
    out.append("\nResult length: ");
    out.append(decimal_string(result.unicode_len() as u64).as_str());
    out.append(" characters\nResult preview (first 200): ");
    out.append(head_of(result, PREVIEW_CHARS).as_str());
    out.append("\nResult preview (last 200): ");
    out.append(tail_of(result, PREVIEW_CHARS).as_str());
    out.append("\n");
    out.append("================================================================================");
    out.append("\n\n");
    assert(out@ =~= result_record_text(timestamp as nat, result@));
    out
}

} // verus!
