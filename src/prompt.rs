//! Turns the conversation so far and a new question into one prompt text.
use vstd::prelude::*;

verus! {

/// One recorded turn as plain text: the user's query and the answer given.
pub type TurnView = (Seq<char>, Seq<char>);

/// The text view of a history of `(query, response)` pairs.
pub open spec fn history_view(h: Seq<(String, String)>) -> Seq<TurnView> {
    Seq::new(h.len(), |i: int| (h[i].0@, h[i].1@))
}

pub open spec fn user_label() -> Seq<char> {
    "User: "@
}

pub open spec fn assistant_label() -> Seq<char> {
    "\nAssistant: "@
}

pub open spec fn turn_separator() -> Seq<char> {
    "\n---\n"@
}

pub open spec fn history_intro() -> Seq<char> {
    "Previous conversation:\n"@
}

pub open spec fn question_intro() -> Seq<char> {
    "\n---\nCurrent question: "@
}

pub open spec fn closing_request() -> Seq<char> {
    "\n\nPlease answer based on the context from our previous conversation."@
}

/// How one turn reads inside the prompt.
pub open spec fn turn_block(t: TurnView) -> Seq<char> {
    user_label() + t.0 + assistant_label() + t.1
}

/// All turns, oldest first, with a separator between neighbours.
pub open spec fn joined_turns(h: Seq<TurnView>) -> Seq<char>
    decreases h.len(),
{
    if h.len() == 0 {
        Seq::empty()
    } else if h.len() == 1 {
        turn_block(h[0])
    } else {
        joined_turns(h.drop_last()) + turn_separator() + turn_block(h.last())
    }
}

/// The prompt for `q` after the turns `h`: the bare query when there is no
/// history, else the history block followed by the question.
pub open spec fn assembled_prompt(h: Seq<TurnView>, q: Seq<char>) -> Seq<char> {
    if h.len() == 0 {
        q
    } else {
        history_intro() + joined_turns(h) + question_intro() + q + closing_request()
    }
}

/// Renders all recorded turns, oldest first.
pub fn format_history(history: &Vec<(String, String)>) -> (r: String)
    ensures
        r@ == joined_turns(history_view(history@)),
{
    let ghost hv = history_view(history@);
    let mut out = String::new();
    let mut i: usize = 0;
    while i < history.len()
        invariant
            i <= history.len(),
            hv == history_view(history@),
            out@ == joined_turns(hv.take(i as int)),
        decreases history.len() - i,
    {
        proof {
            reveal_strlit("User: ");
            reveal_strlit("\nAssistant: ");
            reveal_strlit("\n---\n");
        }
        let ghost before = out@;
        if i > 0 {
            out.append("\n---\n");
        }
        out.append("User: ");
        out.append(history[i].0.as_str());
        out.append("\nAssistant: ");
        out.append(history[i].1.as_str());
        proof {
            let t = hv.take(i as int + 1);
            assert(t.drop_last() =~= hv.take(i as int));
            assert(t.last() == hv[i as int]);
            if i == 0 {
                assert(out@ =~= turn_block(t[0]));
            } else {
                assert(out@ =~= before + turn_separator() + turn_block(t.last()));
            }
        }
        i = i + 1;
    }
    assert(hv.take(history.len() as int) =~= hv);
    out
}

/// Builds the prompt for `query` from the turns recorded so far.
pub fn assemble_prompt(history: &Vec<(String, String)>, query: &str) -> (r: String)
    ensures
        r@ == assembled_prompt(history_view(history@), query@),
{
    if history.len() == 0 {
        return String::from_str(query);
    }
    let joined = format_history(history);
    let mut out = String::from_str("Previous conversation:\n");
    out.append(joined.as_str());
    out.append("\n---\nCurrent question: ");
    out.append(query);
    out.append("\n\nPlease answer based on the context from our previous conversation.");
    assert(out@ =~= assembled_prompt(history_view(history@), query@));
    out
}

/// Where turn `i` of `h` starts inside `joined_turns(h)`.
pub open spec fn block_start(h: Seq<TurnView>, i: int) -> int {
    if i == 0 {
        0
    } else {
        (joined_turns(h.take(i)).len() + turn_separator().len()) as int
    }
}

/// Where the query of turn `i` starts inside the assembled prompt.
pub open spec fn turn_query_pos(h: Seq<TurnView>, i: int) -> int {
    history_intro().len() + block_start(h, i) + user_label().len()
}

/// Where the response of turn `i` starts inside the assembled prompt.
pub open spec fn turn_response_pos(h: Seq<TurnView>, i: int) -> int {
    turn_query_pos(h, i) + h[i].0.len() + assistant_label().len()
}

/// Where the new question starts inside the assembled prompt.
pub open spec fn current_query_pos(h: Seq<TurnView>) -> int {
    (history_intro().len() + joined_turns(h).len() + question_intro().len()) as int
}

/// `t` stands in `s` from position `k` on.
pub open spec fn occurs_at(s: Seq<char>, t: Seq<char>, k: int) -> bool {
    &&& 0 <= k
    &&& k + t.len() <= s.len()
    &&& s.subrange(k, k + t.len()) == t
}

proof fn lemma_blocks_in_joined(h: Seq<TurnView>)
    ensures
        forall|i: int|
            0 <= i < h.len() ==> occurs_at(joined_turns(h), turn_block(h[i]), #[trigger] block_start(h, i)),
        forall|i: int|
            0 <= i < h.len() - 1 ==> block_start(h, i) + turn_block(h[i]).len() < #[trigger] block_start(h, i + 1),
        h.len() > 0 ==> block_start(h, h.len() - 1) + turn_block(h.last()).len() == joined_turns(h).len(),
    decreases h.len(),
{
    reveal_strlit("\n---\n");
    if h.len() == 0 {
    } else if h.len() == 1 {
        assert(joined_turns(h).subrange(0, turn_block(h[0]).len() as int) =~= turn_block(h[0]));
    } else {
        let p = h.drop_last();
        lemma_blocks_in_joined(p);
        let j = joined_turns(h);
        assert(j == joined_turns(p) + turn_separator() + turn_block(h.last()));
        assert forall|i: int| 0 <= i < h.len() - 1 implies block_start(h, i) == block_start(p, i) by {
            assert(h.take(i) =~= p.take(i));
        }
        assert(h.take(h.len() - 1) =~= p);
        assert forall|i: int|
            0 <= i < h.len() implies occurs_at(j, turn_block(h[i]), #[trigger] block_start(h, i)) by {
            if i < h.len() - 1 {
                assert(h[i] == p[i]);
                assert(occurs_at(joined_turns(p), turn_block(p[i]), block_start(p, i)));
                assert(j.subrange(block_start(h, i), block_start(h, i) + turn_block(h[i]).len())
                    =~= joined_turns(p).subrange(block_start(p, i), block_start(p, i) + turn_block(p[i]).len()));
            } else {
                assert(j.subrange(block_start(h, i), block_start(h, i) + turn_block(h[i]).len())
                    =~= turn_block(h.last()));
            }
        }
        assert forall|i: int|
            0 <= i < h.len() - 1 implies block_start(h, i) + turn_block(h[i]).len() < #[trigger] block_start(h, i + 1) by {
            if i < h.len() - 2 {
                assert(block_start(p, i) + turn_block(p[i]).len() < block_start(p, i + 1));
            } else {
                assert(block_start(p, i) + turn_block(p[i]).len() == joined_turns(p).len());
            }
        }
    }
}

/// Building a prompt is a function of its inputs: equal histories and
/// queries give equal prompts.
pub proof fn lemma_prompt_deterministic(h1: Seq<TurnView>, q1: Seq<char>, h2: Seq<TurnView>, q2: Seq<char>)
    requires
        h1 == h2,
        q1 == q2,
    ensures
        assembled_prompt(h1, q1) == assembled_prompt(h2, q2),
{
}

/// With no history the prompt is the query itself, with nothing around it.
pub proof fn lemma_empty_history_prompt(q: Seq<char>)
    ensures
        assembled_prompt(Seq::empty(), q) == q,
{
}

/// With a history, the prompt holds each turn's query and response in the
/// order they were recorded, and the new query after all of them.
pub proof fn lemma_prompt_keeps_turns_in_order(h: Seq<TurnView>, q: Seq<char>)
    requires
        h.len() > 0,
    ensures
        forall|i: int|
            0 <= i < h.len() ==> {
                &&& occurs_at(assembled_prompt(h, q), h[i].0, #[trigger] turn_query_pos(h, i))
                &&& occurs_at(assembled_prompt(h, q), h[i].1, turn_response_pos(h, i))
                &&& turn_query_pos(h, i) + h[i].0.len() <= turn_response_pos(h, i)
            },
        forall|i: int|
            0 <= i < h.len() - 1 ==> turn_response_pos(h, i) + h[i].1.len() <= #[trigger] turn_query_pos(h, i + 1),
        turn_response_pos(h, h.len() - 1) + h.last().1.len() <= current_query_pos(h),
        occurs_at(assembled_prompt(h, q), q, current_query_pos(h)),
{
    reveal_strlit("User: ");
    reveal_strlit("\nAssistant: ");
    reveal_strlit("Previous conversation:\n");
    reveal_strlit("\n---\nCurrent question: ");
    lemma_blocks_in_joined(h);
    let p = assembled_prompt(h, q);
    let j = joined_turns(h);
    let n: int = history_intro().len() as int;
    assert(p == history_intro() + j + question_intro() + q + closing_request());
    assert forall|i: int| 0 <= i < h.len() implies {
        &&& occurs_at(p, h[i].0, #[trigger] turn_query_pos(h, i))
        &&& occurs_at(p, h[i].1, turn_response_pos(h, i))
        &&& turn_query_pos(h, i) + h[i].0.len() <= turn_response_pos(h, i)
    } by {
        let b = block_start(h, i);
        let blk = turn_block(h[i]);
        assert(occurs_at(j, blk, b));
        assert(p.subrange(n + b, n + b + blk.len()) =~= j.subrange(b, b + blk.len()));
        assert(p.subrange(turn_query_pos(h, i), turn_query_pos(h, i) + h[i].0.len())
            =~= blk.subrange(user_label().len() as int, user_label().len() + h[i].0.len() as int));
        assert(blk.subrange(user_label().len() as int, user_label().len() + h[i].0.len() as int) =~= h[i].0);
        let rs: int = (user_label().len() + h[i].0.len() + assistant_label().len()) as int;
        assert(p.subrange(turn_response_pos(h, i), turn_response_pos(h, i) + h[i].1.len())
            =~= blk.subrange(rs, rs + h[i].1.len()));
        assert(blk.subrange(rs, rs + h[i].1.len()) =~= h[i].1);
    }
    assert forall|i: int| 0 <= i < h.len() - 1 implies turn_response_pos(h, i) + h[i].1.len()
        <= #[trigger] turn_query_pos(h, i + 1) by {
        assert(block_start(h, i) + turn_block(h[i]).len() < block_start(h, i + 1));
    }
    let cq = current_query_pos(h);
    assert(p.subrange(cq, cq + q.len()) =~= q);
}

} // verus!
