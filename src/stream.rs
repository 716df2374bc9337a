//! Folding a streamed agent response into one answer text.
use vstd::prelude::*;

verus! {

/// One unit of a streamed response: an optional text fragment and the number
/// of tool invocations it announced.
#[derive(Debug)]
pub struct StreamChunk {
    pub text: Option<String>,
    pub tool_calls: u64,
}

/// The answer given when the stream carried no text at all.
pub open spec fn no_response() -> Seq<char> {
    "No response from agent"@
}

/// The text a chunk contributes: its fragment when that is not empty.
pub open spec fn chunk_fragments(c: StreamChunk) -> Seq<Seq<char>> {
    match c.text {
        Some(t) => if t@.len() > 0 {
            seq![t@]
        } else {
            Seq::empty()
        },
        None => Seq::empty(),
    }
}

/// The text of a chunk, empty when it has none.
pub open spec fn chunk_text(c: StreamChunk) -> Seq<char> {
    match c.text {
        Some(t) => t@,
        None => Seq::empty(),
    }
}

/// The non-empty fragments of a stream, in arrival order.
pub open spec fn stream_fragments(cs: Seq<StreamChunk>) -> Seq<Seq<char>>
    decreases cs.len(),
{
    if cs.len() == 0 {
        Seq::empty()
    } else {
        stream_fragments(cs.drop_last()) + chunk_fragments(cs.last())
    }
}

/// All the text of a stream, chunk after chunk.
pub open spec fn stream_text(cs: Seq<StreamChunk>) -> Seq<char>
    decreases cs.len(),
{
    if cs.len() == 0 {
        Seq::empty()
    } else {
        stream_text(cs.drop_last()) + chunk_text(cs.last())
    }
}

/// The fragments joined end to end.
pub open spec fn concat_all(fs: Seq<Seq<char>>) -> Seq<char>
    decreases fs.len(),
{
    if fs.len() == 0 {
        Seq::empty()
    } else {
        concat_all(fs.drop_last()) + fs.last()
    }
}

/// The final answer made of the fragments received.
pub open spec fn final_answer(fs: Seq<Seq<char>>) -> Seq<char> {
    if fs.len() == 0 {
        no_response()
    } else {
        concat_all(fs)
    }
}

/// Tool invocations counted so far, held at `u64::MAX` once it is reached.
pub open spec fn add_tool_calls(count: u64, n: u64) -> u64 {
    if count + n > u64::MAX {
        u64::MAX
    } else {
        (count + n) as u64
    }
}

/// The tool invocations announced by a whole stream.
pub open spec fn stream_tool_calls(cs: Seq<StreamChunk>) -> u64
    decreases cs.len(),
{
    if cs.len() == 0 {
        0
    } else {
        add_tool_calls(stream_tool_calls(cs.drop_last()), cs.last().tool_calls)
    }
}

/// Fragments and tool-invocation count gathered during one streaming call.
#[derive(Debug)]
pub struct ResponseAccumulator {
    pub fragments: Vec<String>,
    pub tool_call_count: u64,
}

impl ResponseAccumulator {
    /// The fragments as text.
    pub open spec fn fragments_view(&self) -> Seq<Seq<char>> {
        Seq::new(self.fragments@.len(), |i: int| self.fragments@[i]@)
    }

    pub fn new() -> (r: ResponseAccumulator)
        ensures
            r.fragments_view() == Seq::<Seq<char>>::empty(),
            r.tool_call_count == 0,
    {
        let r = ResponseAccumulator { fragments: Vec::new(), tool_call_count: 0 };
        assert(r.fragments_view() =~= Seq::<Seq<char>>::empty());
        r
    }

    /// Takes in one chunk: keeps its fragment when it is not empty and counts
    /// its tool invocations.
    pub fn absorb(&mut self, chunk: &StreamChunk)
        ensures
            final(self).fragments_view() == old(self).fragments_view() + chunk_fragments(*chunk),
            final(self).tool_call_count == add_tool_calls(old(self).tool_call_count, chunk.tool_calls),
    {
        self.tool_call_count = self.tool_call_count.saturating_add(chunk.tool_calls);
        match &chunk.text {
            Some(t) => {
                if t.as_str().unicode_len() > 0 {
                    self.fragments.push(t.clone());
                }
            },
            None => {},
        }
        assert(self.fragments_view() =~= old(self).fragments_view() + chunk_fragments(*chunk));
    }

    /// How many text fragments have been kept.
    pub fn text_fragment_count(&self) -> (n: usize)
        ensures
            n == self.fragments_view().len(),
    {
        self.fragments.len()
    }

    /// The answer: the fragments in arrival order, or the fixed notice when
    /// there were none.
    pub fn answer(&self) -> (r: String)
        ensures
            r@ == final_answer(self.fragments_view()),
    {
        if self.fragments.len() == 0 {
            return String::from_str("No response from agent");
        }
        let ghost fs = self.fragments_view();
        let mut out = String::new();
        let mut i: usize = 0;
        while i < self.fragments.len()
            invariant
                i <= self.fragments.len(),
                fs == self.fragments_view(),
                out@ == concat_all(fs.take(i as int)),
            decreases self.fragments.len() - i,
        {
            out.append(self.fragments[i].as_str());
            assert(fs.take(i as int + 1).drop_last() =~= fs.take(i as int));
            i = i + 1;
        }
        assert(fs.take(i as int) =~= fs);
        out
    }
}

/// Folds a whole stream into its answer.
pub fn aggregate_stream(chunks: &Vec<StreamChunk>) -> (r: String)
    ensures
        r@ == final_answer(stream_fragments(chunks@)),
{
    let mut acc = ResponseAccumulator::new();
    let mut i: usize = 0;
    while i < chunks.len()
        invariant
            i <= chunks.len(),
            acc.fragments_view() == stream_fragments(chunks@.take(i as int)),
        decreases chunks.len() - i,
    {
        acc.absorb(&chunks[i]);
        assert(chunks@.take(i as int + 1).drop_last() =~= chunks@.take(i as int));
        i = i + 1;
    }
    assert(chunks@.take(i as int) =~= chunks@);
    acc.answer()
}

/// Fragments that are empty add nothing: the answer of a stream that carried
/// any text is all of its text in arrival order.
pub proof fn lemma_answer_is_stream_text(cs: Seq<StreamChunk>)
    ensures
        concat_all(stream_fragments(cs)) == stream_text(cs),
        stream_fragments(cs).len() > 0 ==> final_answer(stream_fragments(cs)) == stream_text(cs),
    decreases cs.len(),
{
    if cs.len() > 0 {
        let p = cs.drop_last();
        lemma_answer_is_stream_text(p);
        let fp = stream_fragments(p);
        let c = cs.last();
        if chunk_fragments(c).len() > 0 {
            assert((fp + chunk_fragments(c)).drop_last() =~= fp);
        } else {
            assert(fp + chunk_fragments(c) =~= fp);
            assert(chunk_text(c) =~= Seq::<char>::empty());
            assert(stream_text(cs) =~= stream_text(p));
        }
    }
}

/// A stream that carried no text, and in particular one with no chunks at
/// all, is answered with the fixed notice.
pub proof fn lemma_silent_stream_answer(cs: Seq<StreamChunk>)
    requires
        stream_text(cs).len() == 0,
    ensures
        final_answer(stream_fragments(cs)) == no_response(),
    decreases cs.len(),
{
    lemma_fragments_not_empty(cs);
}

proof fn lemma_fragments_not_empty(cs: Seq<StreamChunk>)
    ensures
        forall|i: int| 0 <= i < stream_fragments(cs).len() ==> #[trigger] stream_fragments(cs)[i].len() > 0,
        stream_fragments(cs).len() > 0 ==> stream_text(cs).len() > 0,
    decreases cs.len(),
{
    if cs.len() > 0 {
        lemma_fragments_not_empty(cs.drop_last());
        lemma_answer_is_stream_text(cs);
    }
}

} // verus!
