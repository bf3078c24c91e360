//! One inference round: what a stream of chunks adds up to.

use crate::contracts::agent::{AgentEvent, AgentEventView};
use crate::contracts::compute::{
    ChunkView, FinishReason, InferenceChunk, ThinkingDeltaView, ToolCallDelta, ToolCallDeltaView,
};
use crate::contracts::data::concat_all;
use crate::contracts::types::ComputeMode;
use crate::model::{lemma_views_push, opt, views};
use vstd::prelude::*;

verus! {

/// A tool call accumulated from its deltas.
#[derive(Debug)]
pub struct PendingToolCall {
    pub call_id: String,
    pub tool_id: String,
    pub args_raw: String,
}

/// [`PendingToolCall`] as a mathematical value.
pub struct CallView {
    pub call_id: Seq<char>,
    pub tool_id: Seq<char>,
    pub args_raw: Seq<char>,
}

impl View for PendingToolCall {
    type V = CallView;

    open spec fn view(&self) -> CallView {
        CallView { call_id: self.call_id@, tool_id: self.tool_id@, args_raw: self.args_raw@ }
    }
}

/// What a round has gathered so far.
#[derive(Debug)]
pub struct Round {
    /// The text.
    pub text: String,
    /// The reasoning.
    pub thinking: String,
    /// The signature that closes the reasoning.
    pub signature: Option<String>,
    /// The tool calls, in the order in which they began.
    pub calls: Vec<PendingToolCall>,
}

/// [`Round`] as a mathematical value.
pub struct RoundView {
    pub text: Seq<char>,
    pub thinking: Seq<char>,
    pub signature: Option<Seq<char>>,
    pub calls: Seq<CallView>,
}

impl View for Round {
    type V = RoundView;

    open spec fn view(&self) -> RoundView {
        RoundView {
            text: self.text@,
            thinking: self.thinking@,
            signature: opt(self.signature),
            calls: views(self.calls@),
        }
    }
}

/// How a round ends.
#[derive(Clone, Copy, Debug, PartialEq, Eq, Structural)]
pub enum RoundOutcome {
    /// Generation ended for a reason other than tools.
    Finished(FinishReason),
    /// The model asked for the gathered tool calls.
    ToolCalls,
    /// The turn was cancelled.
    Cancelled,
}

/// The first call with the given identifier, at or after `from`.
pub open spec fn call_position(calls: Seq<CallView>, id: Seq<char>, from: int) -> Option<int>
    decreases calls.len() - from,
{
    if from >= calls.len() {
        None
    } else if calls[from].call_id == id {
        Some(from)
    } else {
        call_position(calls, id, from + 1)
    }
}

/// The calls after a delta: the arguments of a known call grow, a new call joins.
pub open spec fn calls_after(calls: Seq<CallView>, d: ToolCallDeltaView) -> Seq<CallView> {
    match call_position(calls, d.call_id, 0) {
        Some(i) => calls.update(
            i,
            CallView { args_raw: calls[i].args_raw + d.args_delta, ..calls[i] },
        ),
        None => calls.push(
            CallView { call_id: d.call_id, tool_id: d.tool_id, args_raw: d.args_delta },
        ),
    }
}

/// The text of a chunk; empty where it has none.
pub open spec fn chunk_text(c: ChunkView) -> Seq<char> {
    match c.delta {
        Some(t) => t,
        None => Seq::empty(),
    }
}

/// The reasoning text of a chunk; empty where it has none.
pub open spec fn chunk_thinking(c: ChunkView) -> Seq<char> {
    match c.thinking_delta {
        Some(t) => t.text,
        None => Seq::empty(),
    }
}

/// The round after a chunk.
pub open spec fn round_after(r: RoundView, c: ChunkView) -> RoundView {
    RoundView {
        text: r.text + chunk_text(c),
        thinking: r.thinking + chunk_thinking(c),
        signature: match c.thinking_delta {
            Some(ThinkingDeltaView { text, signature: Some(s) }) => Some(s),
            _ => r.signature,
        },
        calls: match c.tool_call_delta {
            Some(d) => calls_after(r.calls, d),
            None => r.calls,
        },
    }
}

/// The events that a chunk gives rise to, in the active mode: a handoff where
/// the mode changes, and the text where there is some.
pub open spec fn chunk_events(mode: ComputeMode, c: ChunkView) -> Seq<AgentEventView> {
    (if c.active_mode != mode {
        seq![AgentEventView::ModeHandoff { from: mode, to: c.active_mode }]
    } else {
        Seq::empty()
    }) + (if chunk_text(c).len() > 0 {
        seq![AgentEventView::TextDelta { text: chunk_text(c) }]
    } else {
        Seq::empty()
    })
}

/// How the round ends with a chunk, if it does. A finish for tools without a
/// gathered call counts as a plain stop.
pub open spec fn round_outcome(after: RoundView, c: ChunkView) -> Option<RoundOutcome> {
    match c.finish_reason {
        None => None,
        Some(FinishReason::ToolCall) => Some(
            if after.calls.len() > 0 {
                RoundOutcome::ToolCalls
            } else {
                RoundOutcome::Finished(FinishReason::Stop)
            },
        ),
        Some(FinishReason::Cancelled) => Some(RoundOutcome::Cancelled),
        Some(reason) => Some(RoundOutcome::Finished(reason)),
    }
}

/// A round that has gathered nothing.
pub open spec fn empty_round() -> RoundView {
    RoundView {
        text: Seq::empty(),
        thinking: Seq::empty(),
        signature: None,
        calls: Seq::empty(),
    }
}

/// The position found is that of the first call with the identifier.
proof fn lemma_call_position(calls: Seq<CallView>, id: Seq<char>, from: int)
    requires
        0 <= from <= calls.len(),
    ensures
        call_position(calls, id, from) matches Some(i) ==> from <= i < calls.len()
            && calls[i].call_id == id && (forall|j: int| from <= j < i ==> calls[j].call_id != id),
        call_position(calls, id, from) is None ==> forall|j: int|
            from <= j < calls.len() ==> calls[j].call_id != id,
    decreases calls.len() - from,
{
    if from < calls.len() && calls[from].call_id != id {
        lemma_call_position(calls, id, from + 1);
    }
}

impl Round {
    /// A round that has gathered nothing.
    pub fn new() -> (r: Round)
        ensures
            r@ == empty_round(),
    {
        let r = Round {
            text: String::new(),
            thinking: String::new(),
            signature: None,
            calls: Vec::new(),
        };
        assert(views(r.calls@) =~= Seq::empty());
        r
    }

    /// Adds a tool-call delta.
    fn add_call(&mut self, d: ToolCallDelta)
        ensures
            final(self)@ == (RoundView {
                calls: calls_after(old(self)@.calls, d@),
                ..old(self)@
            }),
    {
        let ghost before = self@.calls;
        let n = self.calls.len();
        let mut i: usize = 0;
        while i < n
            invariant
                i <= n,
                n == self.calls.len(),
                self@ == old(self)@,
                before == views(self.calls@),
                call_position(before, d.call_id@, 0) == call_position(
                    before,
                    d.call_id@,
                    i as int,
                ),
            decreases n - i,
        {
            if self.calls[i].call_id == d.call_id {
                let mut args = self.calls[i].args_raw.clone();
                args.append(d.args_delta.as_str());
                let grown = PendingToolCall {
                    call_id: self.calls[i].call_id.clone(),
                    tool_id: self.calls[i].tool_id.clone(),
                    args_raw: args,
                };
                self.calls.set(i, grown);
                assert(views(self.calls@) =~= calls_after(before, d@));
                return;
            }
            i += 1;
        }
        let ghost dv = d@;
        let ghost calls0 = self.calls@;
        let fresh = PendingToolCall {
            call_id: d.call_id,
            tool_id: d.tool_id,
            args_raw: d.args_delta,
        };
        let ghost fv = fresh;
        self.calls.push(fresh);
        proof {
            lemma_views_push(calls0, fv);
            assert(call_position(before, dv.call_id, n as int) is None);
        }
    }

    /// Adds a chunk and yields the events that it gives rise to.
    pub fn add_chunk(&mut self, mode: ComputeMode, chunk: InferenceChunk) -> (r: Vec<AgentEvent>)
        ensures
            final(self)@ == round_after(old(self)@, chunk@),
            views(r@) == chunk_events(mode, chunk@),
    {
        let mut events: Vec<AgentEvent> = Vec::new();
        if chunk.active_mode != mode {
            events.push(AgentEvent::ModeHandoff { from: mode, to: chunk.active_mode });
        }
        match chunk.delta {
            Some(delta) => {
                if !delta.as_str().is_empty() {
                    self.text.append(delta.as_str());
                    events.push(AgentEvent::TextDelta { text: delta });
                }
            },
            None => {},
        }
        assert(self.text@ =~= old(self)@.text + chunk_text(chunk@));
        match chunk.thinking_delta {
            Some(t) => {
                self.thinking.append(t.text.as_str());
                match t.signature {
                    Some(s) => {
                        self.signature = Some(s);
                    },
                    None => {},
                }
            },
            None => {},
        }
        assert(self.thinking@ =~= old(self)@.thinking + chunk_thinking(chunk@));
        match chunk.tool_call_delta {
            Some(d) => {
                self.add_call(d);
            },
            None => {},
        }
        assert(views(events@) =~= chunk_events(mode, chunk@));
        events
    }

    /// How the round ends with a finish reason.
    pub fn outcome(&self, reason: FinishReason) -> (r: RoundOutcome)
        ensures
            forall|c: ChunkView|
                c.finish_reason == Some(reason) ==> #[trigger] round_outcome(self@, c) == Some(r),
    {
        match reason {
            FinishReason::ToolCall => {
                if self.calls.len() > 0 {
                    RoundOutcome::ToolCalls
                } else {
                    RoundOutcome::Finished(FinishReason::Stop)
                }
            },
            FinishReason::Cancelled => RoundOutcome::Cancelled,
            FinishReason::Stop => RoundOutcome::Finished(FinishReason::Stop),
            FinishReason::MaxTokens => RoundOutcome::Finished(FinishReason::MaxTokens),
            FinishReason::Error => RoundOutcome::Finished(FinishReason::Error),
        }
    }
}

/// Whether no two calls share an identifier.
pub open spec fn calls_distinct(calls: Seq<CallView>) -> bool {
    forall|i: int, j: int|
        0 <= i < j < calls.len() ==> (#[trigger] calls[i]).call_id != (#[trigger] calls[j]).call_id
}

/// The calls of a round keep different identifiers, however their deltas interleave.
pub proof fn law_calls_stay_distinct(r: RoundView, c: ChunkView)
    requires
        calls_distinct(r.calls),
    ensures
        calls_distinct(round_after(r, c).calls),
{
    if let Some(d) = c.tool_call_delta {
        lemma_call_position(r.calls, d.call_id, 0);
    }
}

/// A delta changes no call but its own.
pub proof fn law_delta_touches_one_call(calls: Seq<CallView>, d: ToolCallDeltaView, i: int)
    requires
        0 <= i < calls.len(),
        calls[i].call_id != d.call_id,
    ensures
        calls_after(calls, d)[i] == calls[i],
{
    lemma_call_position(calls, d.call_id, 0);
}

/// The round after a list of chunks.
pub open spec fn round_after_all(r: RoundView, chunks: Seq<ChunkView>) -> RoundView
    decreases chunks.len(),
{
    if chunks.len() == 0 {
        r
    } else {
        round_after(round_after_all(r, chunks.drop_last()), chunks.last())
    }
}

/// The texts of a list of chunks.
pub open spec fn chunk_texts(chunks: Seq<ChunkView>) -> Seq<Seq<char>> {
    Seq::new(chunks.len(), |i: int| chunk_text(chunks[i]))
}

/// The text of a round is what its chunks streamed, one after the other.
pub proof fn law_round_text_is_what_was_streamed(chunks: Seq<ChunkView>)
    ensures
        round_after_all(empty_round(), chunks).text == concat_all(chunk_texts(chunks)),
    decreases chunks.len(),
{
    if chunks.len() > 0 {
        law_round_text_is_what_was_streamed(chunks.drop_last());
        assert(chunk_texts(chunks).drop_last() =~= chunk_texts(chunks.drop_last()));
    }
}

/// A delta under a new identifier begins a call, behind those that have begun; one
/// under the identifier of a call adds to the arguments of that call alone.
pub proof fn law_delta_reaches_its_call(calls: Seq<CallView>, d: ToolCallDeltaView)
    requires
        calls_distinct(calls),
    ensures
        (forall|i: int| 0 <= i < calls.len() ==> (#[trigger] calls[i]).call_id != d.call_id)
            ==> calls_after(calls, d) == calls.push(
            CallView { call_id: d.call_id, tool_id: d.tool_id, args_raw: d.args_delta },
        ),
        forall|i: int|
            0 <= i < calls.len() && (#[trigger] calls[i]).call_id == d.call_id ==> {
                let after = calls_after(calls, d);
                &&& after.len() == calls.len()
                &&& after[i].call_id == d.call_id
                &&& after[i].tool_id == calls[i].tool_id
                &&& after[i].args_raw == calls[i].args_raw + d.args_delta
            },
{
    lemma_call_position(calls, d.call_id, 0);
}

/// The arguments that a list of chunks streams for a call.
pub open spec fn args_for(chunks: Seq<ChunkView>, call_id: Seq<char>) -> Seq<Seq<char>> {
    Seq::new(
        chunks.len(),
        |i: int|
            match chunks[i].tool_call_delta {
                Some(d) => if d.call_id == call_id {
                    d.args_delta
                } else {
                    Seq::empty()
                },
                None => Seq::empty(),
            },
    )
}

/// Every call that is streamed is gathered, however the deltas of several calls
/// interleave, with the tool of its first delta and with all of its arguments, in the
/// order in which they came.
pub proof fn law_every_streamed_call_is_gathered(chunks: Seq<ChunkView>, k: int)
    requires
        0 <= k < chunks.len(),
        chunks[k].tool_call_delta is Some,
        forall|j: int|
            0 <= j < k ==> ((#[trigger] chunks[j]).tool_call_delta matches Some(d) ==> d.call_id
                != chunks[k].tool_call_delta->0.call_id),
    ensures
        exists|i: int|
            0 <= i < round_after_all(empty_round(), chunks).calls.len() && (
            #[trigger] round_after_all(empty_round(), chunks).calls[i]) == (CallView {
                call_id: chunks[k].tool_call_delta->0.call_id,
                tool_id: chunks[k].tool_call_delta->0.tool_id,
                args_raw: concat_all(args_for(chunks, chunks[k].tool_call_delta->0.call_id)),
            }),
        calls_distinct(round_after_all(empty_round(), chunks).calls),
    decreases chunks.len(),
{
    let first = chunks[k].tool_call_delta->0;
    let id = first.call_id;
    let front = chunks.drop_last();
    let before = round_after_all(empty_round(), front);
    let after = round_after_all(empty_round(), chunks);
    let last = chunks.last();
    lemma_gathered_calls_distinct(front);
    lemma_gathered_calls_distinct(chunks);
    assert(args_for(chunks, id).drop_last() =~= args_for(front, id));
    let args = concat_all(args_for(front, id));
    if k < front.len() {
        assert(front[k] == chunks[k]);
        assert forall|j: int| 0 <= j < k implies ((#[trigger] front[j]).tool_call_delta matches Some(
            d,
        ) ==> d.call_id != front[k].tool_call_delta->0.call_id) by {
            assert(front[j] == chunks[j]);
        }
        law_every_streamed_call_is_gathered(front, k);
        let i = choose|i: int|
            0 <= i < before.calls.len() && (#[trigger] before.calls[i]) == (CallView {
                call_id: id,
                tool_id: first.tool_id,
                args_raw: args,
            });
        match last.tool_call_delta {
            Some(d) => {
                law_delta_reaches_its_call(before.calls, d);
                if d.call_id != id {
                    law_delta_touches_one_call(before.calls, d, i);
                    assert(args + Seq::<char>::empty() =~= args);
                }
            },
            None => {
                assert(args + Seq::<char>::empty() =~= args);
            },
        }
        assert(after.calls[i].call_id == id);
    } else {
        assert(last == chunks[k]);
        assert forall|j: int| 0 <= j < front.len() implies ((
        #[trigger] front[j]).tool_call_delta matches Some(d) ==> d.call_id != id) by {
            assert(front[j] == chunks[j]);
        }
        lemma_unstreamed_call_is_absent(front, id);
        law_delta_reaches_its_call(before.calls, first);
        assert(args + first.args_delta =~= first.args_delta);
        assert(after.calls[before.calls.len() as int].call_id == id);
    }
}

proof fn lemma_gathered_calls_distinct(chunks: Seq<ChunkView>)
    ensures
        calls_distinct(round_after_all(empty_round(), chunks).calls),
    decreases chunks.len(),
{
    if chunks.len() > 0 {
        lemma_gathered_calls_distinct(chunks.drop_last());
        law_calls_stay_distinct(
            round_after_all(empty_round(), chunks.drop_last()),
            chunks.last(),
        );
    }
}

/// A call of which no delta came is not among the calls, and has no arguments.
proof fn lemma_unstreamed_call_is_absent(chunks: Seq<ChunkView>, id: Seq<char>)
    requires
        forall|j: int|
            0 <= j < chunks.len() ==> ((#[trigger] chunks[j]).tool_call_delta matches Some(d)
                ==> d.call_id != id),
    ensures
        forall|i: int|
            0 <= i < round_after_all(empty_round(), chunks).calls.len() ==> (
            #[trigger] round_after_all(empty_round(), chunks).calls[i]).call_id != id,
        concat_all(args_for(chunks, id)) == Seq::<char>::empty(),
    decreases chunks.len(),
{
    if chunks.len() > 0 {
        let front = chunks.drop_last();
        assert forall|j: int| 0 <= j < front.len() implies ((
        #[trigger] front[j]).tool_call_delta matches Some(d) ==> d.call_id != id) by {
            assert(front[j] == chunks[j]);
        }
        lemma_unstreamed_call_is_absent(front, id);
        lemma_gathered_calls_distinct(front);
        assert(args_for(chunks, id).drop_last() =~= args_for(front, id));
        assert(chunks[chunks.len() - 1] == chunks.last());
        let before = round_after_all(empty_round(), front);
        if let Some(d) = chunks.last().tool_call_delta {
            lemma_call_position(before.calls, d.call_id, 0);
        }
        assert(Seq::<char>::empty() + Seq::<char>::empty() =~= Seq::<char>::empty());
    }
}

/// The reasoning of a round is what its chunks streamed, one after the other, and is
/// signed with the last signature that came.
pub proof fn law_round_reasoning_is_what_was_streamed(chunks: Seq<ChunkView>)
    ensures
        round_after_all(empty_round(), chunks).thinking == concat_all(
            Seq::new(
                chunks.len(),
                |i: int|
                    match chunks[i].thinking_delta {
                        Some(d) => d.text,
                        None => Seq::<char>::empty(),
                    },
            ),
        ),
        forall|k: int|
            0 <= k < chunks.len() && ((#[trigger] chunks[k]).thinking_delta matches Some(d)
                && d.signature is Some) && (forall|j: int|
                k < j < chunks.len() ==> !((#[trigger] chunks[j]).thinking_delta matches Some(d)
                    && d.signature is Some)) ==> round_after_all(empty_round(), chunks).signature
                == chunks[k].thinking_delta->0.signature,
        (forall|j: int|
            0 <= j < chunks.len() ==> !((#[trigger] chunks[j]).thinking_delta matches Some(d)
                && d.signature is Some)) ==> round_after_all(empty_round(), chunks).signature is None,
    decreases chunks.len(),
{
    let texts = Seq::new(
        chunks.len(),
        |i: int|
            match chunks[i].thinking_delta {
                Some(d) => d.text,
                None => Seq::<char>::empty(),
            },
    );
    if chunks.len() > 0 {
        let front = chunks.drop_last();
        law_round_reasoning_is_what_was_streamed(front);
        assert(texts.drop_last() =~= Seq::new(
            front.len(),
            |i: int|
                match front[i].thinking_delta {
                    Some(d) => d.text,
                    None => Seq::<char>::empty(),
                },
        ));
        assert(chunks[chunks.len() - 1] == chunks.last());
        assert(forall|j: int| 0 <= j < front.len() ==> #[trigger] front[j] == chunks[j]);
        assert(forall|j: int| 0 <= j < front.len() ==> front[j] == #[trigger] chunks[j]);
    }
}

} // verus!
