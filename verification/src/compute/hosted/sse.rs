//! From server-sent events to inference chunks.
//!
//! A provider's parser is a state machine over events; [`ChunkStream`] runs one
//! over an event stream that may fail or be cancelled.

use crate::contracts::compute::{ChunkView, FinishReason, InferenceChunk};
use crate::contracts::error::{
    ContractError, ContractErrorView, InferenceError, InferenceErrorView,
};
use crate::contracts::types::ComputeMode;
use crate::model::{opt, outcome, outcomes};
use crate::text::stands_at;
use vstd::prelude::*;

verus! {

/// One item of an output stream.
pub type Item = Result<ChunkView, ContractErrorView>;

/// The error for a payload that is no JSON.
pub open spec fn malformed(message: Seq<char>) -> ContractErrorView {
    ContractErrorView::Inference(
        InferenceErrorView::Provider {
            message: "malformed SSE JSON: "@ + message,
            retryable: false,
        },
    )
}

/// The error for a payload that is no JSON.
pub fn malformed_error(message: &str) -> (r: ContractError)
    ensures
        r@ == malformed(message@),
{
    ContractError::Inference(
        InferenceError::Provider {
            message: "malformed SSE JSON: ".to_owned().concat(message),
            retryable: false,
        },
    )
}

/// A list with one item.
pub fn one(item: Result<InferenceChunk, ContractError>) -> (r: Vec<
    Result<InferenceChunk, ContractError>,
>)
    ensures
        outcomes(r@) == seq![outcome(item)],
{
    let r = vec![item];
    assert(outcomes(r@) =~= seq![outcome(item)]);
    r
}

/// A list without items.
pub fn nothing() -> (r: Vec<Result<InferenceChunk, ContractError>>)
    ensures
        outcomes(r@) == Seq::<Item>::empty(),
{
    let r: Vec<Result<InferenceChunk, ContractError>> = Vec::new();
    assert(outcomes(r@) =~= Seq::<Item>::empty());
    r
}

/// Whether every chunk of a list carries the given mode.
pub open spec fn all_carry(items: Seq<Item>, mode: ComputeMode) -> bool {
    forall|i: int|
        #![trigger items[i]]
        0 <= i < items.len() ==> (items[i] matches Ok(c) ==> c.active_mode == mode)
}

/// A stateful parser turning events into chunks.
pub trait SseChunkParser: Sized {
    /// The mode stamped on the chunks.
    spec fn mode_spec(&self) -> ComputeMode;

    /// Whether the logical stream is over.
    spec fn done_spec(&self) -> bool;

    /// Whether the parser goes over into `post` on an event and yields `items`.
    spec fn step_to(
        &self,
        post: Self,
        event_type: Seq<char>,
        data: Seq<char>,
        items: Seq<Item>,
    ) -> bool;

    fn mode(&self) -> (r: ComputeMode)
        ensures
            r == self.mode_spec(),
    ;

    fn done(&self) -> (r: bool)
        ensures
            r == self.done_spec(),
    ;

    /// Consumes one event.
    fn handle_event(&mut self, event_type: &str, data: &str) -> (r: Vec<
        Result<InferenceChunk, ContractError>,
    >)
        ensures
            old(self).step_to(*final(self), event_type@, data@, outcomes(r@)),
            final(self).mode_spec() == old(self).mode_spec(),
            all_carry(outcomes(r@), old(self).mode_spec()),
            old(self).done_spec() ==> final(self).done_spec() && outcomes(r@).len() == 0,
    ;
}

/// What an event stream delivers.
pub enum SseItem {
    /// An event, by its type and its data.
    Event { event: String, data: String },
    /// A failure of the stream, by its message.
    Failure { message: String },
}

/// The error for a failure of the event stream; it is worth another try.
pub open spec fn stream_failure(message: Seq<char>) -> ContractErrorView {
    ContractErrorView::Inference(
        InferenceErrorView::Provider { message: "SSE stream error: "@ + message, retryable: true },
    )
}

/// A parser running over an event stream.
pub struct ChunkStream<P> {
    /// The parser.
    pub parser: P,
    /// Whether the parser has reached its end.
    pub finished: bool,
}

impl<P: SseChunkParser> ChunkStream<P> {
    /// A stream at its start.
    pub fn new(parser: P) -> (r: ChunkStream<P>)
        ensures
            r.parser == parser,
            r.finished == false,
    {
        ChunkStream { parser, finished: false }
    }

    /// The chunks for the next item of the event stream; `None` ends the stream,
    /// which happens as soon as the parser is done.
    pub fn next(&mut self, item: SseItem) -> (r: Option<Vec<Result<InferenceChunk, ContractError>>>)
        ensures
            r is None <==> old(self).parser.done_spec(),
            r is None ==> *final(self) == *old(self),
            r matches Some(items) ==> {
                &&& all_carry(outcomes(items@), old(self).parser.mode_spec())
                &&& final(self).finished == (old(self).finished
                    || final(self).parser.done_spec())
                &&& match item {
                    SseItem::Event { event, data } => old(self).parser.step_to(
                        final(self).parser,
                        event@,
                        data@,
                        outcomes(items@),
                    ),
                    SseItem::Failure { message } => final(self).parser == old(self).parser
                        && outcomes(items@) == seq![Err::<ChunkView, _>(stream_failure(message@))],
                }
            },
            final(self).parser.mode_spec() == old(self).parser.mode_spec(),
    {
        if self.parser.done() {
            return None;
        }
        let out = match item {
            SseItem::Event { event, data } => self.parser.handle_event(
                event.as_str(),
                data.as_str(),
            ),
            SseItem::Failure { message } => one(
                Err(
                    ContractError::Inference(
                        InferenceError::Provider {
                            message: "SSE stream error: ".to_owned().concat(message.as_str()),
                            retryable: true,
                        },
                    ),
                ),
            ),
        };
        if self.parser.done() {
            self.finished = true;
        }
        Some(out)
    }

    /// The chunk after the last item: a cancelled one where the stream was cut
    /// short by cancellation before the parser reached its end.
    pub fn tail(&self, cancelled: bool) -> (r: Option<InferenceChunk>)
        ensures
            opt(r) == (if cancelled && !self.finished {
                Some(ChunkView::finish(FinishReason::Cancelled, self.parser.mode_spec()))
            } else {
                None
            }),
    {
        if cancelled && !self.finished {
            Some(InferenceChunk::finish(FinishReason::Cancelled, self.parser.mode()))
        } else {
            None
        }
    }
}

/// A failure of the stream and a payload that is no JSON are told in their own words; only
/// the failure is worth another try.
pub proof fn law_failures_are_told(message: Seq<char>)
    ensures
        stream_failure(message) matches ContractErrorView::Inference(
            InferenceErrorView::Provider { message: told, retryable },
        ) && retryable && stands_at(told, message, told.len() - message.len()),
        malformed(message) matches ContractErrorView::Inference(
            InferenceErrorView::Provider { message: told, retryable },
        ) && !retryable && stands_at(told, message, told.len() - message.len()),
{
}

} // verus!
