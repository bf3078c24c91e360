//! What every turn keeps to, whatever it is told: what it stores, shows, asks for and
//! runs.

use crate::agent::context::{
    compacted, law_kept_history_is_a_suffix, law_newest_survives,
    law_preamble_holds_the_prompt_and_every_memory, law_preamble_is_kept,
    law_small_history_is_kept_whole, preamble, total_cost, DEFAULT_SYSTEM_PROMPT,
};
use crate::agent::round::{calls_after, round_after, CallView, RoundView};
use crate::agent::subagent::{streamed_part, streamed_text};
use crate::agent::tool_call::{
    approval_summary, denied_output, law_audit_event_tells_of_the_call, law_error_output_tells_the_message,
    law_result_carries_the_output, parsed_args, tool_position, unknown_tool_text,
};
use crate::agent::turn::{
    call_blocks, cap_text, step_spec, ActionView, EnvView, InputView, Phase, TurnView,
    MAX_TOOL_STEPS,
};
use crate::contracts::agent::AgentEventView;
use crate::contracts::compute::{ChunkView, FinishReason};
use crate::contracts::data::{
    blocks_text, concat_all, law_each_text_block_is_in_the_text, law_plain_message_holds_its_text,
    lemma_blocks_text_adds_up, lemma_no_text, AuditActor, AuditEventType, AuditOutcome, BlockView, ConversationView,
    MemoryView, MessageRole, MessageView,
};
use crate::contracts::error::ContractErrorView;
use crate::contracts::tooling::{ToolDescriptorView, ToolEventView};
use crate::json::JsonView;
use crate::model::{lemma_filter_all, pick};
use crate::text::laid_out;
use vstd::prelude::*;

verus! {

/// The text that a chunk streams.
pub open spec fn said(c: ChunkView) -> Seq<char> {
    match c.delta {
        Some(text) => text,
        None => Seq::empty(),
    }
}

/// Whether a block calls a tool.
pub open spec fn is_call(b: BlockView) -> bool {
    b is ToolCall
}

/// Whether a block holds reasoning.
pub open spec fn is_reasoning(b: BlockView) -> bool {
    b is Thinking
}

/// When a round ends in tool calls, the message that is stored holds exactly the text
/// that the round streamed, and one block for each call, in order, with its tool and
/// its arguments. These are the calls that run next. Signed reasoning stands in front
/// of all; there is none without a signature.
#[verifier::rlimit(60)]
#[verifier::spinoff_prover]
pub proof fn law_message_with_calls_tells_all(t: TurnView, env: EnvView, c: ChunkView)
    requires
        t.wf(),
        t.phase == Phase::Streaming,
        step_spec(t, env, InputView::Chunk { item: Some(Ok(c)) }).0.phase == Phase::SavingCalls,
    ensures
        ({
            let (after, out) = step_spec(t, env, InputView::Chunk { item: Some(Ok(c)) });
            let round = round_after(t.round, c);
            &&& after.calls.len() > 0 && after.next_call == 0
            &&& c.tool_call_delta is None ==> after.calls == t.round.calls
            &&& c.tool_call_delta matches Some(d) ==> after.calls == calls_after(t.round.calls, d)
            &&& out.action matches ActionView::Append { message } && {
                &&& message.role == MessageRole::Assistant
                &&& message.id == after.message_id && message.id == env.fresh.first
                &&& message.conversation_id == t.conversation.id
                &&& message.model_id == Some(env.model_id)
                &&& message.mode == c.active_mode && message.created_at == env.fresh.at
                &&& message.text_content() == t.round.text + said(c)
                &&& message.content.filter(|b: BlockView| is_call(b)) == blocks_of_calls(
                    after.calls,
                )
                &&& round.signature is None ==> message.content.filter(
                    |b: BlockView| is_reasoning(b),
                ).len() == 0
                &&& round.signature matches Some(s) ==> message.content.filter(
                    |b: BlockView| is_reasoning(b),
                ) == seq![BlockView::Thinking { thinking: round.thinking, signature: s }]
                    && message.content[0] is Thinking
            }
        }),
{
    let r = round_after(t.round, c);
    lemma_round_ends_in_calls(t, env, c);
    lemma_call_blocks(r);
    assert(r.text =~= t.round.text + said(c));
}

/// A round that ends in calls stores its blocks, and its calls are those that run.
proof fn lemma_round_ends_in_calls(t: TurnView, env: EnvView, c: ChunkView)
    requires
        t.phase == Phase::Streaming,
        step_spec(t, env, InputView::Chunk { item: Some(Ok(c)) }).0.phase == Phase::SavingCalls,
    ensures
        ({
            let (after, out) = step_spec(t, env, InputView::Chunk { item: Some(Ok(c)) });
            let r = round_after(t.round, c);
            &&& after.calls == r.calls && after.calls.len() > 0 && after.next_call == 0
            &&& after.message_id == env.fresh.first
            &&& out.action == (ActionView::Append {
                message: MessageView {
                    id: env.fresh.first,
                    conversation_id: t.conversation.id,
                    role: MessageRole::Assistant,
                    content: call_blocks(r),
                    model_id: Some(env.model_id),
                    mode: c.active_mode,
                    created_at: env.fresh.at,
                    sequence_num: 0,
                    approval_refs: Seq::empty(),
                },
            })
        }),
{
}

/// The calls of a round as blocks.
pub open spec fn blocks_of_calls(calls: Seq<CallView>) -> Seq<BlockView> {
    Seq::new(
        calls.len(),
        |i: int|
            BlockView::ToolCall {
                call_id: calls[i].call_id,
                tool_id: calls[i].tool_id,
                args: parsed_args(calls[i].args_raw),
            },
    )
}

/// The blocks of a message that carries calls, by what they hold.
proof fn lemma_call_blocks(r: RoundView)
    ensures
        blocks_text(call_blocks(r)) == r.text,
        call_blocks(r).filter(|b: BlockView| is_call(b)) == blocks_of_calls(r.calls),
        r.signature is None ==> call_blocks(r).filter(|b: BlockView| is_reasoning(b)).len() == 0,
        r.signature matches Some(s) ==> call_blocks(r).filter(|b: BlockView| is_reasoning(b))
            == seq![BlockView::Thinking { thinking: r.thinking, signature: s }]
            && call_blocks(r)[0] is Thinking,
{
    let reasoning = match r.signature {
        Some(signature) => seq![BlockView::Thinking { thinking: r.thinking, signature }],
        None => Seq::empty(),
    };
    let text = if r.text.len() > 0 {
        seq![BlockView::Text { text: r.text }]
    } else {
        Seq::empty()
    };
    let calls = blocks_of_calls(r.calls);
    assert(call_blocks(r) =~= reasoning + text + calls);
    lemma_text_of_parts(r, reasoning, text, calls);
    let call = |b: BlockView| is_call(b);
    let thought = |b: BlockView| is_reasoning(b);
    lemma_filter_of_parts(reasoning, text, calls, call);
    lemma_filter_of_parts(reasoning, text, calls, thought);
    lemma_filter_all(reasoning, call);
    lemma_filter_all(text, call);
    lemma_filter_all(calls, call);
    lemma_filter_all(reasoning, thought);
    lemma_filter_all(text, thought);
    lemma_filter_all(calls, thought);
    assert(call_blocks(r).filter(call) =~= calls);
    assert(call_blocks(r).filter(thought) =~= reasoning);
}

proof fn lemma_filter_of_parts(
    a: Seq<BlockView>,
    b: Seq<BlockView>,
    c: Seq<BlockView>,
    p: spec_fn(BlockView) -> bool,
)
    ensures
        (a + b + c).filter(p) == a.filter(p) + b.filter(p) + c.filter(p),
{
    Seq::filter_distributes_over_add(a + b, c, p);
    Seq::filter_distributes_over_add(a, b, p);
}

proof fn lemma_text_of_parts(
    r: RoundView,
    reasoning: Seq<BlockView>,
    text: Seq<BlockView>,
    calls: Seq<BlockView>,
)
    requires
        forall|i: int| 0 <= i < reasoning.len() ==> !(#[trigger] reasoning[i] is Text),
        forall|i: int| 0 <= i < calls.len() ==> !(#[trigger] calls[i] is Text),
        r.text.len() > 0 ==> text == seq![BlockView::Text { text: r.text }],
        r.text.len() == 0 ==> text.len() == 0,
    ensures
        blocks_text(reasoning + text + calls) == r.text,
{
    lemma_blocks_text_adds_up(reasoning + text, calls);
    lemma_blocks_text_adds_up(reasoning, text);
    lemma_no_text(reasoning);
    lemma_no_text(calls);
    if r.text.len() > 0 {
        let none: Seq<BlockView> = Seq::empty();
        law_each_text_block_is_in_the_text(none, BlockView::Text { text: r.text });
        assert(none.push(BlockView::Text { text: r.text }) =~= text);
    } else {
        lemma_no_text(text);
    }
    assert(blocks_text(reasoning + text + calls) =~= r.text);
}

/// Every chunk's text is shown as it comes and kept, and a change of mode is shown;
/// until the chunk that finishes the round, the turn asks for the next one.
pub proof fn law_chunk_is_shown_and_kept(t: TurnView, env: EnvView, c: ChunkView)
    requires
        t.wf(),
        t.phase == Phase::Streaming,
    ensures
        ({
            let (after, out) = step_spec(t, env, InputView::Chunk { item: Some(Ok(c)) });
            &&& streamed_text(out.events) == said(c)
            &&& after.mode == c.active_mode
            &&& c.active_mode != t.mode ==> out.events.contains(
                AgentEventView::ModeHandoff { from: t.mode, to: c.active_mode },
            )
            &&& forall|i: int|
                0 <= i < out.events.len() ==> ((#[trigger] out.events[i]) is TextDelta || (
                out.events[i] is ModeHandoff && c.active_mode != t.mode))
            &&& c.finish_reason is None ==> out.action is NextChunk && after.phase
                == Phase::Streaming && after.round.text == t.round.text + said(c)
                && after.round.thinking == round_after(t.round, c).thinking && after.round.calls
                == round_after(t.round, c).calls
        }),
{
    let (after, out) = step_spec(t, env, InputView::Chunk { item: Some(Ok(c)) });
    let f = |e: AgentEventView| streamed_part(e);
    let handoff = AgentEventView::ModeHandoff { from: t.mode, to: c.active_mode };
    let delta = AgentEventView::TextDelta { text: said(c) };
    reveal_with_fuel(pick, 3);
    reveal_with_fuel(concat_all, 2);
    if c.active_mode != t.mode {
        if said(c).len() > 0 {
            assert(out.events =~= seq![handoff, delta]);
            assert(seq![handoff, delta].drop_last() =~= seq![handoff]);
            assert(seq![handoff].drop_last() =~= Seq::empty());
            assert(pick(out.events, f) =~= seq![said(c)]);
        } else {
            assert(out.events =~= seq![handoff]);
            assert(seq![handoff].drop_last() =~= Seq::empty());
            assert(pick(out.events, f) =~= Seq::<Seq<char>>::empty());
        }
        assert(out.events[0] == handoff);
    } else if said(c).len() > 0 {
        assert(out.events =~= seq![delta]);
        assert(seq![delta].drop_last() =~= Seq::empty());
        assert(pick(out.events, f) =~= seq![said(c)]);
    } else {
        assert(out.events =~= Seq::empty());
        assert(pick(out.events, f) =~= Seq::<Seq<char>>::empty());
    }
    if said(c).len() > 0 {
        assert(seq![said(c)].drop_last() =~= Seq::empty());
        assert(concat_all(seq![said(c)]) =~= said(c));
    } else {
        assert(said(c) =~= Seq::empty());
    }
}

/// The reason for which a turn is to end, if it is to.
pub open spec fn reason_of(t: TurnView) -> Option<FinishReason> {
    match t.phase {
        Phase::SavingText { reason } => Some(reason),
        Phase::Touching { reason } => Some(reason),
        _ => None,
    }
}

/// A round that the model finishes for any reason but tools ends the turn for that
/// reason, and so does one that finishes for tools without a call, as a plain stop, and
/// one whose stream ends, as a plain stop. The text is stored first, where there is any.
pub proof fn law_turn_ends_for_the_model_s_reason(t: TurnView, env: EnvView, c: ChunkView)
    requires
        t.wf(),
        t.phase == Phase::Streaming,
    ensures
        ({
            let (after, out) = step_spec(t, env, InputView::Chunk { item: Some(Ok(c)) });
            let ends = t.round.text + said(c);
            &&& c.finish_reason matches Some(reason) ==> {
                if reason != FinishReason::ToolCall {
                    reason_of(after) == Some(reason)
                } else if round_after(t.round, c).calls.len() == 0 {
                    reason_of(after) == Some(FinishReason::Stop)
                } else {
                    after.phase == Phase::SavingCalls
                }
            }
            &&& reason_of(after) is Some ==> (after.phase is SavingText <==> ends.len() > 0)
        }),
        ({
            let (after, out) = step_spec(t, env, InputView::Chunk { item: None });
            &&& reason_of(after) == Some(FinishReason::Stop)
            &&& after.phase is SavingText <==> t.round.text.len() > 0
        }),
{
}

/// The reason for which a turn ends is kept until it is told.
pub proof fn law_reason_is_kept(t: TurnView, env: EnvView, cancelled: bool)
    requires
        t.wf(),
    ensures
        ({
            let stored = InputView::Stored { result: Ok(()), cancelled };
            let (after, out) = step_spec(t, env, stored);
            &&& t.phase matches Phase::SavingText { reason } ==> after.phase == (Phase::Touching {
                reason,
            }) && out.events.len() == 0
            &&& t.phase matches Phase::Touching { reason } ==> after.phase == Phase::Done
                && out.events == seq![AgentEventView::TurnFinished { reason }] && out.action
                is Finished
        }),
{
}

/// At its end a turn stores the conversation as it is, with the present time; of the
/// rest of the conversation nothing changes in any step.
pub proof fn law_conversation_is_only_touched(t: TurnView, env: EnvView, input: InputView)
    requires
        t.wf(),
    ensures
        ({
            let (after, out) = step_spec(t, env, input);
            &&& after.conversation == t.conversation
            &&& out.action matches ActionView::Touch { conversation } ==> conversation == (
            ConversationView { updated_at: env.fresh.at, ..t.conversation })
            &&& after.phase is Touching && !(t.phase is Touching) ==> out.action is Touch
            &&& after.user_text == t.user_text && after.user_message_id == t.user_message_id
            &&& after.trace_id == t.trace_id && after.device_id == t.device_id
        }),
{
}

/// A turn that begins says so, with its conversation, the user's message and the mode,
/// and asks at once for what the first round needs.
pub proof fn law_turn_begins_with_a_round(t: TurnView, env: EnvView)
    requires
        t.wf(),
        t.phase == Phase::Idle,
        t.steps < MAX_TOOL_STEPS,
    ensures
        ({
            let (after, out) = step_spec(t, env, InputView::Start);
            &&& out.events == seq![
                AgentEventView::TurnStarted {
                    conversation_id: t.conversation.id,
                    message_id: t.user_message_id,
                    mode: t.mode,
                },
            ]
            &&& out.action is Prepare && after.phase == Phase::Preparing
        }),
{
}

/// Every round asks for the tools of the active mode, for memories that bear on what the
/// user wrote, in the conversation's space, and for the history of the conversation.
pub proof fn law_every_round_is_prepared_alike(t: TurnView, env: EnvView, input: InputView)
    requires
        t.wf(),
    ensures
        ({
            let (after, out) = step_spec(t, env, input);
            out.action matches ActionView::Prepare { mode, query, space_id, conversation_id }
                ==> mode == t.mode && query == t.user_text && space_id == t.conversation.space_id
                && conversation_id == t.conversation.id && after.phase == Phase::Preparing
        }),
{
}

/// The request of a round begins with the conversation's prompt, recalls every memory
/// that was loaded, ends with the newest message, and holds the whole history where it
/// fits the budget, and else its newest part. It names every tool, in order, and asks
/// for the reasoning that is set.
pub proof fn law_request_holds_what_was_loaded(
    t: TurnView,
    env: EnvView,
    descriptors: Seq<ToolDescriptorView>,
    memories: Seq<MemoryView>,
    history: Seq<MessageView>,
)
    requires
        t.wf(),
        t.phase == Phase::Preparing,
    ensures
        ({
            let (after, out) = step_spec(
                t,
                env,
                InputView::Prepared { descriptors, context: Ok((memories, history)) },
            );
            let front: int = if memories.len() == 0 {
                1
            } else {
                2
            };
            &&& after.phase == Phase::Generating && after.descriptors == descriptors
            &&& out.action matches ActionView::Generate { request } && {
                let ms = request.messages;
                &&& request.request_id == env.fresh.third
                &&& request.thinking == env.thinking
                &&& request.streaming_hint
                &&& request.max_tokens is None && request.temperature is None
                &&& descriptors.len() == 0 ==> request.tools is None
                &&& descriptors.len() > 0 ==> (request.tools matches Some(tools) && tools.len()
                    == descriptors.len() && forall|i: int|
                    0 <= i < tools.len() ==> (#[trigger] tools[i]).id == descriptors[i].id
                        && tools[i].description == descriptors[i].display_name
                        && tools[i].input_schema == descriptors[i].input_schema)
                &&& ms.len() >= front && ms[0].role == MessageRole::System
                &&& t.conversation.system_prompt matches Some(p) ==> ms[0].text_content() == p
                &&& t.conversation.system_prompt is None ==> ms[0].text_content()
                    == DEFAULT_SYSTEM_PROMPT@
                &&& memories.len() > 0 ==> ms[1].role == MessageRole::System && laid_out(
                    ms[1].text_content().skip(
                        "Relevant memories recalled for this turn:\n"@.len() as int,
                    ),
                    Seq::new(memories.len(), |i: int| "- "@ + memories[i].content),
                    "\n"@,
                )
                &&& history.len() > 0 ==> ms.len() > front && ms.last() == history.last()
                &&& ms.len() - front <= history.len() && ms.skip(front) == history.skip(
                    history.len() - (ms.len() - front),
                )
                &&& total_cost(ms.take(front)) + total_cost(history) <= env.budget_chars ==> ms.skip(
                    front,
                ) == history
            }
        }),
{
    let head = preamble(
        t.conversation,
        memories,
        env.fresh.first,
        env.fresh.second,
        env.fresh.at,
    );
    let budget = env.budget_chars as int;
    let ms = compacted(head, history, budget);
    law_preamble_holds_the_prompt_and_every_memory(
        t.conversation,
        memories,
        env.fresh.first,
        env.fresh.second,
        env.fresh.at,
    );
    law_preamble_is_kept(head, history, budget);
    law_kept_history_is_a_suffix(head, history, budget);
    if history.len() > 0 {
        law_newest_survives(head, history, budget);
    }
    assert(ms.take(head.len() as int)[0] == ms[0]);
    if memories.len() > 0 {
        assert(ms.take(head.len() as int)[1] == ms[1]);
    }
    if total_cost(head) + total_cost(history) <= budget {
        law_small_history_is_kept_whole(head, history, budget);
        assert((head + history).skip(head.len() as int) =~= history);
    }
}

/// A tool is run for the call at hand: the tool that the model named, with the arguments
/// that it gave, for the conversation and the message that carries the call.
pub proof fn law_tool_runs_as_it_was_called(t: TurnView, env: EnvView, input: InputView)
    requires
        t.wf(),
    ensures
        ({
            let (after, out) = step_spec(t, env, input);
            out.action matches ActionView::Invoke { invocation } ==> {
                &&& after.next_call < after.calls.len()
                &&& invocation.tool_id == after.calls[after.next_call as int].tool_id
                &&& invocation.args == parsed_args(after.calls[after.next_call as int].args_raw)
                &&& invocation.conversation_id == t.conversation.id
                &&& invocation.session_id == t.conversation.id
                &&& invocation.message_id == t.message_id
                &&& invocation.compute_mode == t.mode
                &&& invocation.trace_id == t.trace_id
                &&& invocation.invocation_id == env.fresh.first
                &&& after.phase == Phase::Invoking && after.output == JsonView::Null
            }
        }),
{
}

/// The calls of a round are taken one after the other, each when the result of the one
/// before it is stored, and the next round begins when all have been answered.
pub proof fn law_calls_are_taken_in_order(t: TurnView, env: EnvView, cancelled: bool)
    requires
        t.wf(),
        t.phase == Phase::SavingResult || t.phase == Phase::SavingCalls,
    ensures
        ({
            let stored = InputView::Stored { result: Ok(()), cancelled };
            let (after, out) = step_spec(t, env, stored);
            let next = if t.phase == Phase::SavingResult {
                t.next_call + 1
            } else {
                0
            };
            &&& after.calls == t.calls && after.next_call == next
            &&& next < t.calls.len() && !cancelled ==> after.phase == Phase::AwaitingApproval
                || after.phase == Phase::Invoking || after.phase == Phase::Auditing
            &&& next < t.calls.len() && cancelled ==> after.phase == (Phase::Touching {
                reason: FinishReason::Cancelled,
            })
            &&& next >= t.calls.len() && t.steps < MAX_TOOL_STEPS ==> out.action is Prepare
            &&& next >= t.calls.len() && t.steps >= MAX_TOOL_STEPS ==> after.phase == (
            Phase::Touching { reason: FinishReason::Error }) && out.events == seq![
                AgentEventView::Error { message: cap_text() },
            ]
        }),
{
    assert(Seq::<AgentEventView>::empty().push(AgentEventView::Error { message: cap_text() })
        =~= seq![AgentEventView::Error { message: cap_text() }]);
}

/// Which calls there are, and which one is at hand, changes only when a round ends in
/// calls and when a result is stored.
pub proof fn law_call_at_hand_stays(t: TurnView, env: EnvView, input: InputView)
    requires
        t.wf(),
        t.phase != Phase::Streaming,
        t.phase != Phase::SavingResult,
    ensures
        ({
            let (after, out) = step_spec(t, env, input);
            after.calls == t.calls && after.next_call == t.next_call && after.message_id
                == t.message_id
        }),
{
}

/// Every call, the first of a round and each later one, begins as its tool asks: an unknown
/// tool is refused, which is shown and told to the model; one that requires approval is
/// shown for approval, under the identifier that the decision will come for; any other runs.
pub proof fn law_call_begins_as_its_tool_asks(t: TurnView, env: EnvView, next: int)
    requires
        t.wf(),
        t.phase == Phase::SavingCalls && next == 0 || t.phase == Phase::SavingResult && next
            == t.next_call + 1,
        next < t.calls.len(),
    ensures
        ({
            let stored = InputView::Stored { result: Ok(()), cancelled: false };
            let (after, out) = step_spec(t, env, stored);
            let call = t.calls[next];
            let id = call.tool_id;
            match tool_position(t.descriptors, id, 0) {
                None => {
                    &&& out.action matches ActionView::Audit { event } && event.outcome
                        == AuditOutcome::Denied
                    &&& after.output.at("error"@) == JsonView::Str(unknown_tool_text(id))
                    &&& out.events == seq![
                        AgentEventView::Error { message: unknown_tool_text(id) },
                    ]
                    &&& after.approval is None
                },
                Some(k) => if t.descriptors[k].requires_approval {
                    &&& out.action == (ActionView::AwaitApproval { approval_id: env.fresh.first })
                    &&& after.approval == Some(env.fresh.first)
                    &&& out.events == seq![
                        AgentEventView::ApprovalRequired {
                            approval_id: env.fresh.first,
                            summary: approval_summary(t.descriptors[k], call.args_raw),
                        },
                    ]
                } else {
                    out.action is Invoke && after.approval is None && out.events.len() == 0
                },
            }
        }),
{
    law_error_output_tells_the_message(unknown_tool_text(t.calls[next].tool_id));
}

/// An approved call runs; one that is not is recorded as denied, and the model is told.
/// The approval stays with the call either way.
pub proof fn law_decision_decides(t: TurnView, env: EnvView, approved: bool)
    requires
        t.wf(),
        t.phase == Phase::AwaitingApproval,
    ensures
        ({
            let (after, out) = step_spec(t, env, InputView::Decision { approved });
            &&& after.approval == t.approval
            &&& approved ==> out.action is Invoke
            &&& !approved ==> (out.action matches ActionView::Audit { event } && event.outcome
                == AuditOutcome::Denied) && after.output == denied_output()
            &&& out.events.len() == 0
        }),
{
}

/// Every event of a tool is shown. The output of the call is the last result or error
/// that the tool gave; other events do not change it.
pub proof fn law_tool_events_are_shown_and_kept(t: TurnView, env: EnvView, e: ToolEventView)
    requires
        t.wf(),
        t.phase == Phase::Running,
    ensures
        ({
            let (after, out) = step_spec(t, env, InputView::ToolItem { event: Some(Ok(e)) });
            &&& out.events == seq![AgentEventView::Tool { event: e }]
            &&& match e {
                ToolEventView::Result { output, .. } => after.output == output,
                ToolEventView::Error { message, .. } => after.output.at("error"@) == JsonView::Str(
                    message,
                ),
                _ => after.output == t.output,
            }
            &&& e is Cancelled ==> after.phase == (Phase::Touching {
                reason: FinishReason::Cancelled,
            })
            &&& !(e is Cancelled) ==> after.phase == Phase::Running && out.action is NextToolEvent
        }),
{
    if let ToolEventView::Error { message, .. } = e {
        law_error_output_tells_the_message(message);
    }
}

/// A tool that has ended is recorded as allowed, with the output that it gave. One that
/// fails is recorded as allowed too; the failure is shown, and told to the model, and the
/// turn goes on.
pub proof fn law_tool_ends_with_a_record(t: TurnView, env: EnvView, e: ContractErrorView)
    requires
        t.wf(),
    ensures
        t.phase == Phase::Running ==> {
            let (after, out) = step_spec(t, env, InputView::ToolItem { event: None });
            &&& after.output == t.output && out.events.len() == 0
            &&& out.action matches ActionView::Audit { event } && event.outcome
                == AuditOutcome::Allowed
        },
        t.phase == Phase::Running || t.phase == Phase::Invoking ==> {
            let (after, out) = if t.phase == Phase::Running {
                step_spec(t, env, InputView::ToolItem { event: Some(Err(e)) })
            } else {
                step_spec(t, env, InputView::Invoked { result: Err(e) })
            };
            &&& after.output.at("error"@) == JsonView::Str(e.message())
            &&& out.events == seq![AgentEventView::Error { message: e.message() }]
            &&& out.action matches ActionView::Audit { event } && event.outcome
                == AuditOutcome::Allowed
        },
        t.phase == Phase::Invoking ==> {
            let (after, out) = step_spec(t, env, InputView::Invoked { result: Ok(()) });
            after.phase == Phase::Running && out.action is NextToolEvent && after.output
                == t.output
        },
{
    law_error_output_tells_the_message(e.message());
}

/// Every record in the audit log is that of the call at hand, with its tool, its
/// arguments and its approval.
pub proof fn law_record_is_of_the_call_at_hand(t: TurnView, env: EnvView, input: InputView)
    requires
        t.wf(),
    ensures
        ({
            let (after, out) = step_spec(t, env, input);
            out.action matches ActionView::Audit { event } ==> {
                let call = after.calls[after.next_call as int];
                &&& after.next_call < after.calls.len()
                &&& event.resource_ref == Some(call.tool_id)
                &&& event.metadata.at("call_id"@) == JsonView::Str(call.call_id)
                &&& event.metadata.at("args"@) == parsed_args(call.args_raw)
                &&& event.metadata.at("trace_id"@) == JsonView::Str(t.trace_id.text())
                &&& after.approval matches Some(u) ==> event.metadata.at("approval_id"@)
                    == JsonView::Str(u.text())
                &&& after.approval is None ==> event.metadata.at("approval_id"@) == JsonView::Null
                &&& event.session_id == Some(t.conversation.id) && event.device_id == t.device_id
                &&& event.event_type == AuditEventType::ToolCall && event.actor
                    == AuditActor::Agent
                &&& event.event_id == env.fresh.first && event.timestamp == env.fresh.at
            }
        }),
{
    let (after, out) = step_spec(t, env, input);
    if let ActionView::Audit { event } = out.action {
        law_audit_event_tells_of_the_call(
            after.calls[after.next_call as int],
            event.outcome,
            after.approval,
            t.conversation.id,
            t.device_id,
            t.trace_id,
            env.fresh.first,
            env.fresh.at,
        );
    }
}

/// Once a call is recorded its output is stored, as the answer to that call, with the
/// approval under which it ran.
pub proof fn law_recorded_output_is_stored(t: TurnView, env: EnvView, cancelled: bool)
    requires
        t.wf(),
        t.phase == Phase::Auditing,
    ensures
        ({
            let stored = InputView::Stored { result: Ok(()), cancelled };
            let (after, out) = step_spec(t, env, stored);
            &&& after.phase == Phase::SavingResult && out.events.len() == 0
            &&& out.action matches ActionView::Append { message } && {
                &&& message.role == MessageRole::Tool && message.conversation_id
                    == t.conversation.id
                &&& message.mode == t.mode && message.id == env.fresh.first
                &&& t.approval matches Some(u) ==> message.approval_refs == seq![u]
                &&& t.approval is None ==> message.approval_refs.len() == 0
                &&& message.content.len() > 0
                &&& message.content[0] matches BlockView::ToolResult { call_id, output } && call_id
                    == t.calls[t.next_call as int].call_id && (!(t.output.at("image_hex"@) is Str)
                    ==> output == t.output)
            }
        }),
{
    law_result_carries_the_output(
        t.call().call_id,
        t.output,
        t.approval,
        env.vision,
        t.conversation.id,
        t.mode,
        env.fresh.first,
        env.fresh.at,
    );
}

/// A failure to load, to generate or to store is shown in its own words, and ends the
/// turn as failed.
pub proof fn law_failure_is_shown_and_ends_the_turn(
    t: TurnView,
    env: EnvView,
    e: ContractErrorView,
    descriptors: Seq<ToolDescriptorView>,
    cancelled: bool,
)
    requires
        t.wf(),
    ensures
        ({
            let step = match t.phase {
                Phase::Preparing => Some(
                    step_spec(t, env, InputView::Prepared { descriptors, context: Err(e) }),
                ),
                Phase::Generating => Some(
                    step_spec(t, env, InputView::Generated { result: Err(e) }),
                ),
                Phase::Streaming => Some(
                    step_spec(t, env, InputView::Chunk { item: Some(Err(e)) }),
                ),
                Phase::SavingText { .. } | Phase::SavingCalls | Phase::Auditing
                | Phase::SavingResult => Some(
                    step_spec(t, env, InputView::Stored { result: Err(e), cancelled }),
                ),
                _ => None,
            };
            step matches Some((after, out)) ==> after.phase == (Phase::Touching {
                reason: FinishReason::Error,
            }) && out.events == seq![AgentEventView::Error { message: e.message() }]
        }),
{
}

/// A generation that has begun is streamed into an empty round.
pub proof fn law_round_starts_empty(t: TurnView, env: EnvView)
    requires
        t.wf(),
        t.phase == Phase::Generating,
    ensures
        ({
            let (after, out) = step_spec(t, env, InputView::Generated { result: Ok(()) });
            &&& after.phase == Phase::Streaming && out.action is NextChunk
            &&& after.round.text.len() == 0 && after.round.thinking.len() == 0
            &&& after.round.signature is None && after.round.calls.len() == 0
            &&& after.descriptors == t.descriptors && out.events.len() == 0
        }),
{
}

/// Cancelling while text streams stores what was streamed.
pub proof fn law_cancelled_text_is_stored(t: TurnView, env: EnvView)
    requires
        t.wf(),
        t.phase == Phase::Streaming,
        t.round.text.len() > 0,
    ensures
        step_spec(t, env, InputView::Cancelled).1.action matches ActionView::Append { message }
            && message.text_content() == t.round.text && message.role == MessageRole::Assistant
            && message.conversation_id == t.conversation.id && message.model_id == Some(
            env.model_id,
        ),
{
    law_plain_message_holds_its_text(
        env.fresh.first,
        env.fresh.at,
        t.conversation.id,
        MessageRole::Assistant,
        t.round.text,
        t.mode,
        0,
    );
}

/// The final text of a turn is stored as the assistant's message: all that the round
/// streamed, by the model that serves, in the mode that answered.
pub proof fn law_final_text_is_stored(t: TurnView, env: EnvView, c: ChunkView)
    requires
        t.wf(),
        t.phase == Phase::Streaming,
        step_spec(t, env, InputView::Chunk { item: Some(Ok(c)) }).0.phase is SavingText,
    ensures
        step_spec(t, env, InputView::Chunk { item: Some(Ok(c)) }).1.action matches ActionView::Append {
            message,
        } && message.text_content() == t.round.text + said(c) && message.role
            == MessageRole::Assistant && message.conversation_id == t.conversation.id
            && message.model_id == Some(env.model_id) && message.mode == c.active_mode
            && message.id == env.fresh.first && message.created_at == env.fresh.at
            && message.approval_refs.len() == 0,
{
    law_plain_message_holds_its_text(
        env.fresh.first,
        env.fresh.at,
        t.conversation.id,
        MessageRole::Assistant,
        round_after(t.round, c).text,
        c.active_mode,
        0,
    );
    assert(round_after(t.round, c).text =~= t.round.text + said(c));
}

/// An input that the turn does not wait for changes nothing and shows nothing.
pub proof fn law_unfitting_input_changes_nothing(t: TurnView, env: EnvView, input: InputView)
    requires
        t.wf(),
        step_spec(t, env, input).1.action is Wait,
    ensures
        step_spec(t, env, input).0 == t,
        step_spec(t, env, input).1.events.len() == 0,
        step_spec(t, env, input).1.discard is None,
{
}

/// An approval is dropped only when the turn is cancelled while it waits for the decision.
pub proof fn law_approval_is_dropped_only_on_cancellation(
    t: TurnView,
    env: EnvView,
    input: InputView,
)
    requires
        t.wf(),
        step_spec(t, env, input).1.discard is Some,
    ensures
        t.phase == Phase::AwaitingApproval,
        input == InputView::Cancelled,
        step_spec(t, env, input).1.discard == t.approval,
{
}

} // verus!
