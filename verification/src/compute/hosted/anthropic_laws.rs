//! What holds of every request body and of every event stream of the Anthropic
//! Messages API.

use crate::compute::hosted::anthropic::{
    base_entries, block_index, body_spec, effective_thinking, handle_spec, output_text,
    sampling_entries, started_call_id,
    system_entries, system_parts, system_text, tool_entries, turn, unreplayable, wire_block,
    wire_budget, wire_max_tokens, wire_message, wire_messages, wire_part, ParserView, Part,
};
use crate::contracts::compute::{FinishReason, RequestView};
use crate::contracts::data::{BlockView, MessageRole, MessageView};
use crate::contracts::error::{ContractErrorView, InferenceErrorView};
use crate::json::{
    json_parsed, json_text, lemma_entries_map_absent, lemma_obj_at, lemma_obj_of_four,
    lemma_obj_of_three, lemma_obj_of_two, natural_number, obj, JsonView,
};
use crate::model::{lemma_pick_filter, lemma_same_filter};
use crate::text::{
    decimal, join, laid_out, law_decimal_texts_are_told_apart, law_joined_texts_hold_every_part,
    stands_at, trim,
};
use vstd::prelude::*;

verus! {

/// The entries of a request body.
spec fn entries(model: Seq<char>, req: RequestView) -> Seq<(Seq<char>, JsonView)> {
    base_entries(model, req) + system_entries(req) + sampling_entries(req) + tool_entries(req)
}

/// The keys of a request body are different texts.
proof fn lemma_keys()
    ensures
        "model"@.len() == 5 && "model"@[0] == 'm',
        "messages"@.len() == 8 && "messages"@[0] == 'm',
        "max_tokens"@.len() == 10,
        "stream"@.len() == 6 && "stream"@[1] == 't',
        "system"@.len() == 6 && "system"@[1] == 'y',
        "thinking"@.len() == 8 && "thinking"@[0] == 't',
        "temperature"@.len() == 11,
        "tools"@.len() == 5 && "tools"@[0] == 't',
{
    reveal_strlit("model");
    reveal_strlit("messages");
    reveal_strlit("max_tokens");
    reveal_strlit("stream");
    reveal_strlit("system");
    reveal_strlit("thinking");
    reveal_strlit("temperature");
    reveal_strlit("tools");
}

/// The members that every request body has.
proof fn lemma_base(model: Seq<char>, req: RequestView)
    ensures
        body_spec(model, req).at("model"@) == JsonView::Str(model),
        body_spec(model, req).at("messages"@) == JsonView::Array(wire_messages(req.messages)),
        body_spec(model, req).at("max_tokens"@) == JsonView::Number(
            natural_number(wire_max_tokens(req) as u64),
        ),
        body_spec(model, req).at("stream"@) == JsonView::Bool(true),
{
    lemma_keys();
    let es = entries(model, req);
    assert(es[0].0 == "model"@ && es[1].0 == "messages"@ && es[2].0 == "max_tokens"@ && es[3].0
        == "stream"@);
    lemma_obj_at(es, 0);
    lemma_obj_at(es, 1);
    lemma_obj_at(es, 2);
    lemma_obj_at(es, 3);
}

/// The member for the system prompt.
proof fn lemma_system(model: Seq<char>, req: RequestView)
    ensures
        body_spec(model, req).at("system"@) == (if system_parts(req.messages).len() == 0 {
            JsonView::Null
        } else {
            JsonView::Str(join(system_parts(req.messages), "\n"@))
        }),
{
    lemma_keys();
    let es = entries(model, req);
    if system_parts(req.messages).len() == 0 {
        assert forall|j: int| 0 <= j < es.len() implies es[j].0 != "system"@ by {}
        lemma_entries_map_absent(es, "system"@);
    } else {
        assert(es[4].0 == "system"@);
        lemma_obj_at(es, 4);
    }
}

/// The members for the reasoning and the temperature.
proof fn lemma_sampling(model: Seq<char>, req: RequestView)
    ensures
        effective_thinking(req) matches Some(t) ==> body_spec(model, req).at("thinking"@) == obj(
            seq![
                ("type"@, JsonView::Str("enabled"@)),
                ("budget_tokens"@, JsonView::Number(natural_number(wire_budget(t) as u64))),
            ],
        ) && body_spec(model, req).at("temperature"@) == JsonView::Null,
        effective_thinking(req) is None ==> body_spec(model, req).at("thinking"@) == JsonView::Null
            && body_spec(model, req).at("temperature"@) == (match req.temperature {
            Some(n) => JsonView::Number(n),
            None => JsonView::Null,
        }),
{
    lemma_keys();
    let es = entries(model, req);
    let i = (base_entries(model, req) + system_entries(req)).len() as int;
    match effective_thinking(req) {
        Some(t) => {
            assert(es[i].0 == "thinking"@);
            lemma_obj_at(es, i);
            assert forall|j: int| 0 <= j < es.len() implies es[j].0 != "temperature"@ by {}
            lemma_entries_map_absent(es, "temperature"@);
        },
        None => {
            assert forall|j: int| 0 <= j < es.len() implies es[j].0 != "thinking"@ by {}
            lemma_entries_map_absent(es, "thinking"@);
            if req.temperature is Some {
                assert(es[i].0 == "temperature"@);
                lemma_obj_at(es, i);
            } else {
                assert forall|j: int| 0 <= j < es.len() implies es[j].0 != "temperature"@ by {}
                lemma_entries_map_absent(es, "temperature"@);
            }
        },
    }
}

/// Every system message reaches the model: the system text of a request body is made of
/// the texts of all system messages, in order, each on lines of its own. A request
/// without system messages has no system text.
pub proof fn law_system_text_holds_every_system_message(model: Seq<char>, req: RequestView)
    ensures
        ({
            let told = req.messages.filter(|m: MessageView| m.role == MessageRole::System);
            if told.len() == 0 {
                body_spec(model, req).at("system"@) == JsonView::Null
            } else {
                body_spec(model, req).at("system"@) matches JsonView::Str(text) && laid_out(
                    text,
                    Seq::new(told.len(), |i: int| told[i].text_content()),
                    "\n"@,
                )
            }
        }),
{
    let f = |m: MessageView| system_text(m);
    let some = |m: MessageView| f(m) is Some;
    let system = |m: MessageView| m.role == MessageRole::System;
    let told = req.messages.filter(system);
    lemma_same_filter(req.messages, some, system);
    lemma_pick_filter(req.messages, f);
    let texts = Seq::new(told.len(), |i: int| told[i].text_content());
    assert forall|i: int| 0 <= i < told.len() implies system(#[trigger] told[i]) by {
        req.messages.lemma_filter_pred(system, i);
    }
    assert(system_parts(req.messages) =~= texts);
    lemma_system(model, req);
    law_joined_texts_hold_every_part(texts, "\n"@);
}

/// A request body names the model, asks for a stream, and gives the request's token
/// limit, or the default one. With reasoning the limit is no lower than asked for and
/// leaves at least the default for the answer, as far as the largest limit allows.
pub proof fn law_body_names_the_model_and_the_limit(model: Seq<char>, req: RequestView)
    ensures
        ({
            let body = body_spec(model, req);
            let asked: int = match req.max_tokens {
                Some(n) => n as int,
                None => 1024,
            };
            &&& body.at("model"@) == JsonView::Str(model)
            &&& body.at("stream"@) == JsonView::Bool(true)
            &&& body.at("max_tokens"@) == JsonView::Number(
                natural_number(wire_max_tokens(req) as u64),
            )
            &&& effective_thinking(req) is None ==> wire_max_tokens(req) == asked
            &&& effective_thinking(req) matches Some(t) ==> {
                &&& wire_max_tokens(req) >= asked
                &&& wire_max_tokens(req) == asked || wire_max_tokens(req) == wire_budget(t) + 1024
                    || wire_max_tokens(req) == u32::MAX
                &&& wire_max_tokens(req) >= wire_budget(t) + 1024 || wire_max_tokens(req)
                    == u32::MAX
            }
        }),
{
    lemma_base(model, req);
}

/// Reasoning is asked for just where the request wants it and every assistant message
/// that calls a tool can be replayed with its signed reasoning, with the budget that the
/// request names, or the least one that the API takes. Else the temperature is sent,
/// where there is one.
pub proof fn law_reasoning_is_asked_for_as_set(model: Seq<char>, req: RequestView)
    ensures
        ({
            let body = body_spec(model, req);
            let replayable = forall|i: int|
                0 <= i < req.messages.len() ==> !((#[trigger] req.messages[i]).role
                    == MessageRole::Assistant && req.messages[i].has_tool_call()
                    && !req.messages[i].has_thinking());
            if replayable && req.thinking is Some {
                &&& body.at("thinking"@).at("type"@) == JsonView::Str("enabled"@)
                &&& body.at("thinking"@).at("budget_tokens"@) == JsonView::Number(
                    natural_number(
                        if req.thinking->0.budget_tokens >= 1024 {
                            req.thinking->0.budget_tokens as u64
                        } else {
                            1024
                        },
                    ),
                )
                &&& body.at("temperature"@) == JsonView::Null
            } else {
                &&& body.at("thinking"@) == JsonView::Null
                &&& req.temperature matches Some(n) ==> body.at("temperature"@)
                    == JsonView::Number(n)
                &&& req.temperature is None ==> body.at("temperature"@) == JsonView::Null
            }
        }),
{
    lemma_sampling(model, req);
    assert(forall|i: int|
        0 <= i < req.messages.len() ==> unreplayable(#[trigger] req.messages[i]) == (
        req.messages[i].role == MessageRole::Assistant && req.messages[i].has_tool_call()
            && !req.messages[i].has_thinking()));
    if let Some(t) = effective_thinking(req) {
        reveal_strlit("type");
        reveal_strlit("budget_tokens");
        assert("type"@.len() != "budget_tokens"@.len());
        lemma_obj_of_two(
            ("type"@, JsonView::Str("enabled"@)),
            ("budget_tokens"@, JsonView::Number(natural_number(wire_budget(t) as u64))),
        );
    }
}

/// Every tool of a request is named in its body, in order, with its description and the
/// schema of its arguments.
pub proof fn law_every_tool_is_named(model: Seq<char>, req: RequestView)
    ensures
        req.tools is None ==> body_spec(model, req).at("tools"@) == JsonView::Null,
        req.tools matches Some(tools) ==> (body_spec(model, req).at("tools"@) matches JsonView::Array(
            named,
        ) && named.len() == tools.len() && forall|i: int|
            0 <= i < tools.len() ==> {
                &&& (#[trigger] named[i]).at("name"@) == JsonView::Str(tools[i].id)
                &&& named[i].at("description"@) == JsonView::Str(tools[i].description)
                &&& named[i].at("input_schema"@) == tools[i].input_schema
            }),
{
    lemma_keys();
    let es = entries(model, req);
    match req.tools {
        None => {
            assert forall|j: int| 0 <= j < es.len() implies es[j].0 != "tools"@ by {}
            lemma_entries_map_absent(es, "tools"@);
        },
        Some(tools) => {
            assert(es[es.len() - 1].0 == "tools"@);
            lemma_obj_at(es, es.len() - 1);
            reveal_strlit("name");
            reveal_strlit("description");
            reveal_strlit("input_schema");
            assert("name"@.len() == 4 && "description"@.len() == 11 && "input_schema"@.len() == 12);
            let named = body_spec(model, req).at("tools"@)->Array_0;
            assert forall|i: int| 0 <= i < tools.len() implies {
                &&& (#[trigger] named[i]).at("name"@) == JsonView::Str(tools[i].id)
                &&& named[i].at("description"@) == JsonView::Str(tools[i].description)
                &&& named[i].at("input_schema"@) == tools[i].input_schema
            } by {
                lemma_obj_of_three(
                    ("name"@, JsonView::Str(tools[i].id)),
                    ("description"@, JsonView::Str(tools[i].description)),
                    ("input_schema"@, tools[i].input_schema),
                );
            }
        },
    }
}

/// Every message but the system messages is among the messages of a request body, in
/// order, in the role that the API knows.
pub proof fn law_every_message_is_sent(model: Seq<char>, req: RequestView)
    ensures
        ({
            let told = req.messages.filter(|m: MessageView| m.role != MessageRole::System);
            body_spec(model, req).at("messages"@) matches JsonView::Array(sent) && sent.len()
                == told.len() && forall|i: int|
                0 <= i < sent.len() ==> wire_message(told[i]) == Some(#[trigger] sent[i])
                    && sent[i].at("role"@) == JsonView::Str(
                    if told[i].role == MessageRole::Assistant {
                        "assistant"@
                    } else {
                        "user"@
                    },
                )
        }),
{
    let f = |m: MessageView| wire_message(m);
    let some = |m: MessageView| f(m) is Some;
    let sent_role = |m: MessageView| m.role != MessageRole::System;
    let told = req.messages.filter(sent_role);
    lemma_same_filter(req.messages, some, sent_role);
    lemma_pick_filter(req.messages, f);
    lemma_base(model, req);
    let sent = wire_messages(req.messages);
    assert forall|i: int| 0 <= i < sent.len() implies wire_message(told[i]) == Some(
        #[trigger] sent[i],
    ) && sent[i].at("role"@) == JsonView::Str(
        if told[i].role == MessageRole::Assistant {
            "assistant"@
        } else {
            "user"@
        },
    ) by {
        req.messages.lemma_filter_pred(sent_role, i);
        lemma_turns();
    }
}

/// The members of a message on the wire.
proof fn lemma_turns()
    ensures
        forall|role: Seq<char>, content: JsonView|
            (#[trigger] turn(role, content)).at("role"@) == JsonView::Str(role) && turn(
                role,
                content,
            ).at("content"@) == content,
{
    reveal_strlit("role");
    reveal_strlit("content");
    assert("role"@.len() != "content"@.len());
    assert forall|role: Seq<char>, content: JsonView|
        (#[trigger] turn(role, content)).at("role"@) == JsonView::Str(role) && turn(
            role,
            content,
        ).at("content"@) == content by {
        lemma_obj_of_two(("role"@, JsonView::Str(role)), ("content"@, content));
    }
}

/// Whether a block on the wire tells all that a content block holds.
pub open spec fn tells(sent: JsonView, b: BlockView) -> bool {
    match b {
        BlockView::Text { text } => sent.at("type"@) == JsonView::Str("text"@) && sent.at("text"@)
            == JsonView::Str(text),
        BlockView::Thinking { thinking, signature } => sent.at("type"@) == JsonView::Str(
            "thinking"@,
        ) && sent.at("thinking"@) == JsonView::Str(thinking) && sent.at("signature"@)
            == JsonView::Str(signature),
        BlockView::ToolCall { call_id, tool_id, args } => sent.at("type"@) == JsonView::Str(
            "tool_use"@,
        ) && sent.at("id"@) == JsonView::Str(call_id) && sent.at("name"@) == JsonView::Str(tool_id)
            && sent.at("input"@) == args,
        BlockView::ToolResult { call_id, output } => sent.at("type"@) == JsonView::Str(
            "tool_result"@,
        ) && sent.at("tool_use_id"@) == JsonView::Str(call_id) && sent.at("content"@)
            == JsonView::Str(
            match output {
                JsonView::Str(s) => s,
                _ => json_text(output),
            },
        ),
        BlockView::Image { media_type, data } => sent.at("type"@) == JsonView::Str("image"@)
            && sent.at("source"@).at("type"@) == JsonView::Str("base64"@) && sent.at("source"@).at(
            "media_type"@,
        ) == JsonView::Str(media_type) && sent.at("source"@).at("data"@) == JsonView::Str(data),
        BlockView::ArtifactRef { .. } => false,
    }
}

/// Whether blocks on the wire tell content blocks, one for one and in order.
pub open spec fn tell_all(sent: Seq<JsonView>, blocks: Seq<BlockView>) -> bool {
    sent.len() == blocks.len() && forall|i: int|
        0 <= i < sent.len() ==> tells(#[trigger] sent[i], blocks[i])
}

/// A block on the wire tells all that the content block holds.
proof fn lemma_wire_block(part: Part, b: BlockView)
    ensures
        wire_block(part, b) matches Some(sent) ==> tells(sent, b),
{
    reveal_strlit("type");
    reveal_strlit("text");
    reveal_strlit("thinking");
    reveal_strlit("signature");
    reveal_strlit("id");
    reveal_strlit("name");
    reveal_strlit("input");
    reveal_strlit("tool_use_id");
    reveal_strlit("content");
    reveal_strlit("source");
    reveal_strlit("media_type");
    reveal_strlit("data");
    assert("type"@.len() == 4 && "type"@[1] == 'y' && "text"@.len() == 4 && "text"@[1] == 'e');
    assert("thinking"@.len() == 8 && "signature"@.len() == 9);
    assert("id"@.len() == 2 && "name"@.len() == 4 && "name"@[0] == 'n' && "input"@.len() == 5);
    assert("tool_use_id"@.len() == 11 && "content"@.len() == 7);
    assert("source"@.len() == 6 && "media_type"@.len() == 10 && "data"@.len() == 4 && "data"@[0]
        == 'd');
    assert("type"@[0] == 't');
    match b {
        BlockView::Text { text } => {
            lemma_obj_of_two(
                ("type"@, JsonView::Str("text"@)),
                ("text"@, JsonView::Str(text)),
            );
        },
        BlockView::Thinking { thinking, signature } => {
            lemma_obj_of_three(
                ("type"@, JsonView::Str("thinking"@)),
                ("thinking"@, JsonView::Str(thinking)),
                ("signature"@, JsonView::Str(signature)),
            );
        },
        BlockView::ToolCall { call_id, tool_id, args } => {
            lemma_obj_of_four(
                ("type"@, JsonView::Str("tool_use"@)),
                ("id"@, JsonView::Str(call_id)),
                ("name"@, JsonView::Str(tool_id)),
                ("input"@, args),
            );
        },
        BlockView::ToolResult { call_id, output } => {
            lemma_obj_of_three(
                ("type"@, JsonView::Str("tool_result"@)),
                ("tool_use_id"@, JsonView::Str(call_id)),
                ("content"@, JsonView::Str(output_text(output))),
            );
        },
        BlockView::Image { media_type, data } => {
            let source = obj(
                seq![
                    ("type"@, JsonView::Str("base64"@)),
                    ("media_type"@, JsonView::Str(media_type)),
                    ("data"@, JsonView::Str(data)),
                ],
            );
            lemma_obj_of_three(
                ("type"@, JsonView::Str("base64"@)),
                ("media_type"@, JsonView::Str(media_type)),
                ("data"@, JsonView::Str(data)),
            );
            lemma_obj_of_two(("type"@, JsonView::Str("image"@)), ("source"@, source));
        },
        BlockView::ArtifactRef { .. } => {},
    }
}

/// Whether a block goes into a part of a message.
pub open spec fn goes_into(part: Part, b: BlockView) -> bool {
    match part {
        Part::Reasoning => b is Thinking,
        Part::Said => b is ToolCall || (b matches BlockView::Text { text } && text.len() > 0),
        Part::Results => b is ToolResult,
        Part::Images => b is Image,
    }
}

/// A part of a message holds all blocks that go into it, in order.
pub proof fn law_part_holds_all_its_blocks(part: Part, content: Seq<BlockView>)
    ensures
        tell_all(
            wire_part(part, content),
            content.filter(|b: BlockView| goes_into(part, b)),
        ),
{
    let f = |b: BlockView| wire_block(part, b);
    let some = |b: BlockView| f(b) is Some;
    let into = |b: BlockView| goes_into(part, b);
    lemma_same_filter(content, some, into);
    lemma_pick_filter(content, f);
    let kept = content.filter(into);
    assert forall|i: int| 0 <= i < kept.len() implies tells(
        #[trigger] wire_part(part, content)[i],
        kept[i],
    ) by {
        content.lemma_filter_pred(into, i);
        lemma_wire_block(part, kept[i]);
    }
}

/// An assistant message is sent with its reasoning first and then its text and its tool
/// calls, all of them and in order. Only one that calls no tool and has a single block at
/// most is sent as plain text.
pub proof fn law_assistant_message_is_sent_whole(m: MessageView)
    requires
        m.role == MessageRole::Assistant,
    ensures
        ({
            let thoughts = m.content.filter(|b: BlockView| goes_into(Part::Reasoning, b));
            let said = m.content.filter(|b: BlockView| goes_into(Part::Said, b));
            let sent = wire_message(m)->0;
            if m.has_tool_call() || thoughts.len() + said.len() > 1 {
                sent.at("content"@) matches JsonView::Array(blocks) && tell_all(
                    blocks,
                    thoughts + said,
                )
            } else {
                sent.at("content"@) == JsonView::Str(m.text_content())
            }
        }),
{
    law_part_holds_all_its_blocks(Part::Reasoning, m.content);
    law_part_holds_all_its_blocks(Part::Said, m.content);
    lemma_turns();
}

/// A tool message is sent with all its results, in order, and then all its images; one
/// that has neither is sent as its text.
pub proof fn law_tool_message_is_sent_whole(m: MessageView)
    requires
        m.role == MessageRole::Tool,
    ensures
        ({
            let results = m.content.filter(|b: BlockView| goes_into(Part::Results, b));
            let images = m.content.filter(|b: BlockView| goes_into(Part::Images, b));
            let sent = wire_message(m)->0;
            if results.len() + images.len() > 0 {
                sent.at("content"@) matches JsonView::Array(blocks) && tell_all(
                    blocks,
                    results + images,
                )
            } else {
                sent.at("content"@) == JsonView::Str(m.text_content())
            }
        }),
{
    law_part_holds_all_its_blocks(Part::Results, m.content);
    law_part_holds_all_its_blocks(Part::Images, m.content);
    lemma_turns();
}

/// A user message is sent with its whole text and then all its images, in order; without
/// images it is sent as its text alone.
pub proof fn law_user_message_is_sent_whole(m: MessageView)
    requires
        m.role == MessageRole::User,
    ensures
        ({
            let images = m.content.filter(|b: BlockView| goes_into(Part::Images, b));
            let text = if m.text_content().len() == 0 {
                Seq::empty()
            } else {
                seq![BlockView::Text { text: m.text_content() }]
            };
            let sent = wire_message(m)->0;
            if images.len() == 0 {
                sent.at("content"@) == JsonView::Str(m.text_content())
            } else {
                sent.at("content"@) matches JsonView::Array(blocks) && tell_all(
                    blocks,
                    text + images,
                )
            }
        }),
{
    law_part_holds_all_its_blocks(Part::Images, m.content);
    lemma_turns();
    lemma_wire_block(Part::Said, BlockView::Text { text: m.text_content() });
}

/// The names of the events, and of the kinds of deltas, are different texts.
proof fn lemma_event_names()
    ensures
        "content_block_start"@.len() == 19 && "content_block_start"@[14] == 's',
        "content_block_delta"@.len() == 19 && "content_block_delta"@[14] == 'd',
        "message_delta"@.len() == 13,
        "message_stop"@.len() == 12,
        "error"@.len() == 5,
        "text_delta"@.len() == 10,
        "input_json_delta"@.len() == 16,
        "thinking_delta"@.len() == 14,
        "signature_delta"@.len() == 15,
{
    reveal_strlit("content_block_start");
    reveal_strlit("content_block_delta");
    reveal_strlit("message_delta");
    reveal_strlit("message_stop");
    reveal_strlit("error");
    reveal_strlit("text_delta");
    reveal_strlit("input_json_delta");
    reveal_strlit("thinking_delta");
    reveal_strlit("signature_delta");
}

/// The text of every text delta comes out as the text of one chunk, whole; an empty one
/// gives no chunk. The parser stays as it is.
pub proof fn law_text_deltas_come_out(p: ParserView, data: Seq<char>, text: Seq<char>)
    requires
        !p.done,
        json_parsed(trim(data)) is Ok,
        json_parsed(trim(data))->Ok_0.at("delta"@).at("type"@) == JsonView::Str("text_delta"@),
        json_parsed(trim(data))->Ok_0.at("delta"@).at("text"@) == JsonView::Str(text),
    ensures
        ({
            let (after, items) = handle_spec(p, "content_block_delta"@, data);
            &&& after == p
            &&& text.len() == 0 ==> items.len() == 0
            &&& text.len() > 0 ==> items.len() == 1 && (items[0] matches Ok(c) && c.delta == Some(
                text,
            ) && c.finish_reason is None && c.tool_call_delta is None && c.thinking_delta is None)
        }),
{
    lemma_event_names();
}

/// The reasoning, and the signature that closes it, come out whole.
pub proof fn law_reasoning_deltas_come_out(p: ParserView, data: Seq<char>, text: Seq<char>)
    requires
        !p.done,
        text.len() > 0,
        json_parsed(trim(data)) is Ok,
    ensures
        ({
            let (after, items) = handle_spec(p, "content_block_delta"@, data);
            let delta = json_parsed(trim(data))->Ok_0.at("delta"@);
            &&& delta.at("type"@) == JsonView::Str("thinking_delta"@) && delta.at("thinking"@)
                == JsonView::Str(text) ==> after == p && items.len() == 1 && (items[0] matches Ok(c)
                && c.delta is None && c.finish_reason is None && (c.thinking_delta matches Some(d)
                && d.text == text && d.signature is None))
            &&& delta.at("type"@) == JsonView::Str("signature_delta"@) && delta.at("signature"@)
                == JsonView::Str(text) ==> after == p && items.len() == 1 && (items[0] matches Ok(c)
                && c.delta is None && c.finish_reason is None && (c.thinking_delta matches Some(d)
                && d.text.len() == 0 && d.signature == Some(text)))
        }),
{
    lemma_event_names();
}

/// A tool call keeps its identity: the arguments that come for a block carry the
/// identifier and the name with which the block started, whatever came between that did
/// not start a block of the same index.
pub proof fn law_arguments_carry_the_call(
    p: ParserView,
    start: Seq<char>,
    delta: Seq<char>,
    index: u64,
    id: Seq<char>,
    name: Seq<char>,
    args: Seq<char>,
)
    requires
        !p.done,
        id.len() > 0,
        json_parsed(trim(start)) is Ok,
        json_parsed(trim(start))->Ok_0.at("index"@).natural() == Some(index),
        json_parsed(trim(start))->Ok_0.at("content_block"@).at("type"@) == JsonView::Str(
            "tool_use"@,
        ),
        json_parsed(trim(start))->Ok_0.at("content_block"@).at("id"@) == JsonView::Str(id),
        json_parsed(trim(start))->Ok_0.at("content_block"@).at("name"@) == JsonView::Str(name),
        json_parsed(trim(delta)) is Ok,
        json_parsed(trim(delta))->Ok_0.at("index"@).natural() == Some(index),
        json_parsed(trim(delta))->Ok_0.at("delta"@).at("type"@) == JsonView::Str(
            "input_json_delta"@,
        ),
        json_parsed(trim(delta))->Ok_0.at("delta"@).at("partial_json"@) == JsonView::Str(args),
    ensures
        ({
            let (started, none) = handle_spec(p, "content_block_start"@, start);
            let (after, items) = handle_spec(started, "content_block_delta"@, delta);
            &&& none.len() == 0 && after == started && !started.done
            &&& items.len() == 1 && (items[0] matches Ok(c) && (c.tool_call_delta matches Some(d)
                && d.call_id == id && d.tool_id == name && d.args_delta == args))
            &&& started.tool_blocks.dom().contains(index) && started.tool_blocks[index] == (
                id,
                name,
            )
            &&& forall|other: u64|
                other != index ==> started.tool_blocks.dom().contains(other)
                    == p.tool_blocks.dom().contains(other) && (p.tool_blocks.dom().contains(other)
                    ==> #[trigger] started.tool_blocks[other] == p.tool_blocks[other])
        }),
{
    lemma_event_names();
}

/// No event but the start of a block changes what is known of the tool calls.
pub proof fn law_known_calls_are_kept(p: ParserView, event_type: Seq<char>, data: Seq<char>)
    requires
        event_type != "content_block_start"@,
    ensures
        handle_spec(p, event_type, data).0.tool_blocks == p.tool_blocks,
{
}

/// The message ends for the reason that was given last, or as a plain stop where none
/// was; the reasons of the API are told apart.
pub proof fn law_message_ends_for_its_reason(
    p: ParserView,
    delta: Seq<char>,
    reason: Seq<char>,
    stop: Seq<char>,
)
    requires
        !p.done,
        json_parsed(trim(delta)) is Ok,
        json_parsed(trim(delta))->Ok_0.at("delta"@).at("stop_reason"@) == JsonView::Str(reason),
        json_parsed(trim(stop)) is Ok || trim(stop).len() == 0,
    ensures
        ({
            let (told, none) = handle_spec(p, "message_delta"@, delta);
            let (after, items) = handle_spec(told, "message_stop"@, stop);
            &&& none.len() == 0 && !told.done && after.done
            &&& items.len() == 1 && (items[0] matches Ok(c) && c.delta is None && c.finish_reason
                == Some(
                if reason == "max_tokens"@ {
                    FinishReason::MaxTokens
                } else if reason == "tool_use"@ {
                    FinishReason::ToolCall
                } else if reason == "refusal"@ {
                    FinishReason::Error
                } else {
                    FinishReason::Stop
                },
            ))
        }),
        ({
            let (after, items) = handle_spec(p, "message_stop"@, stop);
            &&& after.done && items.len() == 1
            &&& items[0] matches Ok(c) && c.finish_reason == Some(
                match p.stop_reason {
                    Some(r) => r,
                    None => FinishReason::Stop,
                },
            )
        }),
{
    lemma_event_names();
}

/// An error event ends the stream with an error that tells the API's kind and message; it
/// is worth another try just where the API is overloaded or failed itself.
pub proof fn law_error_event_is_told(
    p: ParserView,
    data: Seq<char>,
    kind: Seq<char>,
    message: Seq<char>,
)
    requires
        !p.done,
        json_parsed(trim(data)) is Ok,
        json_parsed(trim(data))->Ok_0.at("error"@).at("type"@) == JsonView::Str(kind),
        json_parsed(trim(data))->Ok_0.at("error"@).at("message"@) == JsonView::Str(message),
    ensures
        ({
            let (after, items) = handle_spec(p, "error"@, data);
            &&& after.done && items.len() == 1
            &&& items[0] matches Err(
                ContractErrorView::Inference(InferenceErrorView::Provider { message: told, retryable }),
            ) && stands_at(told, kind, 24) && stands_at(told, message, 27 + kind.len() as int)
                && told.len() == 27 + kind.len() + message.len() && retryable == (kind
                == "overloaded_error"@ || kind == "api_error"@)
        }),
{
    lemma_event_names();
    reveal_strlit("anthropic stream error (");
    reveal_strlit("): ");
}

/// A payload that is no JSON is an error, which does not end the stream.
pub proof fn law_malformed_payload_is_an_error(p: ParserView, event_type: Seq<char>, data: Seq<char>)
    requires
        !p.done,
        json_parsed(trim(data)) is Err,
        trim(data).len() > 0,
    ensures
        handle_spec(p, event_type, data).0 == p,
        handle_spec(p, event_type, data).1.len() == 1,
        handle_spec(p, event_type, data).1[0] is Err,
{
}

/// A block that starts without an identifier gets one of its own, made of its index.
pub proof fn law_unnamed_calls_are_told_apart(a: JsonView, b: JsonView)
    requires
        a.at("content_block"@).at("id"@).text_or_empty().len() == 0,
        b.at("content_block"@).at("id"@).text_or_empty().len() == 0,
        started_call_id(a) == started_call_id(b),
    ensures
        block_index(a) == block_index(b),
        started_call_id(a).len() > 0,
{
    reveal_strlit("toolu_");
    let (x, y) = (decimal(block_index(a) as nat), decimal(block_index(b) as nat));
    assert(("toolu_"@ + x).skip(6) =~= x);
    assert(("toolu_"@ + y).skip(6) =~= y);
    law_decimal_texts_are_told_apart(block_index(a) as nat, block_index(b) as nat);
}

} // verus!
