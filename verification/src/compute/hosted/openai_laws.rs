//! What holds of every request body and of every stream of the OpenAI-compatible
//! format.

use crate::compute::hosted::anthropic::output_text;
use crate::compute::hosted::openai::{
    base_entries, body_entries, body_spec, call_identity, call_index, call_items, call_part,
    call_parts, finish_items, handle_spec, image_part, image_parts, known_after, limit_entries,
    payload_calls, plain_message, result_message, result_messages, text_items, text_part, wire,
    wire_all, without_trailing_slashes, ParserView,
};
use crate::contracts::compute::{FinishReason, RequestView};
use crate::contracts::data::{BlockView, MessageRole, MessageView};
use crate::json::{
    json_parsed, json_text, lemma_entries_map_absent, lemma_obj_at, lemma_obj_of_three,
    lemma_obj_of_two, natural_number, obj, JsonView,
};
use crate::model::{flat, lemma_pick_filter, lemma_same_filter};
use crate::text::{decimal, law_decimal_texts_are_told_apart, trim};
use vstd::prelude::*;

verus! {

/// The keys of a request body are different texts.
proof fn lemma_keys()
    ensures
        "model"@.len() == 5 && "model"@[0] == 'm',
        "messages"@.len() == 8,
        "stream"@.len() == 6,
        "max_tokens"@.len() == 10,
        "temperature"@.len() == 11,
        "tools"@.len() == 5 && "tools"@[0] == 't',
        "reasoning_effort"@.len() == 16,
{
    reveal_strlit("model");
    reveal_strlit("messages");
    reveal_strlit("stream");
    reveal_strlit("max_tokens");
    reveal_strlit("temperature");
    reveal_strlit("tools");
    reveal_strlit("reasoning_effort");
}

/// A request body names the model and asks for a stream; it has the request's token limit
/// and its temperature where the request has them, and only there.
pub proof fn law_body_says_what_the_request_says(model: Seq<char>, req: RequestView)
    ensures
        ({
            let body = body_spec(model, req);
            &&& body.at("model"@) == JsonView::Str(model)
            &&& body.at("stream"@) == JsonView::Bool(true)
            &&& req.max_tokens matches Some(n) ==> body.at("max_tokens"@) == JsonView::Number(
                natural_number(n as u64),
            )
            &&& req.max_tokens is None ==> body.at("max_tokens"@) == JsonView::Null
            &&& req.temperature matches Some(n) ==> body.at("temperature"@) == JsonView::Number(n)
            &&& req.temperature is None ==> body.at("temperature"@) == JsonView::Null
            &&& body.at("messages"@) == JsonView::Array(wire_all(req.messages))
        }),
{
    lemma_keys();
    let es = body_entries(model, req);
    assert(es[0].0 == "model"@ && es[1].0 == "messages"@ && es[2].0 == "stream"@);
    lemma_obj_at(es, 0);
    lemma_obj_at(es, 1);
    lemma_obj_at(es, 2);
    if req.max_tokens is Some {
        assert(es[3].0 == "max_tokens"@);
        lemma_obj_at(es, 3);
    } else {
        assert forall|j: int| 0 <= j < es.len() implies es[j].0 != "max_tokens"@ by {}
        lemma_entries_map_absent(es, "max_tokens"@);
    }
    let i = (base_entries(model, req) + limit_entries(req)).len() as int;
    if req.temperature is Some {
        assert(es[i].0 == "temperature"@);
        lemma_obj_at(es, i);
    } else {
        assert forall|j: int| 0 <= j < es.len() implies es[j].0 != "temperature"@ by {}
        lemma_entries_map_absent(es, "temperature"@);
    }
}

/// Every tool of a request is named in its body, in order, with its description and the
/// schema of its arguments. Without tools, reasoning is hinted at: with more effort the
/// greater its budget.
pub proof fn law_every_tool_is_named(model: Seq<char>, req: RequestView)
    ensures
        ({
            let body = body_spec(model, req);
            &&& req.tools is None ==> body.at("tools"@) == JsonView::Null
            &&& req.tools matches Some(tools) ==> (body.at("tools"@) matches JsonView::Array(named)
                && named.len() == tools.len() && forall|i: int|
                0 <= i < tools.len() ==> {
                    &&& (#[trigger] named[i]).at("type"@) == JsonView::Str("function"@)
                    &&& named[i].at("function"@).at("name"@) == JsonView::Str(tools[i].id)
                    &&& named[i].at("function"@).at("description"@) == JsonView::Str(
                        tools[i].description,
                    )
                    &&& named[i].at("function"@).at("parameters"@) == tools[i].input_schema
                })
            &&& req.tools is None ==> (req.thinking matches Some(t) ==> body.at(
                "reasoning_effort"@,
            ) == JsonView::Str(
                if t.budget_tokens < 4096 {
                    "low"@
                } else if t.budget_tokens < 16_000 {
                    "medium"@
                } else {
                    "high"@
                },
            ))
            &&& req.thinking is None ==> body.at("reasoning_effort"@) == JsonView::Null
        }),
{
    lemma_keys();
    let es = body_entries(model, req);
    let body = body_spec(model, req);
    match req.tools {
        None => {
            assert forall|j: int| 0 <= j < es.len() implies es[j].0 != "tools"@ by {}
            lemma_entries_map_absent(es, "tools"@);
            if req.thinking is Some {
                assert(es[es.len() - 1].0 == "reasoning_effort"@);
                lemma_obj_at(es, es.len() - 1);
            }
        },
        Some(tools) => {
            assert(es[es.len() - 1].0 == "tools"@);
            lemma_obj_at(es, es.len() - 1);
            let named = body.at("tools"@)->Array_0;
            reveal_strlit("type");
            reveal_strlit("function");
            reveal_strlit("name");
            reveal_strlit("description");
            reveal_strlit("parameters");
            assert("type"@.len() == 4 && "function"@.len() == 8);
            assert("name"@.len() == 4 && "description"@.len() == 11 && "parameters"@.len() == 10);
            assert forall|i: int| 0 <= i < tools.len() implies {
                &&& (#[trigger] named[i]).at("type"@) == JsonView::Str("function"@)
                &&& named[i].at("function"@).at("name"@) == JsonView::Str(tools[i].id)
                &&& named[i].at("function"@).at("description"@) == JsonView::Str(
                    tools[i].description,
                )
                &&& named[i].at("function"@).at("parameters"@) == tools[i].input_schema
            } by {
                let function = obj(
                    seq![
                        ("name"@, JsonView::Str(tools[i].id)),
                        ("description"@, JsonView::Str(tools[i].description)),
                        ("parameters"@, tools[i].input_schema),
                    ],
                );
                lemma_obj_of_three(
                    ("name"@, JsonView::Str(tools[i].id)),
                    ("description"@, JsonView::Str(tools[i].description)),
                    ("parameters"@, tools[i].input_schema),
                );
                lemma_obj_of_two(
                    ("type"@, JsonView::Str("function"@)),
                    ("function"@, function),
                );
            }
        },
    }
    if req.thinking is None {
        assert forall|j: int| 0 <= j < es.len() implies es[j].0 != "reasoning_effort"@ by {}
        lemma_entries_map_absent(es, "reasoning_effort"@);
    }
}

/// Every message is sent, in order: one more message at the end of a request leaves all
/// that was sent before it as it is and sends something more.
pub proof fn law_every_message_is_sent(model: Seq<char>, req: RequestView, m: MessageView)
    ensures
        ({
            let longer = RequestView { messages: req.messages.push(m), ..req };
            &&& body_spec(model, longer).at("messages"@) matches JsonView::Array(sent) && (
            body_spec(model, req).at("messages"@) matches JsonView::Array(before) && sent == before
                + wire(m)) && wire(m).len() >= 1
            &&& req.messages.len() == 0 ==> body_spec(model, req).at("messages"@)
                == JsonView::Array(Seq::<JsonView>::empty())
        }),
{
    let longer = RequestView { messages: req.messages.push(m), ..req };
    law_body_says_what_the_request_says(model, req);
    law_body_says_what_the_request_says(model, longer);
    assert(req.messages.push(m).drop_last() =~= req.messages);
    let f = |m: MessageView| wire(m);
    assert(flat(req.messages.push(m), f) == flat(req.messages, f) + f(m));
}

/// The members of a plain message on the wire.
proof fn lemma_plain()
    ensures
        forall|role: Seq<char>, content: JsonView|
            (#[trigger] plain_message(role, content)).at("role"@) == JsonView::Str(role)
                && plain_message(role, content).at("content"@) == content,
{
    reveal_strlit("role");
    reveal_strlit("content");
    assert("role"@.len() != "content"@.len());
    assert forall|role: Seq<char>, content: JsonView|
        (#[trigger] plain_message(role, content)).at("role"@) == JsonView::Str(role)
            && plain_message(role, content).at("content"@) == content by {
        lemma_obj_of_two(("role"@, JsonView::Str(role)), ("content"@, content));
    }
}

/// Whether a part on the wire tells all that an image, a tool call or a tool result holds.
pub open spec fn tells(sent: JsonView, b: BlockView) -> bool {
    match b {
        BlockView::Image { media_type, data } => sent.at("type"@) == JsonView::Str("image_url"@)
            && sent.at("image_url"@).at("url"@) == JsonView::Str(
            "data:"@ + media_type + ";base64,"@ + data,
        ),
        BlockView::ToolCall { call_id, tool_id, args } => sent.at("id"@) == JsonView::Str(call_id)
            && sent.at("type"@) == JsonView::Str("function"@) && sent.at("function"@).at("name"@)
            == JsonView::Str(tool_id) && sent.at("function"@).at("arguments"@) == JsonView::Str(
            json_text(args),
        ),
        BlockView::ToolResult { call_id, output } => sent.at("role"@) == JsonView::Str("tool"@)
            && sent.at("tool_call_id"@) == JsonView::Str(call_id) && sent.at("content"@)
            == JsonView::Str(
            match output {
                JsonView::Str(s) => s,
                _ => json_text(output),
            },
        ),
        _ => false,
    }
}

/// Whether parts on the wire tell content blocks, one for one and in order.
pub open spec fn tell_all(sent: Seq<JsonView>, blocks: Seq<BlockView>) -> bool {
    sent.len() == blocks.len() && forall|i: int|
        0 <= i < sent.len() ==> tells(#[trigger] sent[i], blocks[i])
}

proof fn lemma_image(b: BlockView)
    ensures
        image_part(b) matches Some(sent) ==> tells(sent, b),
{
    if let BlockView::Image { media_type, data } = b {
        reveal_strlit("type");
        reveal_strlit("image_url");
        assert("type"@.len() != "image_url"@.len());
        let url = ("url"@, JsonView::Str("data:"@ + media_type + ";base64,"@ + data));
        lemma_obj_at(seq![url], 0);
        lemma_obj_of_two(
            ("type"@, JsonView::Str("image_url"@)),
            ("image_url"@, obj(seq![url])),
        );
    }
}

proof fn lemma_call(b: BlockView)
    ensures
        call_part(b) matches Some(sent) ==> tells(sent, b),
{
    if let BlockView::ToolCall { call_id, tool_id, args } = b {
        reveal_strlit("id");
        reveal_strlit("type");
        reveal_strlit("function");
        reveal_strlit("name");
        reveal_strlit("arguments");
        assert("id"@.len() == 2 && "type"@.len() == 4 && "function"@.len() == 8);
        assert("name"@.len() == 4 && "arguments"@.len() == 9);
        let name = ("name"@, JsonView::Str(tool_id));
        let arguments = ("arguments"@, JsonView::Str(json_text(args)));
        lemma_obj_of_two(name, arguments);
        lemma_obj_of_three(
            ("id"@, JsonView::Str(call_id)),
            ("type"@, JsonView::Str("function"@)),
            ("function"@, obj(seq![name, arguments])),
        );
    }
}

proof fn lemma_result(b: BlockView)
    ensures
        result_message(b) matches Some(sent) ==> tells(sent, b),
{
    if let BlockView::ToolResult { call_id, output } = b {
        reveal_strlit("role");
        reveal_strlit("tool_call_id");
        reveal_strlit("content");
        assert("role"@.len() == 4 && "tool_call_id"@.len() == 12 && "content"@.len() == 7);
        lemma_obj_of_three(
            ("role"@, JsonView::Str("tool"@)),
            ("tool_call_id"@, JsonView::Str(call_id)),
            ("content"@, JsonView::Str(output_text(output))),
        );
    }
}

/// All images, all tool calls and all tool results of a message are sent, in order.
pub proof fn law_all_parts_are_sent(content: Seq<BlockView>)
    ensures
        tell_all(image_parts(content), content.filter(|b: BlockView| b is Image)),
        tell_all(call_parts(content), content.filter(|b: BlockView| b is ToolCall)),
        tell_all(result_messages(content), content.filter(|b: BlockView| b is ToolResult)),
{
    let image = |b: BlockView| b is Image;
    let images = |b: BlockView| image_part(b);
    lemma_same_filter(content, |b: BlockView| images(b) is Some, image);
    lemma_pick_filter(content, images);
    assert forall|i: int| 0 <= i < content.filter(image).len() implies tells(
        #[trigger] image_parts(content)[i],
        content.filter(image)[i],
    ) by {
        content.lemma_filter_pred(image, i);
        lemma_image(content.filter(image)[i]);
    }
    let call = |b: BlockView| b is ToolCall;
    let calls = |b: BlockView| call_part(b);
    lemma_same_filter(content, |b: BlockView| calls(b) is Some, call);
    lemma_pick_filter(content, calls);
    assert forall|i: int| 0 <= i < content.filter(call).len() implies tells(
        #[trigger] call_parts(content)[i],
        content.filter(call)[i],
    ) by {
        content.lemma_filter_pred(call, i);
        lemma_call(content.filter(call)[i]);
    }
    let result = |b: BlockView| b is ToolResult;
    let results = |b: BlockView| result_message(b);
    lemma_same_filter(content, |b: BlockView| results(b) is Some, result);
    lemma_pick_filter(content, results);
    assert forall|i: int| 0 <= i < content.filter(result).len() implies tells(
        #[trigger] result_messages(content)[i],
        content.filter(result)[i],
    ) by {
        content.lemma_filter_pred(result, i);
        lemma_result(content.filter(result)[i]);
    }
}

/// A system message is sent as a system message with its whole text.
pub proof fn law_system_message_is_sent_whole(m: MessageView)
    requires
        m.role == MessageRole::System,
    ensures
        wire(m).len() == 1,
        wire(m)[0].at("role"@) == JsonView::Str("system"@),
        wire(m)[0].at("content"@) == JsonView::Str(m.text_content()),
{
    lemma_plain();
}

/// A user message is sent with its whole text and then all its images, in order; without
/// images it is sent as its text alone.
pub proof fn law_user_message_is_sent_whole(m: MessageView)
    requires
        m.role == MessageRole::User,
    ensures
        ({
            let images = m.content.filter(|b: BlockView| b is Image);
            let text = m.text_content();
            &&& wire(m).len() == 1 && wire(m)[0].at("role"@) == JsonView::Str("user"@)
            &&& images.len() == 0 ==> wire(m)[0].at("content"@) == JsonView::Str(text)
            &&& images.len() > 0 ==> (wire(m)[0].at("content"@) matches JsonView::Array(parts)
                && if text.len() == 0 {
                tell_all(parts, images)
            } else {
                parts.len() > 0 && parts[0].at("type"@) == JsonView::Str("text"@) && parts[0].at(
                    "text"@,
                ) == JsonView::Str(text) && tell_all(parts.skip(1), images)
            })
        }),
{
    lemma_plain();
    lemma_text_part(m.text_content());
    law_all_parts_are_sent(m.content);
    let images = image_parts(m.content);
    assert((seq![text_part(m.text_content())] + images).skip(1) =~= images);
}

/// The members of a text part.
proof fn lemma_text_part(text: Seq<char>)
    ensures
        text_part(text).at("type"@) == JsonView::Str("text"@),
        text_part(text).at("text"@) == JsonView::Str(text),
{
    reveal_strlit("type");
    reveal_strlit("text");
    assert("type"@[1] != "text"@[1]);
    lemma_obj_of_two(("type"@, JsonView::Str("text"@)), ("text"@, JsonView::Str(text)));
}

/// An assistant message is sent with its whole text and all its tool calls, in order. Its
/// content is null just where it calls tools without a word.
pub proof fn law_assistant_message_is_sent_whole(m: MessageView)
    requires
        m.role == MessageRole::Assistant,
    ensures
        ({
            let calls = m.content.filter(|b: BlockView| b is ToolCall);
            let text = m.text_content();
            let sent = wire(m)[0];
            &&& wire(m).len() == 1 && sent.at("role"@) == JsonView::Str("assistant"@)
            &&& calls.len() == 0 || text.len() > 0 ==> sent.at("content"@) == JsonView::Str(text)
            &&& calls.len() > 0 && text.len() == 0 ==> sent.at("content"@) == JsonView::Null
            &&& calls.len() == 0 ==> sent.at("tool_calls"@) == JsonView::Null
            &&& calls.len() > 0 ==> (sent.at("tool_calls"@) matches JsonView::Array(parts)
                && tell_all(parts, calls))
        }),
{
    law_all_parts_are_sent(m.content);
    reveal_strlit("role");
    reveal_strlit("content");
    reveal_strlit("tool_calls");
    assert("role"@.len() == 4 && "content"@.len() == 7 && "tool_calls"@.len() == 10);
    let calls = call_parts(m.content);
    let text = m.text_content();
    let role = ("role"@, JsonView::Str("assistant"@));
    let content = (
        "content"@,
        if text.len() == 0 && calls.len() != 0 {
            JsonView::Null
        } else {
            JsonView::Str(text)
        },
    );
    lemma_obj_of_two(role, content);
    lemma_entries_map_absent(seq![role, content], "tool_calls"@);
    let parts = ("tool_calls"@, JsonView::Array(calls));
    lemma_obj_of_three(role, content, parts);
    assert(seq![role, content].push(parts) =~= seq![role, content, parts]);
}

/// A tool message is sent as one message for each of its results, in order, and then, where
/// it has images, as a user message with all of them; one that has neither is sent as its
/// text.
pub proof fn law_tool_message_is_sent_whole(m: MessageView)
    requires
        m.role == MessageRole::Tool,
    ensures
        ({
            let results = m.content.filter(|b: BlockView| b is ToolResult);
            let images = m.content.filter(|b: BlockView| b is Image);
            let sent = wire(m);
            &&& images.len() == 0 && results.len() > 0 ==> tell_all(sent, results)
            &&& images.len() > 0 ==> {
                &&& sent.len() == results.len() + 1 && tell_all(sent.drop_last(), results)
                &&& sent.last().at("role"@) == JsonView::Str("user"@)
                &&& sent.last().at("content"@) matches JsonView::Array(parts) && parts.len() > 0
                    && tell_all(parts.skip(1), images)
            }
            &&& images.len() == 0 && results.len() == 0 ==> sent.len() == 1 && sent[0].at(
                "role"@,
            ) == JsonView::Str("user"@) && sent[0].at("content"@) == JsonView::Str(
                m.text_content(),
            )
        }),
{
    lemma_plain();
    law_all_parts_are_sent(m.content);
    let images = image_parts(m.content);
    let results = result_messages(m.content);
    let lead = text_part("Screenshot from the tool result above:"@);
    assert((seq![lead] + images).skip(1) =~= images);
    if images.len() != 0 {
        assert(wire(m).drop_last() =~= results);
    }
}

/// The call deltas of a choice.
pub open spec fn deltas_of(choice: JsonView) -> Seq<JsonView> {
    match choice.at("delta"@).at("tool_calls"@).elements() {
        Some(calls) => calls,
        None => Seq::empty(),
    }
}

/// One where something is there, and else none.
pub open spec fn count_of(there: bool) -> int {
    if there {
        1
    } else {
        0
    }
}

/// The items of a payload tell all that its choice brings: its text whole, then the
/// arguments of each call, in order, and last why the choice ended.
pub proof fn law_payload_comes_out_whole(p: ParserView, data: Seq<char>)
    requires
        !p.done,
        json_parsed(trim(data)) is Ok,
        trim(data) != "[DONE]"@,
        trim(data).len() > 0,
    ensures
        ({
            let (after, items) = handle_spec(p, data);
            let choice = json_parsed(trim(data))->Ok_0.at("choices"@).item(0);
            let text = choice.at("delta"@).at("content"@).text_or_empty();
            let calls = deltas_of(choice);
            let lead = count_of(text.len() > 0);
            let tail = count_of(choice.at("finish_reason"@).text() is Some);
            &&& !after.done
            &&& items.len() == lead + calls.len() + tail
            &&& text.len() > 0 ==> (items[0] matches Ok(c) && c.delta == Some(text)
                && c.finish_reason is None)
            &&& forall|i: int|
                0 <= i < calls.len() ==> (items[lead + i] matches Ok(c) && c.delta is None
                    && c.finish_reason is None && (c.tool_call_delta matches Some(d)
                    && d.args_delta == (#[trigger] calls[i]).at("function"@).at(
                    "arguments"@,
                ).text_or_empty() && (calls[i].at("id"@).text() matches Some(id) ==> d.call_id
                    == id) && (calls[i].at("function"@).at("name"@).text() matches Some(name)
                    ==> d.tool_id == name)))
            &&& choice.at("finish_reason"@).text() matches Some(reason) ==> (
            items.last() matches Ok(c) && c.delta is None && c.finish_reason == Some(
                if reason == "length"@ {
                    FinishReason::MaxTokens
                } else if reason == "tool_calls"@ {
                    FinishReason::ToolCall
                } else if reason == "content_filter"@ {
                    FinishReason::Error
                } else {
                    FinishReason::Stop
                },
            )) && after.finish_emitted
            &&& choice.at("finish_reason"@).text() is None ==> after.finish_emitted
                == p.finish_emitted
        }),
{
    let value = json_parsed(trim(data))->Ok_0;
    let choice = value.at("choices"@).item(0);
    let calls = deltas_of(choice);
    assert(payload_calls(value) == calls);
    let a = text_items(choice.at("delta"@), p.mode);
    let b = call_items(p.tool_calls, p.mode, calls);
    let c = finish_items(choice, p.mode);
    let items = handle_spec(p, data).1;
    assert(items == a + b + c);
    lemma_calls_come_out(p, calls);
    assert forall|i: int| 0 <= i < calls.len() implies items[a.len() + i] == b[i] by {}
    if choice.at("finish_reason"@).text() is Some {
        assert(items.last() == c[0]);
    }
}

/// The items of a list of call deltas.
proof fn lemma_calls_come_out(p: ParserView, calls: Seq<JsonView>)
    ensures
        call_items(p.tool_calls, p.mode, calls).len() == calls.len(),
        forall|i: int|
            0 <= i < calls.len() ==> (call_items(p.tool_calls, p.mode, calls)[i] matches Ok(c)
                && c.delta is None && c.finish_reason is None && (c.tool_call_delta matches Some(d)
                && d.args_delta == (#[trigger] calls[i]).at("function"@).at(
                "arguments"@,
            ).text_or_empty() && (calls[i].at("id"@).text() matches Some(id) ==> d.call_id == id)
                && (calls[i].at("function"@).at("name"@).text() matches Some(name) ==> d.tool_id
                == name))),
    decreases calls.len(),
{
    if calls.len() > 0 {
        let front = calls.drop_last();
        lemma_calls_come_out(p, front);
        let items = call_items(p.tool_calls, p.mode, calls);
        let before = call_items(p.tool_calls, p.mode, front);
        assert(forall|i: int| 0 <= i < front.len() ==> front[i] == #[trigger] calls[i]);
        assert(forall|i: int| 0 <= i < front.len() ==> items[i] == before[i]);
    }
}

/// A call keeps the identifier and the name of its first delta: later deltas under its
/// index that do not name it come out under them.
pub proof fn law_arguments_carry_the_call(
    p: ParserView,
    start: Seq<char>,
    next: Seq<char>,
    first: JsonView,
    later: JsonView,
    id: Seq<char>,
    name: Seq<char>,
)
    requires
        !p.done,
        trim(start).len() > 0,
        trim(start) != "[DONE]"@,
        json_parsed(trim(start)) is Ok,
        json_parsed(trim(start))->Ok_0.at("choices"@).item(0).at("delta"@).at(
            "tool_calls"@,
        ) == JsonView::Array(seq![first]),
        first.at("id"@) == JsonView::Str(id),
        first.at("function"@).at("name"@) == JsonView::Str(name),
        trim(next).len() > 0,
        trim(next) != "[DONE]"@,
        json_parsed(trim(next)) is Ok,
        json_parsed(trim(next))->Ok_0.at("choices"@).item(0).at("delta"@).at(
            "tool_calls"@,
        ) == JsonView::Array(seq![later]),
        later.at("index"@).natural() == first.at("index"@).natural(),
        later.at("id"@).text() is None,
        later.at("function"@).at("name"@).text() is None,
        json_parsed(trim(next))->Ok_0.at("choices"@).item(0).at("delta"@).at("content"@).text()
            is None,
    ensures
        ({
            let started = handle_spec(p, start).0;
            let (after, items) = handle_spec(started, next);
            &&& items.len() >= 1 && (items[0] matches Ok(c) && (c.tool_call_delta matches Some(d)
                && d.call_id == id && d.tool_id == name && d.args_delta == later.at("function"@).at(
                "arguments"@,
            ).text_or_empty()))
            &&& after.tool_calls.dom().contains(call_index(first)) && after.tool_calls[call_index(
                first,
            )] == (id, name)
        }),
{
    let started = handle_spec(p, start).0;
    let known = started.tool_calls;
    reveal_with_fuel(known_after, 2);
    reveal_with_fuel(call_items, 2);
    assert(seq![first].drop_last() =~= Seq::empty());
    assert(seq![later].drop_last() =~= Seq::empty());
    assert(known == p.tool_calls.insert(call_index(first), call_identity(p.tool_calls, first)));
    assert(known[call_index(first)] == (id, name));
    let items = call_items(known, p.mode, seq![later]);
    assert(items.len() == 1);
    assert(handle_spec(started, next).1[0] == items[0]);
}

/// The end marker ends the stream: with a finish chunk where none had come, and else with
/// nothing more. Blank payloads change nothing, and one that is no JSON is an error that
/// does not end the stream.
pub proof fn law_end_marker_ends_the_stream(p: ParserView, data: Seq<char>)
    requires
        !p.done,
    ensures
        ({
            let (after, items) = handle_spec(p, data);
            &&& trim(data) == "[DONE]"@ ==> after.done && (if p.finish_emitted {
                items.len() == 0
            } else {
                items.len() == 1 && (items[0] matches Ok(c) && c.finish_reason == Some(
                    FinishReason::Stop,
                ))
            })
            &&& trim(data).len() == 0 ==> after == p && items.len() == 0
            &&& trim(data).len() > 0 && trim(data) != "[DONE]"@ && json_parsed(trim(data)) is Err
                ==> after == p && items.len() == 1 && items[0] is Err
        }),
{
    reveal_strlit("[DONE]");
}

/// The endpoint is that of the base without the slashes at its end: nothing else is cut.
pub proof fn law_only_slashes_are_cut(base: Seq<char>)
    ensures
        ({
            let cut = without_trailing_slashes(base);
            &&& cut.len() <= base.len() && cut == base.take(cut.len() as int)
            &&& cut.len() > 0 ==> cut.last() != '/'
            &&& forall|i: int| cut.len() <= i < base.len() ==> #[trigger] base[i] == '/'
        }),
    decreases base.len(),
{
    if base.len() > 0 && base.last() == '/' {
        law_only_slashes_are_cut(base.drop_last());
        let cut = without_trailing_slashes(base);
        assert(base.drop_last().take(cut.len() as int) =~= base.take(cut.len() as int));
        assert(forall|i: int| 0 <= i < base.len() - 1 ==> base.drop_last()[i] == #[trigger] base[i]);
    } else {
        assert(base.take(base.len() as int) =~= base);
    }
}

/// A call that is never named gets an identifier of its own, made of its index.
pub proof fn law_unnamed_calls_are_told_apart(
    known: Map<u64, (Seq<char>, Seq<char>)>,
    a: JsonView,
    b: JsonView,
)
    requires
        a.at("id"@).text() is None,
        b.at("id"@).text() is None,
        !known.dom().contains(call_index(a)),
        !known.dom().contains(call_index(b)),
        call_identity(known, a).0 == call_identity(known, b).0,
    ensures
        call_index(a) == call_index(b),
        call_identity(known, a).0.len() > 0,
{
    reveal_strlit("call_");
    let (x, y) = (decimal(call_index(a) as nat), decimal(call_index(b) as nat));
    assert(("call_"@ + x).skip(5) =~= x);
    assert(("call_"@ + y).skip(5) =~= y);
    law_decimal_texts_are_told_apart(call_index(a) as nat, call_index(b) as nat);
}

} // verus!
