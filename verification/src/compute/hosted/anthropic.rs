//! The Anthropic Messages API: request bodies and the event stream.
//!
//! `content_block_delta` events with a `text_delta` become text chunks, those
//! with an `input_json_delta` become tool-call deltas, `message_delta` records
//! the stop reason, and `message_stop` ends the stream with a finish chunk.

use crate::compute::hosted::sse::{
    all_carry, malformed, malformed_error, nothing, one, Item, SseChunkParser,
};
use crate::contracts::compute::{
    CanHandleResult, ChunkView, FinishReason, InferenceChunk, InferenceRequest, RequestView,
    ThinkingConfig, ThinkingDelta, ThinkingDeltaView, ToolCallDelta, ToolCallDeltaView, ToolSpec,
    ToolSpecView,
};
use crate::contracts::data::{BlockView, ContentBlock, Message, MessageRole, MessageView};
use crate::contracts::error::{ContractError, ContractErrorView, InferenceError, InferenceErrorView};
use crate::contracts::types::{
    CapabilitySet, ComputeMode, ModelDescriptor, ModelDescriptorView, ModelSource, ModelSourceView,
    PerfProfile,
};
use crate::json::{
    entry, entry_views, json_parsed, json_text, lemma_entries_map_absent, lemma_entries_map_get,
    natural_number, obj, Json, JsonView,
};
use crate::model::{lemma_pick_take, lemma_views_push, opt, outcomes, pick, views};
use crate::text::{decimal, join, join_strings, str_eq, trim, trim_text, u64_text};
use std::collections::HashMap;
use vstd::prelude::*;

verus! {

broadcast use vstd::std_specs::hash::group_hash_axioms;

/// The Anthropic Messages API endpoint.
pub const ANTHROPIC_MESSAGES_URL: &'static str = "https://api.anthropic.com/v1/messages";

/// API version header value required by the Messages API.
pub const ANTHROPIC_VERSION: &'static str = "2023-06-01";

/// `max_tokens` is mandatory on the Messages API; used when the request has none.
pub const DEFAULT_MAX_TOKENS: u32 = 1024;

/// The least reasoning budget that the Messages API accepts.
pub const MIN_THINKING_BUDGET: u32 = 1024;

/// Hosted provider speaking the Anthropic Messages API.
pub struct AnthropicProvider {
    pub api_key: String,
    pub model: String,
}

impl AnthropicProvider {
    /// Provider with the model that the deployment has configured as its default.
    pub fn new(api_key: &str, default_model: &str) -> (r: AnthropicProvider)
        ensures
            r.api_key@ == api_key@,
            r.model@ == default_model@,
    {
        AnthropicProvider::with_model(api_key, default_model)
    }

    /// Provider with an explicit model.
    pub fn with_model(api_key: &str, model: &str) -> (r: AnthropicProvider)
        ensures
            r.api_key@ == api_key@,
            r.model@ == model@,
    {
        AnthropicProvider { api_key: api_key.to_owned(), model: model.to_owned() }
    }

    /// What the adapter's models offer.
    pub open spec fn offer() -> CapabilitySet {
        CapabilitySet {
            vision: true,
            tool_calling: true,
            min_context_window: 200_000,
            code_gen: true,
            thinking: true,
        }
    }

    /// Static description of the model.
    pub fn descriptor(&self) -> (r: ModelDescriptor)
        ensures
            r@ == (ModelDescriptorView {
                id: self.model@,
                display_name: "Hosted (Anthropic): "@ + self.model@,
                context_window: 200_000,
                capabilities: AnthropicProvider::offer(),
                limitations: Seq::empty(),
                size_bytes: None,
                quantization: None,
                source: ModelSourceView::Hosted { provider: "anthropic"@ },
                perf_profile: PerfProfile { ttft_ms: 700, milli_tok_per_sec: 70_000 },
            }),
    {
        let r = ModelDescriptor {
            id: self.model.clone(),
            display_name: "Hosted (Anthropic): ".to_owned().concat(self.model.as_str()),
            context_window: 200_000,
            capabilities: CapabilitySet {
                vision: true,
                tool_calling: true,
                min_context_window: 200_000,
                code_gen: true,
                thinking: true,
            },
            limitations: Vec::new(),
            size_bytes: None,
            quantization: None,
            source: ModelSource::Hosted { provider: "anthropic".to_owned() },
            perf_profile: PerfProfile { ttft_ms: 700, milli_tok_per_sec: 70_000 },
        };
        assert(views(r.limitations@) =~= Seq::empty());
        r
    }

    /// Whether the provider can serve a request.
    pub fn can_handle(&self, req: &InferenceRequest) -> (r: CanHandleResult)
        ensures
            r == CanHandleResult::against_spec(
                req.required_caps,
                AnthropicProvider::offer(),
                None,
            ),
    {
        let offered = self.descriptor().capabilities;
        CanHandleResult::against(&req.required_caps, &offered, None)
    }
}

/// A tool output as `tool_result` content: text as it is, other values as JSON text.
pub open spec fn output_text(output: JsonView) -> Seq<char> {
    match output {
        JsonView::Str(s) => s,
        _ => json_text(output),
    }
}

/// A tool output as `tool_result` content: text as it is, other values as JSON text.
pub fn tool_output_to_string(output: &Json) -> (r: String)
    ensures
        r@ == output_text(output@),
{
    match output {
        Json::Str(s) => s.clone(),
        _ => output.to_text(),
    }
}

/// Which content blocks go into a part of a message.
#[derive(Clone, Copy, PartialEq, Eq, Structural)]
pub enum Part {
    /// Reasoning blocks.
    Reasoning,
    /// Non-empty text and tool calls.
    Said,
    /// Tool results.
    Results,
    /// Inline images.
    Images,
}

/// The wire form of a content block, where it belongs to a part.
pub open spec fn wire_block(part: Part, b: BlockView) -> Option<JsonView> {
    match (part, b) {
        (Part::Reasoning, BlockView::Thinking { thinking, signature }) => Some(
            obj(
                seq![
                    ("type"@, JsonView::Str("thinking"@)),
                    ("thinking"@, JsonView::Str(thinking)),
                    ("signature"@, JsonView::Str(signature)),
                ],
            ),
        ),
        (Part::Said, BlockView::Text { text }) => if text.len() == 0 {
            None
        } else {
            Some(text_block(text))
        },
        (Part::Said, BlockView::ToolCall { call_id, tool_id, args }) => Some(
            obj(
                seq![
                    ("type"@, JsonView::Str("tool_use"@)),
                    ("id"@, JsonView::Str(call_id)),
                    ("name"@, JsonView::Str(tool_id)),
                    ("input"@, args),
                ],
            ),
        ),
        (Part::Results, BlockView::ToolResult { call_id, output }) => Some(
            obj(
                seq![
                    ("type"@, JsonView::Str("tool_result"@)),
                    ("tool_use_id"@, JsonView::Str(call_id)),
                    ("content"@, JsonView::Str(output_text(output))),
                ],
            ),
        ),
        (Part::Images, BlockView::Image { media_type, data }) => Some(
            obj(
                seq![
                    ("type"@, JsonView::Str("image"@)),
                    (
                        "source"@,
                        obj(
                            seq![
                                ("type"@, JsonView::Str("base64"@)),
                                ("media_type"@, JsonView::Str(media_type)),
                                ("data"@, JsonView::Str(data)),
                            ],
                        ),
                    ),
                ],
            ),
        ),
        _ => None,
    }
}

/// A text content block on the wire.
pub open spec fn text_block(text: Seq<char>) -> JsonView {
    obj(seq![("type"@, JsonView::Str("text"@)), ("text"@, JsonView::Str(text))])
}

/// The wire forms of the blocks of a part, in order.
pub open spec fn wire_part(part: Part, content: Seq<BlockView>) -> Seq<JsonView> {
    pick(content, |b: BlockView| wire_block(part, b))
}

/// A message with the given role and content on the wire.
pub open spec fn turn(role: Seq<char>, content: JsonView) -> JsonView {
    obj(seq![("role"@, JsonView::Str(role)), ("content"@, content)])
}

/// An assistant message on the wire: reasoning blocks first, then text and tool
/// calls. A message without tool calls and with at most one block is plain text.
pub open spec fn assistant_turn(m: MessageView) -> JsonView {
    let blocks = wire_part(Part::Reasoning, m.content) + wire_part(Part::Said, m.content);
    if m.has_tool_call() || blocks.len() > 1 {
        turn("assistant"@, JsonView::Array(blocks))
    } else {
        turn("assistant"@, JsonView::Str(m.text_content()))
    }
}

/// A tool message on the wire: a user turn with its results and images, or its
/// text where it has neither.
pub open spec fn tool_turn(m: MessageView) -> JsonView {
    let content = wire_part(Part::Results, m.content) + wire_part(Part::Images, m.content);
    if content.len() == 0 {
        turn("user"@, JsonView::Str(m.text_content()))
    } else {
        turn("user"@, JsonView::Array(content))
    }
}

/// A user message on the wire: its text, followed by its images where it has any.
pub open spec fn user_turn(m: MessageView) -> JsonView {
    let images = wire_part(Part::Images, m.content);
    let text = m.text_content();
    if images.len() == 0 {
        turn("user"@, JsonView::Str(text))
    } else if text.len() == 0 {
        turn("user"@, JsonView::Array(images))
    } else {
        turn("user"@, JsonView::Array(seq![text_block(text)] + images))
    }
}

/// A message on the wire; system messages are not among the messages.
pub open spec fn wire_message(m: MessageView) -> Option<JsonView> {
    match m.role {
        MessageRole::System => None,
        MessageRole::Assistant => Some(assistant_turn(m)),
        MessageRole::Tool => Some(tool_turn(m)),
        MessageRole::User => Some(user_turn(m)),
    }
}

/// The text of a system message.
pub open spec fn system_text(m: MessageView) -> Option<Seq<char>> {
    match m.role {
        MessageRole::System => Some(m.text_content()),
        _ => None,
    }
}

/// The texts of the system messages.
pub open spec fn system_parts(messages: Seq<MessageView>) -> Seq<Seq<char>> {
    pick(messages, |m: MessageView| system_text(m))
}

/// The messages on the wire.
pub open spec fn wire_messages(messages: Seq<MessageView>) -> Seq<JsonView> {
    pick(messages, |m: MessageView| wire_message(m))
}

/// Whether a message is an assistant turn that calls tools without the signed
/// reasoning block with which it could be replayed.
pub open spec fn unreplayable(m: MessageView) -> bool {
    m.role == MessageRole::Assistant && m.has_tool_call() && !m.has_thinking()
}

/// The reasoning that a request body asks for: none where the history holds a
/// tool turn that cannot be replayed.
pub open spec fn effective_thinking(req: RequestView) -> Option<ThinkingConfig> {
    if exists|i: int| 0 <= i < req.messages.len() && unreplayable(#[trigger] req.messages[i]) {
        None
    } else {
        req.thinking
    }
}

/// The reasoning budget on the wire: at least the least that the API accepts.
pub open spec fn wire_budget(t: ThinkingConfig) -> int {
    if t.budget_tokens > MIN_THINKING_BUDGET {
        t.budget_tokens as int
    } else {
        MIN_THINKING_BUDGET as int
    }
}

/// The token limit on the wire. With reasoning it leaves room for both the
/// reasoning and the answer.
pub open spec fn wire_max_tokens(req: RequestView) -> int {
    let asked = match req.max_tokens {
        Some(n) => n as int,
        None => DEFAULT_MAX_TOKENS as int,
    };
    match effective_thinking(req) {
        None => asked,
        Some(t) => {
            let room = wire_budget(t) + DEFAULT_MAX_TOKENS;
            let capped = if room > u32::MAX {
                u32::MAX as int
            } else {
                room
            };
            if asked > capped {
                asked
            } else {
                capped
            }
        },
    }
}

/// A tool definition on the wire.
pub open spec fn wire_tool(t: ToolSpecView) -> JsonView {
    obj(
        seq![
            ("name"@, JsonView::Str(t.id)),
            ("description"@, JsonView::Str(t.description)),
            ("input_schema"@, t.input_schema),
        ],
    )
}

/// The entries of a request body that every request has.
pub open spec fn base_entries(model: Seq<char>, req: RequestView) -> Seq<(Seq<char>, JsonView)> {
    seq![
        ("model"@, JsonView::Str(model)),
        ("messages"@, JsonView::Array(wire_messages(req.messages))),
        ("max_tokens"@, JsonView::Number(natural_number(wire_max_tokens(req) as u64))),
        ("stream"@, JsonView::Bool(true)),
    ]
}

/// The entry for the system prompt, where there is one.
pub open spec fn system_entries(req: RequestView) -> Seq<(Seq<char>, JsonView)> {
    let parts = system_parts(req.messages);
    if parts.len() == 0 {
        Seq::empty()
    } else {
        seq![("system"@, JsonView::Str(join(parts, "\n"@)))]
    }
}

/// The entry for the reasoning, or without it the one for the temperature.
pub open spec fn sampling_entries(req: RequestView) -> Seq<(Seq<char>, JsonView)> {
    match effective_thinking(req) {
        Some(t) => seq![
            (
                "thinking"@,
                obj(
                    seq![
                        ("type"@, JsonView::Str("enabled"@)),
                        ("budget_tokens"@, JsonView::Number(natural_number(wire_budget(t) as u64))),
                    ],
                ),
            ),
        ],
        None => match req.temperature {
            Some(n) => seq![("temperature"@, JsonView::Number(n))],
            None => Seq::empty(),
        },
    }
}

/// The entry for the tools, where the request names any.
pub open spec fn tool_entries(req: RequestView) -> Seq<(Seq<char>, JsonView)> {
    match req.tools {
        Some(tools) => seq![
            ("tools"@, JsonView::Array(Seq::new(tools.len(), |i: int| wire_tool(tools[i])))),
        ],
        None => Seq::empty(),
    }
}

/// The Messages API request body.
pub open spec fn body_spec(model: Seq<char>, req: RequestView) -> JsonView {
    obj(
        base_entries(model, req) + system_entries(req) + sampling_entries(req) + tool_entries(req),
    )
}

/// The wire form of a content block, where it belongs to a part.
fn block_to_wire(part: Part, b: &ContentBlock) -> (r: Option<Json>)
    ensures
        opt(r) == wire_block(part, b@),
{
    match (part, b) {
        (Part::Reasoning, ContentBlock::Thinking { thinking, signature }) => {
            let es = vec![
                entry("type", Json::string("thinking")),
                entry("thinking", Json::string(thinking.as_str())),
                entry("signature", Json::string(signature.as_str())),
            ];
            assert(entry_views(es@) =~= seq![
                ("type"@, JsonView::Str("thinking"@)),
                ("thinking"@, JsonView::Str(thinking@)),
                ("signature"@, JsonView::Str(signature@)),
            ]);
            Some(Json::object(es))
        },
        (Part::Said, ContentBlock::Text { text }) => {
            if text.as_str().is_empty() {
                None
            } else {
                Some(text_to_wire(text.as_str()))
            }
        },
        (Part::Said, ContentBlock::ToolCall { call_id, tool_id, args }) => {
            let es = vec![
                entry("type", Json::string("tool_use")),
                entry("id", Json::string(call_id.as_str())),
                entry("name", Json::string(tool_id.as_str())),
                entry("input", args.clone()),
            ];
            assert(entry_views(es@) =~= seq![
                ("type"@, JsonView::Str("tool_use"@)),
                ("id"@, JsonView::Str(call_id@)),
                ("name"@, JsonView::Str(tool_id@)),
                ("input"@, args@),
            ]);
            Some(Json::object(es))
        },
        (Part::Results, ContentBlock::ToolResult { call_id, output }) => {
            let es = vec![
                entry("type", Json::string("tool_result")),
                entry("tool_use_id", Json::string(call_id.as_str())),
                entry("content", Json::Str(tool_output_to_string(output))),
            ];
            assert(entry_views(es@) =~= seq![
                ("type"@, JsonView::Str("tool_result"@)),
                ("tool_use_id"@, JsonView::Str(call_id@)),
                ("content"@, JsonView::Str(output_text(output@))),
            ]);
            Some(Json::object(es))
        },
        (Part::Images, ContentBlock::Image { media_type, data }) => {
            let inner = vec![
                entry("type", Json::string("base64")),
                entry("media_type", Json::string(media_type.as_str())),
                entry("data", Json::string(data.as_str())),
            ];
            assert(entry_views(inner@) =~= seq![
                ("type"@, JsonView::Str("base64"@)),
                ("media_type"@, JsonView::Str(media_type@)),
                ("data"@, JsonView::Str(data@)),
            ]);
            let source = Json::object(inner);
            let ghost source_view = source@;
            let es = vec![entry("type", Json::string("image")), entry("source", source)];
            assert(entry_views(es@) =~= seq![
                ("type"@, JsonView::Str("image"@)),
                ("source"@, source_view),
            ]);
            Some(Json::object(es))
        },
        _ => None,
    }
}

/// A text content block on the wire.
fn text_to_wire(text: &str) -> (r: Json)
    ensures
        r@ == text_block(text@),
{
    let es = vec![entry("type", Json::string("text")), entry("text", Json::string(text))];
    assert(entry_views(es@) =~= seq![
        ("type"@, JsonView::Str("text"@)),
        ("text"@, JsonView::Str(text@)),
    ]);
    Json::object(es)
}

/// Appends the wire forms of the blocks of a part.
fn push_part(out: &mut Vec<Json>, part: Part, m: &Message)
    ensures
        views(final(out)@) == views(old(out)@) + wire_part(part, m@.content),
{
    let mut i: usize = 0;
    let ghost start = views(out@);
    let ghost blocks = m@.content;
    let ghost f = |b: BlockView| wire_block(part, b);
    assert(blocks.take(0) =~= Seq::empty());
    assert(views(out@) =~= start + pick(blocks.take(0), f));
    while i < m.content.len()
        invariant
            i <= m.content.len(),
            blocks == views(m.content@),
            f == (|b: BlockView| wire_block(part, b)),
            views(out@) == start + pick(blocks.take(i as int), f),
        decreases m.content.len() - i,
    {
        let ghost before = out@;
        proof {
            lemma_pick_take(blocks, f, i as int);
        }
        match block_to_wire(part, &m.content[i]) {
            Some(j) => {
                let ghost jv = j;
                out.push(j);
                proof {
                    lemma_views_push(before, jv);
                    assert(views(out@) =~= start + pick(blocks.take(i + 1), f));
                }
            },
            None => {},
        }
        i += 1;
    }
    assert(blocks.take(blocks.len() as int) =~= blocks);
}

/// A message with the given role and content on the wire.
fn to_turn(role: &str, content: Json) -> (r: Json)
    ensures
        r@ == turn(role@, content@),
{
    let ghost c = content@;
    let es = vec![entry("role", Json::string(role)), entry("content", content)];
    assert(entry_views(es@) =~= seq![("role"@, JsonView::Str(role@)), ("content"@, c)]);
    Json::object(es)
}

/// Whether the message holds a tool call.
fn holds_tool_call(m: &Message) -> (r: bool)
    ensures
        r == m@.has_tool_call(),
{
    let mut i: usize = 0;
    while i < m.content.len()
        invariant
            i <= m.content.len(),
            forall|j: int| 0 <= j < i ==> !(m@.content[j] is ToolCall),
        decreases m.content.len() - i,
    {
        if let ContentBlock::ToolCall { .. } = &m.content[i] {
            assert(m@.content[i as int] is ToolCall);
            return true;
        }
        i += 1;
    }
    false
}

/// Whether the message holds a reasoning block.
fn holds_thinking(m: &Message) -> (r: bool)
    ensures
        r == m@.has_thinking(),
{
    let mut i: usize = 0;
    while i < m.content.len()
        invariant
            i <= m.content.len(),
            forall|j: int| 0 <= j < i ==> !(m@.content[j] is Thinking),
        decreases m.content.len() - i,
    {
        if let ContentBlock::Thinking { .. } = &m.content[i] {
            assert(m@.content[i as int] is Thinking);
            return true;
        }
        i += 1;
    }
    false
}

/// A message on the wire; system messages are not among the messages.
fn message_to_wire(m: &Message) -> (r: Option<Json>)
    ensures
        opt(r) == wire_message(m@),
{
    match m.role {
        MessageRole::System => None,
        MessageRole::Assistant => {
            let mut blocks: Vec<Json> = Vec::new();
            push_part(&mut blocks, Part::Reasoning, m);
            push_part(&mut blocks, Part::Said, m);
            assert(views(blocks@) =~= wire_part(Part::Reasoning, m@.content) + wire_part(
                Part::Said,
                m@.content,
            ));
            if holds_tool_call(m) || blocks.len() > 1 {
                Some(to_turn("assistant", Json::array(blocks)))
            } else {
                Some(to_turn("assistant", Json::Str(m.text_content())))
            }
        },
        MessageRole::Tool => {
            let mut content: Vec<Json> = Vec::new();
            push_part(&mut content, Part::Results, m);
            push_part(&mut content, Part::Images, m);
            assert(views(content@) =~= wire_part(Part::Results, m@.content) + wire_part(
                Part::Images,
                m@.content,
            ));
            if content.len() == 0 {
                Some(to_turn("user", Json::Str(m.text_content())))
            } else {
                Some(to_turn("user", Json::array(content)))
            }
        },
        MessageRole::User => {
            let mut content: Vec<Json> = Vec::new();
            let text = m.text_content();
            let mut images: Vec<Json> = Vec::new();
            push_part(&mut images, Part::Images, m);
            assert(views(images@) =~= wire_part(Part::Images, m@.content));
            if images.len() == 0 {
                Some(to_turn("user", Json::Str(text)))
            } else {
                if !text.as_str().is_empty() {
                    content.push(text_to_wire(text.as_str()));
                }
                push_part(&mut content, Part::Images, m);
                proof {
                    let images_view = wire_part(Part::Images, m@.content);
                    if text@.len() == 0 {
                        assert(views(content@) =~= images_view);
                    } else {
                        assert(views(content@) =~= seq![text_block(text@)] + images_view);
                    }
                }
                Some(to_turn("user", Json::array(content)))
            }
        },
    }
}

/// The messages on the wire.
fn messages_to_wire(messages: &Vec<Message>) -> (r: Vec<Json>)
    ensures
        views(r@) == wire_messages(views(messages@)),
{
    let mut out: Vec<Json> = Vec::new();
    let mut i: usize = 0;
    let ghost ms = views(messages@);
    let ghost f = |m: MessageView| wire_message(m);
    assert(ms.take(0) =~= Seq::empty());
    assert(views(out@) =~= pick(ms.take(0), f));
    while i < messages.len()
        invariant
            i <= messages.len(),
            ms == views(messages@),
            f == (|m: MessageView| wire_message(m)),
            views(out@) == pick(ms.take(i as int), f),
        decreases messages.len() - i,
    {
        let ghost before = out@;
        proof {
            lemma_pick_take(ms, f, i as int);
        }
        match message_to_wire(&messages[i]) {
            Some(j) => {
                let ghost jv = j;
                out.push(j);
                proof {
                    lemma_views_push(before, jv);
                }
            },
            None => {},
        }
        i += 1;
    }
    assert(ms.take(ms.len() as int) =~= ms);
    out
}

/// The texts of the system messages.
fn collect_system_parts(messages: &Vec<Message>) -> (r: Vec<String>)
    ensures
        views(r@) == system_parts(views(messages@)),
{
    let mut out: Vec<String> = Vec::new();
    let mut i: usize = 0;
    let ghost ms = views(messages@);
    let ghost f = |m: MessageView| system_text(m);
    assert(ms.take(0) =~= Seq::empty());
    assert(views(out@) =~= pick(ms.take(0), f));
    while i < messages.len()
        invariant
            i <= messages.len(),
            ms == views(messages@),
            f == (|m: MessageView| system_text(m)),
            views(out@) == pick(ms.take(i as int), f),
        decreases messages.len() - i,
    {
        let ghost before = out@;
        proof {
            lemma_pick_take(ms, f, i as int);
        }
        if messages[i].role == MessageRole::System {
            let text = messages[i].text_content();
            let ghost tv = text;
            out.push(text);
            proof {
                lemma_views_push(before, tv);
            }
        }
        i += 1;
    }
    assert(ms.take(ms.len() as int) =~= ms);
    out
}

/// The reasoning that a request body asks for.
fn thinking_to_ask(req: &InferenceRequest) -> (r: Option<ThinkingConfig>)
    ensures
        r == effective_thinking(req@),
{
    let mut i: usize = 0;
    while i < req.messages.len()
        invariant
            i <= req.messages.len(),
            forall|j: int| 0 <= j < i ==> !unreplayable(#[trigger] req@.messages[j]),
        decreases req.messages.len() - i,
    {
        let m = &req.messages[i];
        if m.role == MessageRole::Assistant && holds_tool_call(m) && !holds_thinking(m) {
            assert(unreplayable(req@.messages[i as int]));
            return None;
        }
        i += 1;
    }
    req.thinking
}

/// The tools on the wire.
fn tools_to_wire(tools: &Vec<ToolSpec>) -> (r: Vec<Json>)
    ensures
        views(r@) == Seq::new(tools@.len(), |i: int| wire_tool(views(tools@)[i])),
{
    let mut out: Vec<Json> = Vec::new();
    let mut i: usize = 0;
    while i < tools.len()
        invariant
            i <= tools.len(),
            out.len() == i,
            forall|j: int| 0 <= j < i ==> (#[trigger] out@[j])@ == wire_tool(tools@[j]@),
        decreases tools.len() - i,
    {
        let t = &tools[i];
        let es = vec![
            entry("name", Json::string(t.id.as_str())),
            entry("description", Json::string(t.description.as_str())),
            entry("input_schema", t.input_schema.clone()),
        ];
        assert(entry_views(es@) =~= seq![
            ("name"@, JsonView::Str(t@.id)),
            ("description"@, JsonView::Str(t@.description)),
            ("input_schema"@, t@.input_schema),
        ]);
        out.push(Json::object(es));
        i += 1;
    }
    assert(views(out@) =~= Seq::new(tools@.len(), |i: int| wire_tool(views(tools@)[i])));
    out
}

/// The Messages API request body for a request.
///
/// System messages are lifted into the top-level `system` field. Assistant tool
/// calls become `tool_use` blocks; tool results become `tool_result` blocks
/// inside user turns.
pub fn request_body(model: &str, req: &InferenceRequest) -> (r: Json)
    ensures
        r@ == body_spec(model@, req@),
{
    let system = collect_system_parts(&req.messages);
    let messages = messages_to_wire(&req.messages);
    let thinking = thinking_to_ask(req);
    let asked: u32 = match req.max_tokens {
        Some(n) => n,
        None => DEFAULT_MAX_TOKENS,
    };
    let budget: u32 = match thinking {
        Some(t) => if t.budget_tokens > MIN_THINKING_BUDGET {
            t.budget_tokens
        } else {
            MIN_THINKING_BUDGET
        },
        None => 0,
    };
    let max_tokens: u32 = if thinking.is_some() {
        let room: u32 = budget.saturating_add(DEFAULT_MAX_TOKENS);
        if asked > room {
            asked
        } else {
            room
        }
    } else {
        asked
    };
    assert(max_tokens == wire_max_tokens(req@));

    let mut es = vec![
        entry("model", Json::string(model)),
        entry("messages", Json::array(messages)),
        entry("max_tokens", Json::natural(max_tokens as u64)),
        entry("stream", Json::Bool(true)),
    ];
    assert(entry_views(es@) =~= base_entries(model@, req@));
    if system.len() != 0 {
        es.push(entry("system", Json::Str(join_strings(&system, "\n"))));
    }
    assert(entry_views(es@) =~= base_entries(model@, req@) + system_entries(req@));
    match thinking {
        Some(_t) => {
            let inner = vec![
                entry("type", Json::string("enabled")),
                entry("budget_tokens", Json::natural(budget as u64)),
            ];
            assert(entry_views(inner@) =~= seq![
                ("type"@, JsonView::Str("enabled"@)),
                ("budget_tokens"@, JsonView::Number(natural_number(budget as u64))),
            ]);
            es.push(entry("thinking", Json::object(inner)));
        },
        None => match &req.temperature {
            Some(n) => {
                es.push(entry("temperature", Json::Number(n.clone())));
            },
            None => {},
        },
    }
    assert(entry_views(es@) =~= base_entries(model@, req@) + system_entries(req@)
        + sampling_entries(req@));
    match &req.tools {
        Some(tools) => {
            es.push(entry("tools", Json::array(tools_to_wire(tools))));
        },
        None => {},
    }
    assert(entry_views(es@) =~= base_entries(model@, req@) + system_entries(req@)
        + sampling_entries(req@) + tool_entries(req@));
    Json::object(es)
}

/// Why a message ended, from the API's stop reason.
pub open spec fn stop_reason_spec(reason: Seq<char>) -> FinishReason {
    if reason == "max_tokens"@ {
        FinishReason::MaxTokens
    } else if reason == "tool_use"@ {
        FinishReason::ToolCall
    } else if reason == "refusal"@ {
        FinishReason::Error
    } else {
        FinishReason::Stop
    }
}

/// Why a message ended, from the API's stop reason.
pub fn map_stop_reason(reason: &str) -> (r: FinishReason)
    ensures
        r == stop_reason_spec(reason@),
{
    if str_eq(reason, "max_tokens") {
        FinishReason::MaxTokens
    } else if str_eq(reason, "tool_use") {
        FinishReason::ToolCall
    } else if str_eq(reason, "refusal") {
        FinishReason::Error
    } else {
        FinishReason::Stop
    }
}

/// Identity of a streaming tool-use block, captured at its start and reused for
/// its argument deltas.
struct ToolBlockIdentity {
    call_id: String,
    tool_id: String,
}

impl View for ToolBlockIdentity {
    type V = (Seq<char>, Seq<char>);

    closed spec fn view(&self) -> (Seq<char>, Seq<char>) {
        (self.call_id@, self.tool_id@)
    }
}

/// Stateful parser for Anthropic Messages events.
pub struct AnthropicSseParser {
    mode: ComputeMode,
    done: bool,
    stop_reason: Option<FinishReason>,
    tool_blocks: HashMap<u64, ToolBlockIdentity>,
}

/// What a parser has learnt of a stream: whether it is over, the stop reason, and
/// the call and the tool of each tool-use block by its index.
pub struct ParserView {
    pub mode: ComputeMode,
    pub done: bool,
    pub stop_reason: Option<FinishReason>,
    pub tool_blocks: Map<u64, (Seq<char>, Seq<char>)>,
}

impl View for AnthropicSseParser {
    type V = ParserView;

    closed spec fn view(&self) -> ParserView {
        ParserView {
            mode: self.mode,
            done: self.done,
            stop_reason: self.stop_reason,
            tool_blocks: self.tool_blocks@.map_values(|b: ToolBlockIdentity| b@),
        }
    }
}

/// The index of a content block in an event; zero where it is missing.
pub open spec fn block_index(value: JsonView) -> u64 {
    match value.at("index"@).natural() {
        Some(n) => n,
        None => 0,
    }
}

/// The call identifier of a starting block: its own, or one made of its index.
pub open spec fn started_call_id(value: JsonView) -> Seq<char> {
    let id = value.at("content_block"@).at("id"@).text_or_empty();
    if id.len() == 0 {
        "toolu_"@ + decimal(block_index(value) as nat)
    } else {
        id
    }
}

/// The parser after a block starts.
pub open spec fn after_block_start(p: ParserView, value: JsonView) -> ParserView {
    let block = value.at("content_block"@);
    if block.at("type"@).text() == Some("tool_use"@) {
        ParserView {
            tool_blocks: p.tool_blocks.insert(
                block_index(value),
                (started_call_id(value), block.at("name"@).text_or_empty()),
            ),
            ..p
        }
    } else {
        p
    }
}

/// The chunk that a block delta yields, if any.
pub open spec fn delta_items(p: ParserView, value: JsonView) -> Seq<Item> {
    let delta = value.at("delta"@);
    let kind = delta.at("type"@).text();
    if kind == Some("text_delta"@) {
        let text = delta.at("text"@).text_or_empty();
        if text.len() == 0 {
            Seq::empty()
        } else {
            seq![Ok(ChunkView::text(text, p.mode))]
        }
    } else if kind == Some("input_json_delta"@) {
        let index = block_index(value);
        let (call_id, tool_id) = if p.tool_blocks.dom().contains(index) {
            p.tool_blocks[index]
        } else {
            (Seq::empty(), Seq::empty())
        };
        seq![
            Ok(
                ChunkView::tool_call(
                    ToolCallDeltaView {
                        call_id,
                        tool_id,
                        args_delta: delta.at("partial_json"@).text_or_empty(),
                    },
                    p.mode,
                ),
            ),
        ]
    } else if kind == Some("thinking_delta"@) {
        let text = delta.at("thinking"@).text_or_empty();
        if text.len() == 0 {
            Seq::empty()
        } else {
            seq![Ok(ChunkView::thinking(ThinkingDeltaView { text, signature: None }, p.mode))]
        }
    } else if kind == Some("signature_delta"@) {
        let sig = delta.at("signature"@).text_or_empty();
        if sig.len() == 0 {
            Seq::empty()
        } else {
            seq![
                Ok(
                    ChunkView::thinking(
                        ThinkingDeltaView { text: Seq::empty(), signature: Some(sig) },
                        p.mode,
                    ),
                ),
            ]
        }
    } else {
        Seq::empty()
    }
}

/// The error that an error event stands for.
pub open spec fn stream_error(data: Seq<char>, value: JsonView) -> ContractErrorView {
    let error = value.at("error"@);
    let kind = match error.at("type"@).text() {
        Some(k) => k,
        None => "unknown"@,
    };
    let message = match error.at("message"@).text() {
        Some(m) => m,
        None => data,
    };
    ContractErrorView::Inference(
        InferenceErrorView::Provider {
            message: "anthropic stream error ("@ + kind + "): "@ + message,
            retryable: kind == "overloaded_error"@ || kind == "api_error"@,
        },
    )
}

/// The parser after an event and the items it yields, given the event's payload.
pub open spec fn step(
    p: ParserView,
    event_type: Seq<char>,
    data: Seq<char>,
    value: JsonView,
) -> (ParserView, Seq<Item>) {
    if p.done {
        (p, Seq::empty())
    } else if event_type == "content_block_start"@ {
        (after_block_start(p, value), Seq::empty())
    } else if event_type == "content_block_delta"@ {
        (p, delta_items(p, value))
    } else if event_type == "message_delta"@ {
        (
            match value.at("delta"@).at("stop_reason"@).text() {
                Some(r) => ParserView { stop_reason: Some(stop_reason_spec(r)), ..p },
                None => p,
            },
            Seq::empty(),
        )
    } else if event_type == "message_stop"@ {
        (
            ParserView { done: true, ..p },
            seq![
                Ok(
                    ChunkView::finish(
                        match p.stop_reason {
                            Some(r) => r,
                            None => FinishReason::Stop,
                        },
                        p.mode,
                    ),
                ),
            ],
        )
    } else if event_type == "error"@ {
        (ParserView { done: true, ..p }, seq![Err(stream_error(data, value))])
    } else {
        (p, Seq::empty())
    }
}

/// The parser after an event and the items it yields. The payload is read as
/// JSON; a blank payload counts as null.
pub open spec fn handle_spec(
    p: ParserView,
    event_type: Seq<char>,
    data: Seq<char>,
) -> (ParserView, Seq<Item>) {
    if p.done {
        (p, Seq::empty())
    } else {
        match json_parsed(trim(data)) {
            Ok(value) => step(p, event_type, data, value),
            Err(message) => if trim(data).len() == 0 {
                step(p, event_type, data, JsonView::Null)
            } else {
                (p, seq![Err(malformed(message))])
            },
        }
    }
}

impl AnthropicSseParser {
    /// A parser at the start of a stream.
    pub fn new(mode: ComputeMode) -> (r: AnthropicSseParser)
        ensures
            r@ == (ParserView { mode, done: false, stop_reason: None, tool_blocks: Map::empty() }),
    {
        let r = AnthropicSseParser {
            mode,
            done: false,
            stop_reason: None,
            tool_blocks: HashMap::new(),
        };
        assert(r@.tool_blocks =~= Map::empty());
        r
    }

    /// Whether the end of the message, or an error that ends it, has been seen.
    pub fn is_done(&self) -> (r: bool)
        ensures
            r == self@.done,
    {
        self.done
    }

    /// Reads one event into chunks.
    pub fn handle(&mut self, event_type: &str, data: &str) -> (r: Vec<
        Result<InferenceChunk, ContractError>,
    >)
        ensures
            (final(self)@, outcomes(r@)) == handle_spec(old(self)@, event_type@, data@),
    {
        if self.done {
            return nothing();
        }
        let trimmed = trim_text(data);
        match Json::parse(trimmed.as_str()) {
            Ok(value) => self.handle_value(event_type, data, &value),
            Err(message) => {
                if trimmed.as_str().is_empty() {
                    self.handle_value(event_type, data, &Json::Null)
                } else {
                    one(Err(malformed_error(message.as_str())))
                }
            },
        }
    }

    /// Reads one event, whose payload is already parsed, into chunks.
    pub fn handle_value(&mut self, event_type: &str, data: &str, value: &Json) -> (r: Vec<
        Result<InferenceChunk, ContractError>,
    >)
        ensures
            (final(self)@, outcomes(r@)) == step(old(self)@, event_type@, data@, value@),
    {
        if self.done {
            return nothing();
        }
        if str_eq(event_type, "content_block_start") {
            self.start_block(value);
            nothing()
        } else if str_eq(event_type, "content_block_delta") {
            self.block_delta(value)
        } else if str_eq(event_type, "message_delta") {
            match value.at("delta").at("stop_reason").as_str() {
                Some(reason) => {
                    self.stop_reason = Some(map_stop_reason(reason.as_str()));
                },
                None => {},
            }
            nothing()
        } else if str_eq(event_type, "message_stop") {
            self.done = true;
            let reason = match self.stop_reason {
                Some(r) => r,
                None => FinishReason::Stop,
            };
            one(Ok(InferenceChunk::finish(reason, self.mode)))
        } else if str_eq(event_type, "error") {
            self.done = true;
            let error = value.at("error");
            let kind = match error.at("type").as_str() {
                Some(k) => k.clone(),
                None => "unknown".to_owned(),
            };
            let detail = match error.at("message").as_str() {
                Some(m) => m.clone(),
                None => data.to_owned(),
            };
            let mut message = "anthropic stream error (".to_owned();
            message.append(kind.as_str());
            message.append("): ");
            message.append(detail.as_str());
            let retryable = str_eq(kind.as_str(), "overloaded_error") || str_eq(
                kind.as_str(),
                "api_error",
            );
            one(Err(ContractError::Inference(InferenceError::Provider { message, retryable })))
        } else {
            nothing()
        }
    }

    /// Notes the identity of a tool-use block.
    fn start_block(&mut self, value: &Json)
        ensures
            final(self)@ == after_block_start(old(self)@, value@),
    {
        let block = value.at("content_block");
        let is_tool = match block.at("type").as_str() {
            Some(kind) => str_eq(kind.as_str(), "tool_use"),
            None => false,
        };
        if is_tool {
            let index: u64 = match value.at("index").as_u64() {
                Some(n) => n,
                None => 0,
            };
            let id = block.at("id").str_or_empty();
            let call_id = if id.as_str().is_empty() {
                "toolu_".to_owned().concat(u64_text(index).as_str())
            } else {
                id
            };
            let tool_id = block.at("name").str_or_empty();
            self.tool_blocks.insert(index, ToolBlockIdentity { call_id, tool_id });
            assert(self@.tool_blocks =~= after_block_start(old(self)@, value@).tool_blocks);
        }
    }

    /// Reads a block delta into chunks.
    fn block_delta(&self, value: &Json) -> (r: Vec<Result<InferenceChunk, ContractError>>)
        ensures
            outcomes(r@) == delta_items(self@, value@),
    {
        let delta = value.at("delta");
        let kind = match delta.at("type").as_str() {
            Some(kind) => kind,
            None => {
                return nothing();
            },
        };
        if str_eq(kind.as_str(), "text_delta") {
            let text = delta.at("text").str_or_empty();
            if text.as_str().is_empty() {
                nothing()
            } else {
                one(Ok(InferenceChunk::text(text.as_str(), self.mode)))
            }
        } else if str_eq(kind.as_str(), "input_json_delta") {
            let index: u64 = match value.at("index").as_u64() {
                Some(n) => n,
                None => 0,
            };
            let (call_id, tool_id) = match self.tool_blocks.get(&index) {
                Some(identity) => (identity.call_id.clone(), identity.tool_id.clone()),
                None => (String::new(), String::new()),
            };
            one(
                Ok(
                    InferenceChunk::tool_call(
                        ToolCallDelta {
                            call_id,
                            tool_id,
                            args_delta: delta.at("partial_json").str_or_empty(),
                        },
                        self.mode,
                    ),
                ),
            )
        } else if str_eq(kind.as_str(), "thinking_delta") {
            let text = delta.at("thinking").str_or_empty();
            if text.as_str().is_empty() {
                nothing()
            } else {
                one(
                    Ok(InferenceChunk::thinking(ThinkingDelta { text, signature: None }, self.mode)),
                )
            }
        } else if str_eq(kind.as_str(), "signature_delta") {
            let sig = delta.at("signature").str_or_empty();
            if sig.as_str().is_empty() {
                nothing()
            } else {
                one(
                    Ok(
                        InferenceChunk::thinking(
                            ThinkingDelta { text: String::new(), signature: Some(sig) },
                            self.mode,
                        ),
                    ),
                )
            }
        } else {
            nothing()
        }
    }
}

impl SseChunkParser for AnthropicSseParser {
    open spec fn mode_spec(&self) -> ComputeMode {
        self@.mode
    }

    open spec fn done_spec(&self) -> bool {
        self@.done
    }

    open spec fn step_to(
        &self,
        post: Self,
        event_type: Seq<char>,
        data: Seq<char>,
        items: Seq<Item>,
    ) -> bool {
        (post@, items) == handle_spec(self@, event_type, data)
    }

    fn mode(&self) -> ComputeMode {
        self.mode
    }

    fn done(&self) -> bool {
        self.done
    }

    fn handle_event(&mut self, event_type: &str, data: &str) -> Vec<
        Result<InferenceChunk, ContractError>,
    > {
        proof {
            law_chunks_carry_the_mode(self@, event_type@, data@);
        }
        self.handle(event_type, data)
    }
}

/// Every chunk carries the parser's mode.
pub proof fn law_chunks_carry_the_mode(p: ParserView, event_type: Seq<char>, data: Seq<char>)
    ensures
        all_carry(handle_spec(p, event_type, data).1, p.mode),
        handle_spec(p, event_type, data).0.mode == p.mode,
{
}

/// A parser that is done stays as it is and yields nothing.
pub proof fn law_done_is_final(p: ParserView, event_type: Seq<char>, data: Seq<char>)
    requires
        p.done,
    ensures
        handle_spec(p, event_type, data) == (p, Seq::<Item>::empty()),
{
}

/// The chunk that finishes a message comes exactly when the parser gets done by
/// the end of the message; a parser that gets done yields one item.
pub proof fn law_one_item_ends_the_stream(p: ParserView, event_type: Seq<char>, data: Seq<char>)
    requires
        !p.done,
    ensures
        handle_spec(p, event_type, data).0.done ==> handle_spec(p, event_type, data).1.len() == 1,
        !handle_spec(p, event_type, data).0.done ==> forall|i: int|
            #![trigger handle_spec(p, event_type, data).1[i]]
            0 <= i < handle_spec(p, event_type, data).1.len() ==> (
            handle_spec(p, event_type, data).1[i] matches Ok(c) ==> c.finish_reason is None),
{
}

/// With reasoning enabled the token limit exceeds the reasoning budget, unless
/// the budget leaves no room below the largest limit.
pub proof fn law_max_tokens_exceed_the_budget(req: RequestView)
    ensures
        effective_thinking(req) matches Some(t) ==> {
            ||| wire_max_tokens(req) > wire_budget(t)
            ||| t.budget_tokens == u32::MAX
        },
{
}

/// Reasoning and an explicit temperature never go into one request body.
pub proof fn law_thinking_drops_the_temperature(model: Seq<char>, req: RequestView)
    requires
        effective_thinking(req) is Some,
    ensures
        body_spec(model, req).at("temperature"@) == JsonView::Null,
        body_spec(model, req).at("thinking"@) != JsonView::Null,
{
    let es = base_entries(model, req) + system_entries(req) + sampling_entries(req) + tool_entries(
        req,
    );
    lemma_body_keys();
    assert forall|j: int| 0 <= j < es.len() implies es[j].0 != "temperature"@ by {}
    lemma_entries_map_absent(es, "temperature"@);
    let i = (base_entries(model, req) + system_entries(req)).len() as int;
    assert(es[i].0 == "thinking"@);
    lemma_entries_map_get(es, i);
}

/// The keys of a request body are different texts.
proof fn lemma_body_keys()
    ensures
        "model"@ != "temperature"@,
        "messages"@ != "temperature"@,
        "max_tokens"@ != "temperature"@,
        "stream"@ != "temperature"@,
        "system"@ != "temperature"@,
        "thinking"@ != "temperature"@,
        "tools"@ != "temperature"@,
        "tools"@ != "thinking"@,
{
    reveal_strlit("model");
    reveal_strlit("messages");
    reveal_strlit("max_tokens");
    reveal_strlit("stream");
    reveal_strlit("system");
    reveal_strlit("thinking");
    reveal_strlit("tools");
    reveal_strlit("temperature");
    assert("thinking"@[0] != "temperature"@[1]);
    assert("tools"@.len() != "temperature"@.len());
}

} // verus!
