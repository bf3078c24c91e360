//! The OpenAI-compatible chat-completions format: request bodies and the event
//! stream. It is also what a managed local server speaks.

use crate::compute::hosted::anthropic::{output_text, tool_output_to_string};
use crate::compute::hosted::sse::{
    all_carry, malformed, malformed_error, nothing, one, Item, SseChunkParser,
};
use crate::contracts::compute::{
    CanHandleResult, ChunkView, FinishReason, InferenceChunk, InferenceRequest, RequestView,
    ToolCallDelta, ToolCallDeltaView, ToolSpec, ToolSpecView,
};
use crate::contracts::data::{BlockView, ContentBlock, Message, MessageRole, MessageView};
use crate::contracts::error::ContractError;
use crate::contracts::types::{
    CapabilitySet, ComputeMode, ModelDescriptor, ModelDescriptorView, ModelSource, ModelSourceView,
    PerfProfile,
};
use crate::json::{
    entry, entry_views, json_parsed, json_text, lemma_entries_map_absent, natural_number, obj, Json,
    JsonView,
};
use crate::model::{
    flat, lemma_flat_take, lemma_pick_take, lemma_views_push, opt, outcomes, pick, views,
};
use crate::text::{chars_of, decimal, str_eq, string_of, trim, trim_text, u64_text};
use std::collections::HashMap;
use vstd::prelude::*;

verus! {

broadcast use vstd::std_specs::hash::group_hash_axioms;

/// Hosted provider speaking the OpenAI chat-completions wire format.
pub struct OpenAiCompatProvider {
    pub base_url: String,
    pub api_key: String,
    pub model: String,
    /// Mode stamped on every emitted chunk.
    pub mode: ComputeMode,
}

/// A text without the slashes at its end.
pub open spec fn without_trailing_slashes(s: Seq<char>) -> Seq<char>
    decreases s.len(),
{
    if s.len() > 0 && s.last() == '/' {
        without_trailing_slashes(s.drop_last())
    } else {
        s
    }
}

/// A text without the slashes at its end.
pub fn trim_trailing_slashes(s: &str) -> (r: String)
    ensures
        r@ == without_trailing_slashes(s@),
{
    let chars = chars_of(s);
    let mut n: usize = chars.len();
    assert(chars@.take(n as int) =~= s@);
    while n > 0 && chars[n - 1] == '/'
        invariant
            n <= chars.len(),
            without_trailing_slashes(chars@.take(n as int)) == without_trailing_slashes(s@),
        decreases n,
    {
        assert(chars@.take(n as int).drop_last() =~= chars@.take(n - 1));
        n -= 1;
    }
    assert(chars@.subrange(0, n as int) =~= chars@.take(n as int));
    string_of(vstd::slice::slice_subrange(chars.as_slice(), 0, n))
}

/// [`OpenAiCompatProvider`] as a mathematical value.
pub struct ProviderView {
    pub base_url: Seq<char>,
    pub api_key: Seq<char>,
    pub model: Seq<char>,
    pub mode: ComputeMode,
}

impl View for OpenAiCompatProvider {
    type V = ProviderView;

    open spec fn view(&self) -> ProviderView {
        ProviderView {
            base_url: self.base_url@,
            api_key: self.api_key@,
            model: self.model@,
            mode: self.mode,
        }
    }
}

impl OpenAiCompatProvider {
    /// A hosted provider.
    pub fn new(base_url: &str, api_key: &str, model: &str) -> (r: OpenAiCompatProvider)
        ensures
            r@ == (ProviderView {
                base_url: base_url@,
                api_key: api_key@,
                model: model@,
                mode: ComputeMode::Hosted,
            }),
    {
        OpenAiCompatProvider {
            base_url: base_url.to_owned(),
            api_key: api_key.to_owned(),
            model: model.to_owned(),
            mode: ComputeMode::Hosted,
        }
    }

    /// The same provider, its chunks stamped with `mode`.
    pub fn with_mode(self, mode: ComputeMode) -> (r: OpenAiCompatProvider)
        ensures
            r@ == (ProviderView { mode, ..self@ }),
    {
        OpenAiCompatProvider { base_url: self.base_url, api_key: self.api_key, model: self.model, mode }
    }

    /// The mode stamped on emitted chunks.
    pub fn mode(&self) -> (r: ComputeMode)
        ensures
            r == self@.mode,
    {
        self.mode
    }

    /// The streaming endpoint.
    pub fn chat_completions_url(&self) -> (r: String)
        ensures
            r@ == without_trailing_slashes(self@.base_url) + "/v1/chat/completions"@,
    {
        trim_trailing_slashes(self.base_url.as_str()).concat("/v1/chat/completions")
    }

    /// What the format's models offer.
    pub open spec fn offer() -> CapabilitySet {
        CapabilitySet {
            vision: true,
            tool_calling: true,
            min_context_window: 128_000,
            code_gen: true,
            thinking: true,
        }
    }

    /// Static description of the model.
    pub fn descriptor(&self) -> (r: ModelDescriptor)
        ensures
            r@ == (ModelDescriptorView {
                id: self@.model,
                display_name: "Hosted (OpenAI-compat): "@ + self@.model,
                context_window: 128_000,
                capabilities: OpenAiCompatProvider::offer(),
                limitations: Seq::empty(),
                size_bytes: None,
                quantization: None,
                source: ModelSourceView::Hosted { provider: "openai-compat"@ },
                perf_profile: PerfProfile { ttft_ms: 600, milli_tok_per_sec: 80_000 },
            }),
    {
        let r = ModelDescriptor {
            id: self.model.clone(),
            display_name: "Hosted (OpenAI-compat): ".to_owned().concat(self.model.as_str()),
            context_window: 128_000,
            capabilities: CapabilitySet {
                vision: true,
                tool_calling: true,
                min_context_window: 128_000,
                code_gen: true,
                thinking: true,
            },
            limitations: Vec::new(),
            size_bytes: None,
            quantization: None,
            source: ModelSource::Hosted { provider: "openai-compat".to_owned() },
            perf_profile: PerfProfile { ttft_ms: 600, milli_tok_per_sec: 80_000 },
        };
        assert(views(r.limitations@) =~= Seq::empty());
        r
    }

    /// Whether the provider can serve a request.
    pub fn can_handle(&self, req: &InferenceRequest) -> (r: CanHandleResult)
        ensures
            r == CanHandleResult::against_spec(
                req.required_caps,
                OpenAiCompatProvider::offer(),
                None,
            ),
    {
        let offered = self.descriptor().capabilities;
        CanHandleResult::against(&req.required_caps, &offered, None)
    }
}

/// A text content part on the wire.
pub open spec fn text_part(text: Seq<char>) -> JsonView {
    obj(seq![("type"@, JsonView::Str("text"@)), ("text"@, JsonView::Str(text))])
}

/// The wire form of an image block: a data URL.
pub open spec fn image_part(b: BlockView) -> Option<JsonView> {
    match b {
        BlockView::Image { media_type, data } => Some(
            obj(
                seq![
                    ("type"@, JsonView::Str("image_url"@)),
                    (
                        "image_url"@,
                        obj(
                            seq![
                                (
                                    "url"@,
                                    JsonView::Str("data:"@ + media_type + ";base64,"@ + data),
                                ),
                            ],
                        ),
                    ),
                ],
            ),
        ),
        _ => None,
    }
}

/// The images of a content list on the wire.
pub open spec fn image_parts(content: Seq<BlockView>) -> Seq<JsonView> {
    pick(content, |b: BlockView| image_part(b))
}

/// The wire form of a tool call: the arguments are JSON text.
pub open spec fn call_part(b: BlockView) -> Option<JsonView> {
    match b {
        BlockView::ToolCall { call_id, tool_id, args } => Some(
            obj(
                seq![
                    ("id"@, JsonView::Str(call_id)),
                    ("type"@, JsonView::Str("function"@)),
                    (
                        "function"@,
                        obj(
                            seq![
                                ("name"@, JsonView::Str(tool_id)),
                                ("arguments"@, JsonView::Str(json_text(args))),
                            ],
                        ),
                    ),
                ],
            ),
        ),
        _ => None,
    }
}

/// The tool calls of a content list on the wire.
pub open spec fn call_parts(content: Seq<BlockView>) -> Seq<JsonView> {
    pick(content, |b: BlockView| call_part(b))
}

/// The wire form of a tool result: a message of its own.
pub open spec fn result_message(b: BlockView) -> Option<JsonView> {
    match b {
        BlockView::ToolResult { call_id, output } => Some(
            obj(
                seq![
                    ("role"@, JsonView::Str("tool"@)),
                    ("tool_call_id"@, JsonView::Str(call_id)),
                    ("content"@, JsonView::Str(output_text(output))),
                ],
            ),
        ),
        _ => None,
    }
}

/// The tool results of a content list on the wire.
pub open spec fn result_messages(content: Seq<BlockView>) -> Seq<JsonView> {
    pick(content, |b: BlockView| result_message(b))
}

/// A message with the given role and content on the wire.
pub open spec fn plain_message(role: Seq<char>, content: JsonView) -> JsonView {
    obj(seq![("role"@, JsonView::Str(role)), ("content"@, content)])
}

/// A user message on the wire: its text, followed by its images where it has any.
pub open spec fn user_message(m: MessageView) -> JsonView {
    let images = image_parts(m.content);
    let text = m.text_content();
    if images.len() == 0 {
        plain_message("user"@, JsonView::Str(text))
    } else if text.len() == 0 {
        plain_message("user"@, JsonView::Array(images))
    } else {
        plain_message("user"@, JsonView::Array(seq![text_part(text)] + images))
    }
}

/// An assistant message on the wire. Its content is null exactly where it has
/// tool calls and no text.
pub open spec fn assistant_message(m: MessageView) -> JsonView {
    let calls = call_parts(m.content);
    let text = m.text_content();
    let content = if text.len() == 0 && calls.len() != 0 {
        JsonView::Null
    } else {
        JsonView::Str(text)
    };
    let base = seq![("role"@, JsonView::Str("assistant"@)), ("content"@, content)];
    if calls.len() == 0 {
        obj(base)
    } else {
        obj(base.push(("tool_calls"@, JsonView::Array(calls))))
    }
}

/// A tool message on the wire: one message for each result, a user message with
/// the images, and the text where there is neither.
pub open spec fn tool_messages(m: MessageView) -> Seq<JsonView> {
    let results = result_messages(m.content);
    let images = image_parts(m.content);
    if images.len() != 0 {
        results.push(
            plain_message(
                "user"@,
                JsonView::Array(
                    seq![text_part("Screenshot from the tool result above:"@)] + images,
                ),
            ),
        )
    } else if results.len() != 0 {
        results
    } else {
        seq![plain_message("user"@, JsonView::Str(m.text_content()))]
    }
}

/// A message on the wire.
pub open spec fn wire(m: MessageView) -> Seq<JsonView> {
    match m.role {
        MessageRole::System => seq![plain_message("system"@, JsonView::Str(m.text_content()))],
        MessageRole::User => seq![user_message(m)],
        MessageRole::Assistant => seq![assistant_message(m)],
        MessageRole::Tool => tool_messages(m),
    }
}

/// The messages on the wire.
pub open spec fn wire_all(messages: Seq<MessageView>) -> Seq<JsonView> {
    flat(messages, |m: MessageView| wire(m))
}

/// A tool definition on the wire.
pub open spec fn wire_tool(t: ToolSpecView) -> JsonView {
    obj(
        seq![
            ("type"@, JsonView::Str("function"@)),
            (
                "function"@,
                obj(
                    seq![
                        ("name"@, JsonView::Str(t.id)),
                        ("description"@, JsonView::Str(t.description)),
                        ("parameters"@, t.input_schema),
                    ],
                ),
            ),
        ],
    )
}

/// The entries that every request body has.
pub open spec fn base_entries(model: Seq<char>, req: RequestView) -> Seq<(Seq<char>, JsonView)> {
    seq![
        ("model"@, JsonView::Str(model)),
        ("messages"@, JsonView::Array(wire_all(req.messages))),
        ("stream"@, JsonView::Bool(true)),
    ]
}

/// The entry for the token limit, where there is one.
pub open spec fn limit_entries(req: RequestView) -> Seq<(Seq<char>, JsonView)> {
    match req.max_tokens {
        Some(n) => seq![("max_tokens"@, JsonView::Number(natural_number(n as u64)))],
        None => Seq::empty(),
    }
}

/// The entry for the temperature, where there is one.
pub open spec fn temperature_entries(req: RequestView) -> Seq<(Seq<char>, JsonView)> {
    match req.temperature {
        Some(n) => seq![("temperature"@, JsonView::Number(n))],
        None => Seq::empty(),
    }
}

/// The entry for the tools, or without tools the one for the reasoning effort.
pub open spec fn tool_entries(req: RequestView) -> Seq<(Seq<char>, JsonView)> {
    match req.tools {
        Some(tools) => seq![
            ("tools"@, JsonView::Array(Seq::new(tools.len(), |i: int| wire_tool(tools[i])))),
        ],
        None => match req.thinking {
            Some(t) => seq![("reasoning_effort"@, JsonView::Str(t.effort()))],
            None => Seq::empty(),
        },
    }
}

/// The entries of a request body.
pub open spec fn body_entries(model: Seq<char>, req: RequestView) -> Seq<(Seq<char>, JsonView)> {
    base_entries(model, req) + limit_entries(req) + temperature_entries(req) + tool_entries(req)
}

/// The chat-completions request body.
pub open spec fn body_spec(model: Seq<char>, req: RequestView) -> JsonView {
    obj(body_entries(model, req))
}

/// The kinds of blocks that are collected from a message.
#[derive(Clone, Copy, PartialEq, Eq, Structural)]
pub enum Kind {
    Image,
    Call,
    Result,
}

/// The wire form of a block of the given kind.
pub open spec fn kind_part(kind: Kind, b: BlockView) -> Option<JsonView> {
    match kind {
        Kind::Image => image_part(b),
        Kind::Call => call_part(b),
        Kind::Result => result_message(b),
    }
}

/// The wire form of a block of the given kind.
fn block_to_wire(kind: Kind, b: &ContentBlock) -> (r: Option<Json>)
    ensures
        opt(r) == kind_part(kind, b@),
{
    match (kind, b) {
        (Kind::Image, ContentBlock::Image { media_type, data }) => {
            let mut url = "data:".to_owned();
            url.append(media_type.as_str());
            url.append(";base64,");
            url.append(data.as_str());
            let ghost u = url@;
            let inner = vec![entry("url", Json::Str(url))];
            assert(entry_views(inner@) =~= seq![("url"@, JsonView::Str(u))]);
            let image = Json::object(inner);
            let ghost image_view = image@;
            let es = vec![entry("type", Json::string("image_url")), entry("image_url", image)];
            assert(entry_views(es@) =~= seq![
                ("type"@, JsonView::Str("image_url"@)),
                ("image_url"@, image_view),
            ]);
            Some(Json::object(es))
        },
        (Kind::Call, ContentBlock::ToolCall { call_id, tool_id, args }) => {
            let inner = vec![
                entry("name", Json::string(tool_id.as_str())),
                entry("arguments", Json::Str(args.to_text())),
            ];
            assert(entry_views(inner@) =~= seq![
                ("name"@, JsonView::Str(tool_id@)),
                ("arguments"@, JsonView::Str(json_text(args@))),
            ]);
            let function = Json::object(inner);
            let ghost function_view = function@;
            let es = vec![
                entry("id", Json::string(call_id.as_str())),
                entry("type", Json::string("function")),
                entry("function", function),
            ];
            assert(entry_views(es@) =~= seq![
                ("id"@, JsonView::Str(call_id@)),
                ("type"@, JsonView::Str("function"@)),
                ("function"@, function_view),
            ]);
            Some(Json::object(es))
        },
        (Kind::Result, ContentBlock::ToolResult { call_id, output }) => {
            let es = vec![
                entry("role", Json::string("tool")),
                entry("tool_call_id", Json::string(call_id.as_str())),
                entry("content", Json::Str(tool_output_to_string(output))),
            ];
            assert(entry_views(es@) =~= seq![
                ("role"@, JsonView::Str("tool"@)),
                ("tool_call_id"@, JsonView::Str(call_id@)),
                ("content"@, JsonView::Str(output_text(output@))),
            ]);
            Some(Json::object(es))
        },
        _ => None,
    }
}

/// Appends the wire forms of the blocks of a kind.
fn push_kind(out: &mut Vec<Json>, kind: Kind, m: &Message)
    ensures
        views(final(out)@) == views(old(out)@) + pick(
            m@.content,
            |b: BlockView| kind_part(kind, b),
        ),
{
    let mut i: usize = 0;
    let ghost start = views(out@);
    let ghost blocks = m@.content;
    let ghost f = |b: BlockView| kind_part(kind, b);
    assert(blocks.take(0) =~= Seq::empty());
    assert(views(out@) =~= start + pick(blocks.take(0), f));
    while i < m.content.len()
        invariant
            i <= m.content.len(),
            blocks == views(m.content@),
            f == (|b: BlockView| kind_part(kind, b)),
            views(out@) == start + pick(blocks.take(i as int), f),
        decreases m.content.len() - i,
    {
        let ghost before = out@;
        proof {
            lemma_pick_take(blocks, f, i as int);
        }
        match block_to_wire(kind, &m.content[i]) {
            Some(j) => {
                let ghost jv = j;
                out.push(j);
                proof {
                    lemma_views_push(before, jv);
                    assert(views(out@) =~= start + pick(blocks.take(i + 1), f));
                }
            },
            None => {},
        }
        i += 1;
    }
    assert(blocks.take(blocks.len() as int) =~= blocks);
}

/// Collecting by kind is collecting by the wire form of that kind.
proof fn lemma_kinds(content: Seq<BlockView>)
    ensures
        pick(content, |b: BlockView| kind_part(Kind::Image, b)) == image_parts(content),
        pick(content, |b: BlockView| kind_part(Kind::Call, b)) == call_parts(content),
        pick(content, |b: BlockView| kind_part(Kind::Result, b)) == result_messages(content),
{
    assert((|b: BlockView| kind_part(Kind::Image, b)) =~= (|b: BlockView| image_part(b)));
    assert((|b: BlockView| kind_part(Kind::Call, b)) =~= (|b: BlockView| call_part(b)));
    assert((|b: BlockView| kind_part(Kind::Result, b)) =~= (|b: BlockView| result_message(b)));
}

/// The blocks of a kind on the wire.
fn collect_kind(kind: Kind, m: &Message) -> (r: Vec<Json>)
    ensures
        views(r@) == (match kind {
            Kind::Image => image_parts(m@.content),
            Kind::Call => call_parts(m@.content),
            Kind::Result => result_messages(m@.content),
        }),
{
    let mut out: Vec<Json> = Vec::new();
    push_kind(&mut out, kind, m);
    proof {
        lemma_kinds(m@.content);
        assert(views(out@) =~= pick(m@.content, |b: BlockView| kind_part(kind, b)));
    }
    out
}

/// A message with the given role and content on the wire.
fn to_plain(role: &str, content: Json) -> (r: Json)
    ensures
        r@ == plain_message(role@, content@),
{
    let ghost c = content@;
    let es = vec![entry("role", Json::string(role)), entry("content", content)];
    assert(entry_views(es@) =~= seq![("role"@, JsonView::Str(role@)), ("content"@, c)]);
    Json::object(es)
}

/// A text content part on the wire.
fn to_text_part(text: &str) -> (r: Json)
    ensures
        r@ == text_part(text@),
{
    let es = vec![entry("type", Json::string("text")), entry("text", Json::string(text))];
    assert(entry_views(es@) =~= seq![
        ("type"@, JsonView::Str("text"@)),
        ("text"@, JsonView::Str(text@)),
    ]);
    Json::object(es)
}

/// A text part followed by images.
fn text_then_images(text: &str, images: Vec<Json>) -> (r: Json)
    ensures
        r@ == JsonView::Array(seq![text_part(text@)] + views(images@)),
{
    let ghost image_views = views(images@);
    let mut content: Vec<Json> = Vec::new();
    content.push(to_text_part(text));
    let mut images = images;
    content.append(&mut images);
    assert(views(content@) =~= seq![text_part(text@)] + image_views);
    Json::array(content)
}

/// A user message on the wire.
fn user_to_wire(m: &Message) -> (r: Json)
    ensures
        r@ == user_message(m@),
{
    let images = collect_kind(Kind::Image, m);
    let text = m.text_content();
    if images.len() == 0 {
        to_plain("user", Json::Str(text))
    } else if text.as_str().is_empty() {
        to_plain("user", Json::array(images))
    } else {
        to_plain("user", text_then_images(text.as_str(), images))
    }
}

/// An assistant message on the wire.
fn assistant_to_wire(m: &Message) -> (r: Json)
    ensures
        r@ == assistant_message(m@),
{
    let calls = collect_kind(Kind::Call, m);
    let text = m.text_content();
    let ghost text_view = text@;
    let ghost calls_view = views(calls@);
    let content = if text.as_str().is_empty() && calls.len() != 0 {
        Json::Null
    } else {
        Json::Str(text)
    };
    let ghost content_view = content@;
    let mut es = vec![entry("role", Json::string("assistant")), entry("content", content)];
    let ghost base = seq![("role"@, JsonView::Str("assistant"@)), ("content"@, content_view)];
    assert(entry_views(es@) =~= base);
    if calls.len() != 0 {
        es.push(entry("tool_calls", Json::array(calls)));
        assert(entry_views(es@) =~= base.push(("tool_calls"@, JsonView::Array(calls_view))));
    }
    Json::object(es)
}

/// A tool message on the wire.
fn tool_to_wire(m: &Message) -> (r: Vec<Json>)
    ensures
        views(r@) == tool_messages(m@),
{
    let mut out = collect_kind(Kind::Result, m);
    let images = collect_kind(Kind::Image, m);
    let ghost results_view = views(out@);
    if images.len() != 0 {
        let message = to_plain(
            "user",
            text_then_images("Screenshot from the tool result above:", images),
        );
        let ghost before = out@;
        let ghost mv = message;
        out.push(message);
        proof {
            lemma_views_push(before, mv);
        }
    } else if out.len() == 0 {
        out.push(to_plain("user", Json::Str(m.text_content())));
        assert(views(out@) =~= seq![plain_message("user"@, JsonView::Str(m@.text_content()))]);
    }
    out
}

/// A list with one value.
fn single(j: Json) -> (r: Vec<Json>)
    ensures
        views(r@) == seq![j@],
{
    let r = vec![j];
    assert(views(r@) =~= seq![j@]);
    r
}

/// A message on the wire.
fn message_to_wire(m: &Message) -> (r: Vec<Json>)
    ensures
        views(r@) == wire(m@),
{
    match m.role {
        MessageRole::System => single(to_plain("system", Json::Str(m.text_content()))),
        MessageRole::User => single(user_to_wire(m)),
        MessageRole::Assistant => single(assistant_to_wire(m)),
        MessageRole::Tool => tool_to_wire(m),
    }
}

/// The messages on the wire.
fn messages_to_wire(messages: &Vec<Message>) -> (r: Vec<Json>)
    ensures
        views(r@) == wire_all(views(messages@)),
{
    let mut out: Vec<Json> = Vec::new();
    let mut i: usize = 0;
    let ghost ms = views(messages@);
    let ghost f = |m: MessageView| wire(m);
    assert(ms.take(0) =~= Seq::empty());
    assert(views(out@) =~= flat(ms.take(0), f));
    while i < messages.len()
        invariant
            i <= messages.len(),
            ms == views(messages@),
            f == (|m: MessageView| wire(m)),
            views(out@) == flat(ms.take(i as int), f),
        decreases messages.len() - i,
    {
        let ghost before = views(out@);
        proof {
            lemma_flat_take(ms, f, i as int);
        }
        let mut more = message_to_wire(&messages[i]);
        let ghost more_view = views(more@);
        out.append(&mut more);
        assert(views(out@) =~= before + more_view);
        i += 1;
    }
    assert(ms.take(ms.len() as int) =~= ms);
    out
}

/// The tools on the wire.
fn tools_to_wire(tools: &Vec<ToolSpec>) -> (r: Vec<Json>)
    ensures
        views(r@) == Seq::new(tools@.len(), |i: int| wire_tool(views(tools@)[i])),
{
    let mut out: Vec<Json> = Vec::new();
    let mut i: usize = 0;
    while i < tools.len()
        invariant
            i <= tools.len(),
            out.len() == i,
            forall|j: int| 0 <= j < i ==> (#[trigger] out@[j])@ == wire_tool(tools@[j]@),
        decreases tools.len() - i,
    {
        let t = &tools[i];
        let inner = vec![
            entry("name", Json::string(t.id.as_str())),
            entry("description", Json::string(t.description.as_str())),
            entry("parameters", t.input_schema.clone()),
        ];
        assert(entry_views(inner@) =~= seq![
            ("name"@, JsonView::Str(t@.id)),
            ("description"@, JsonView::Str(t@.description)),
            ("parameters"@, t@.input_schema),
        ]);
        let function = Json::object(inner);
        let ghost function_view = function@;
        let es = vec![entry("type", Json::string("function")), entry("function", function)];
        assert(entry_views(es@) =~= seq![
            ("type"@, JsonView::Str("function"@)),
            ("function"@, function_view),
        ]);
        out.push(Json::object(es));
        i += 1;
    }
    assert(views(out@) =~= Seq::new(tools@.len(), |i: int| wire_tool(views(tools@)[i])));
    out
}

/// The chat-completions request body for a request.
///
/// Assistant tool calls become `tool_calls`; each tool result becomes a message
/// of its own. Reasoning is only hinted at on turns without tools.
pub fn request_body(model: &str, req: &InferenceRequest) -> (r: Json)
    ensures
        r@ == body_spec(model@, req@),
{
    let messages = messages_to_wire(&req.messages);
    let mut es = vec![
        entry("model", Json::string(model)),
        entry("messages", Json::array(messages)),
        entry("stream", Json::Bool(true)),
    ];
    assert(entry_views(es@) =~= base_entries(model@, req@));
    match req.max_tokens {
        Some(n) => {
            es.push(entry("max_tokens", Json::natural(n as u64)));
        },
        None => {},
    }
    assert(entry_views(es@) =~= base_entries(model@, req@) + limit_entries(req@));
    match &req.temperature {
        Some(n) => {
            es.push(entry("temperature", Json::Number(n.clone())));
        },
        None => {},
    }
    assert(entry_views(es@) =~= base_entries(model@, req@) + limit_entries(req@)
        + temperature_entries(req@));
    match &req.tools {
        Some(tools) => {
            es.push(entry("tools", Json::array(tools_to_wire(tools))));
        },
        None => match &req.thinking {
            Some(t) => {
                es.push(entry("reasoning_effort", Json::string(t.reasoning_effort())));
            },
            None => {},
        },
    }
    assert(entry_views(es@) =~= body_entries(model@, req@));
    Json::object(es)
}

/// Why a choice ended, from the format's finish reason.
pub open spec fn finish_reason_spec(reason: Seq<char>) -> FinishReason {
    if reason == "length"@ {
        FinishReason::MaxTokens
    } else if reason == "tool_calls"@ {
        FinishReason::ToolCall
    } else if reason == "content_filter"@ {
        FinishReason::Error
    } else {
        FinishReason::Stop
    }
}

/// Why a choice ended, from the format's finish reason.
pub fn map_finish_reason(reason: &str) -> (r: FinishReason)
    ensures
        r == finish_reason_spec(reason@),
{
    if str_eq(reason, "length") {
        FinishReason::MaxTokens
    } else if str_eq(reason, "tool_calls") {
        FinishReason::ToolCall
    } else if str_eq(reason, "content_filter") {
        FinishReason::Error
    } else {
        FinishReason::Stop
    }
}

/// Identity of a streamed tool call; the identifier and the name arrive only on
/// its first delta.
struct ToolCallIdentity {
    call_id: String,
    tool_id: String,
}

impl View for ToolCallIdentity {
    type V = (Seq<char>, Seq<char>);

    closed spec fn view(&self) -> (Seq<char>, Seq<char>) {
        (self.call_id@, self.tool_id@)
    }
}

/// Stateful parser for OpenAI-compatible stream payloads.
pub struct OpenAiSseParser {
    mode: ComputeMode,
    done: bool,
    finish_emitted: bool,
    tool_calls: HashMap<u64, ToolCallIdentity>,
}

/// What a parser has learnt of a stream: whether it is over, whether a finish
/// chunk has been sent, and the call and the tool of each call by its index.
pub struct ParserView {
    pub mode: ComputeMode,
    pub done: bool,
    pub finish_emitted: bool,
    pub tool_calls: Map<u64, (Seq<char>, Seq<char>)>,
}

impl View for OpenAiSseParser {
    type V = ParserView;

    closed spec fn view(&self) -> ParserView {
        ParserView {
            mode: self.mode,
            done: self.done,
            finish_emitted: self.finish_emitted,
            tool_calls: self.tool_calls@.map_values(|b: ToolCallIdentity| b@),
        }
    }
}

/// The index of a call in a delta; zero where it is missing.
pub open spec fn call_index(call: JsonView) -> u64 {
    match call.at("index"@).natural() {
        Some(n) => n,
        None => 0,
    }
}

/// The identity of a call after a delta: what the delta gives, or what is known,
/// or an identifier made of the index.
pub open spec fn call_identity(
    known: Map<u64, (Seq<char>, Seq<char>)>,
    call: JsonView,
) -> (Seq<char>, Seq<char>) {
    let index = call_index(call);
    let base = if known.dom().contains(index) {
        known[index]
    } else {
        ("call_"@ + decimal(index as nat), Seq::empty())
    };
    (
        match call.at("id"@).text() {
            Some(id) => id,
            None => base.0,
        },
        match call.at("function"@).at("name"@).text() {
            Some(name) => name,
            None => base.1,
        },
    )
}

/// The known identities after a list of call deltas.
pub open spec fn known_after(
    known: Map<u64, (Seq<char>, Seq<char>)>,
    calls: Seq<JsonView>,
) -> Map<u64, (Seq<char>, Seq<char>)>
    decreases calls.len(),
{
    if calls.len() == 0 {
        known
    } else {
        let before = known_after(known, calls.drop_last());
        before.insert(call_index(calls.last()), call_identity(before, calls.last()))
    }
}

/// The chunks for a list of call deltas.
pub open spec fn call_items(
    known: Map<u64, (Seq<char>, Seq<char>)>,
    mode: ComputeMode,
    calls: Seq<JsonView>,
) -> Seq<Item>
    decreases calls.len(),
{
    if calls.len() == 0 {
        Seq::empty()
    } else {
        let identity = call_identity(known_after(known, calls.drop_last()), calls.last());
        call_items(known, mode, calls.drop_last()).push(
            Ok(
                ChunkView::tool_call(
                    ToolCallDeltaView {
                        call_id: identity.0,
                        tool_id: identity.1,
                        args_delta: calls.last().at("function"@).at(
                            "arguments"@,
                        ).text_or_empty(),
                    },
                    mode,
                ),
            ),
        )
    }
}

/// The text chunk of a delta, where it has text.
pub open spec fn text_items(delta: JsonView, mode: ComputeMode) -> Seq<Item> {
    let text = delta.at("content"@).text_or_empty();
    if text.len() == 0 {
        Seq::empty()
    } else {
        seq![Ok(ChunkView::text(text, mode))]
    }
}

/// The finish chunk of a choice, where it has ended.
pub open spec fn finish_items(choice: JsonView, mode: ComputeMode) -> Seq<Item> {
    match choice.at("finish_reason"@).text() {
        Some(reason) => seq![Ok(ChunkView::finish(finish_reason_spec(reason), mode))],
        None => Seq::empty(),
    }
}

/// The call deltas of a payload.
pub open spec fn payload_calls(value: JsonView) -> Seq<JsonView> {
    match value.at("choices"@).item(0).at("delta"@).at("tool_calls"@).elements() {
        Some(calls) => calls,
        None => Seq::empty(),
    }
}

/// The parser after a payload and the items it yields, given the parsed payload.
pub open spec fn step(p: ParserView, value: JsonView) -> (ParserView, Seq<Item>) {
    if p.done {
        (p, Seq::empty())
    } else {
        let choice = value.at("choices"@).item(0);
        let calls = payload_calls(value);
        (
            ParserView {
                tool_calls: known_after(p.tool_calls, calls),
                finish_emitted: p.finish_emitted || choice.at("finish_reason"@).text() is Some,
                ..p
            },
            text_items(choice.at("delta"@), p.mode) + call_items(p.tool_calls, p.mode, calls)
                + finish_items(choice, p.mode),
        )
    }
}

/// The parser after a payload and the items it yields. Blank payloads count for
/// nothing; the end marker yields a finish chunk unless one has been sent.
pub open spec fn handle_spec(p: ParserView, data: Seq<char>) -> (ParserView, Seq<Item>) {
    if p.done || trim(data).len() == 0 {
        (p, Seq::empty())
    } else if trim(data) == "[DONE]"@ {
        (
            ParserView { done: true, finish_emitted: true, ..p },
            if p.finish_emitted {
                Seq::empty()
            } else {
                seq![Ok(ChunkView::finish(FinishReason::Stop, p.mode))]
            },
        )
    } else {
        match json_parsed(trim(data)) {
            Ok(value) => step(p, value),
            Err(message) => (p, seq![Err(malformed(message))]),
        }
    }
}

impl OpenAiSseParser {
    /// A parser at the start of a stream.
    pub fn new(mode: ComputeMode) -> (r: OpenAiSseParser)
        ensures
            r@ == (ParserView {
                mode,
                done: false,
                finish_emitted: false,
                tool_calls: Map::empty(),
            }),
    {
        let r = OpenAiSseParser {
            mode,
            done: false,
            finish_emitted: false,
            tool_calls: HashMap::new(),
        };
        assert(r@.tool_calls =~= Map::empty());
        r
    }

    /// Whether the stream has reached its end marker.
    pub fn is_done(&self) -> (r: bool)
        ensures
            r == self@.done,
    {
        self.done
    }

    /// Reads one payload into chunks.
    pub fn handle_data(&mut self, data: &str) -> (r: Vec<Result<InferenceChunk, ContractError>>)
        ensures
            (final(self)@, outcomes(r@)) == handle_spec(old(self)@, data@),
    {
        if self.done {
            return nothing();
        }
        let trimmed = trim_text(data);
        if trimmed.as_str().is_empty() {
            return nothing();
        }
        if str_eq(trimmed.as_str(), "[DONE]") {
            self.done = true;
            if !self.finish_emitted {
                self.finish_emitted = true;
                return one(Ok(InferenceChunk::finish(FinishReason::Stop, self.mode)));
            }
            return nothing();
        }
        match Json::parse(trimmed.as_str()) {
            Ok(value) => self.handle_value(&value),
            Err(message) => one(Err(malformed_error(message.as_str()))),
        }
    }

    /// Notes what a call delta says of the call and yields its chunk.
    fn handle_call(&mut self, call: &Json) -> (r: InferenceChunk)
        ensures
            final(self)@ == (ParserView {
                tool_calls: old(self)@.tool_calls.insert(
                    call_index(call@),
                    call_identity(old(self)@.tool_calls, call@),
                ),
                ..old(self)@
            }),
            r@ == ChunkView::tool_call(
                ToolCallDeltaView {
                    call_id: call_identity(old(self)@.tool_calls, call@).0,
                    tool_id: call_identity(old(self)@.tool_calls, call@).1,
                    args_delta: call@.at("function"@).at("arguments"@).text_or_empty(),
                },
                old(self)@.mode,
            ),
    {
        let index: u64 = match call.at("index").as_u64() {
            Some(n) => n,
            None => 0,
        };
        let (mut call_id, mut tool_id) = match self.tool_calls.get(&index) {
            Some(known) => (known.call_id.clone(), known.tool_id.clone()),
            None => ("call_".to_owned().concat(u64_text(index).as_str()), String::new()),
        };
        match call.at("id").as_str() {
            Some(id) => {
                call_id = id.clone();
            },
            None => {},
        }
        let function = call.at("function");
        match function.at("name").as_str() {
            Some(name) => {
                tool_id = name.clone();
            },
            None => {},
        }
        let args_delta = function.at("arguments").str_or_empty();
        self.tool_calls.insert(
            index,
            ToolCallIdentity { call_id: call_id.clone(), tool_id: tool_id.clone() },
        );
        assert(self@.tool_calls =~= old(self)@.tool_calls.insert(
            call_index(call@),
            call_identity(old(self)@.tool_calls, call@),
        ));
        InferenceChunk::tool_call(ToolCallDelta { call_id, tool_id, args_delta }, self.mode)
    }

    /// Reads one payload, already parsed, into chunks.
    pub fn handle_value(&mut self, value: &Json) -> (r: Vec<Result<InferenceChunk, ContractError>>)
        ensures
            (final(self)@, outcomes(r@)) == step(old(self)@, value@),
    {
        if self.done {
            return nothing();
        }
        let ghost start = self@;
        let choice = value.at("choices").item(0);
        let delta = choice.at("delta");
        let mut out = nothing();

        let text = delta.at("content").str_or_empty();
        if !text.as_str().is_empty() {
            out = one(Ok(InferenceChunk::text(text.as_str(), self.mode)));
        }
        let ghost before_calls = outcomes(out@);
        assert(before_calls =~= text_items(delta@, start.mode));

        match delta.at("tool_calls").as_array() {
            Some(calls) => {
                let ghost cs = views(calls@);
                let mut i: usize = 0;
                assert(cs.take(0) =~= Seq::empty());
                assert(outcomes(out@) =~= before_calls + call_items(
                    start.tool_calls,
                    start.mode,
                    cs.take(0),
                ));
                while i < calls.len()
                    invariant
                        i <= calls.len(),
                        cs == views(calls@),
                        self@ == (ParserView {
                            tool_calls: known_after(start.tool_calls, cs.take(i as int)),
                            ..start
                        }),
                        outcomes(out@) == before_calls + call_items(
                            start.tool_calls,
                            start.mode,
                            cs.take(i as int),
                        ),
                    decreases calls.len() - i,
                {
                    let ghost before = out@;
                    assert(cs.take(i + 1).drop_last() =~= cs.take(i as int));
                    assert(cs.take(i + 1).last() == calls@[i as int]@);
                    let chunk = self.handle_call(&calls[i]);
                    let ghost cv = chunk@;
                    out.push(Ok(chunk));
                    assert(outcomes(out@) =~= outcomes(before).push(Ok(cv)));
                    assert(outcomes(out@) =~= before_calls + call_items(
                        start.tool_calls,
                        start.mode,
                        cs.take(i + 1),
                    ));
                    i += 1;
                }
                assert(cs.take(cs.len() as int) =~= cs);
            },
            None => {},
        }
        assert(outcomes(out@) =~= before_calls + call_items(
            start.tool_calls,
            start.mode,
            payload_calls(value@),
        ));

        match choice.at("finish_reason").as_str() {
            Some(reason) => {
                self.finish_emitted = true;
                let ghost before = out@;
                let chunk = InferenceChunk::finish(map_finish_reason(reason.as_str()), self.mode);
                let ghost cv = chunk@;
                out.push(Ok(chunk));
                assert(outcomes(out@) =~= outcomes(before).push(Ok(cv)));
            },
            None => {},
        }
        assert(outcomes(out@) =~= step(start, value@).1);
        out
    }
}

impl SseChunkParser for OpenAiSseParser {
    open spec fn mode_spec(&self) -> ComputeMode {
        self@.mode
    }

    open spec fn done_spec(&self) -> bool {
        self@.done
    }

    open spec fn step_to(
        &self,
        post: Self,
        event_type: Seq<char>,
        data: Seq<char>,
        items: Seq<Item>,
    ) -> bool {
        (post@, items) == handle_spec(self@, data)
    }

    fn mode(&self) -> ComputeMode {
        self.mode
    }

    fn done(&self) -> bool {
        self.done
    }

    fn handle_event(&mut self, _event_type: &str, data: &str) -> Vec<
        Result<InferenceChunk, ContractError>,
    > {
        proof {
            law_chunks_carry_the_mode(self@, data@);
        }
        self.handle_data(data)
    }
}

/// The chunks of call deltas carry the mode and none of them finishes.
proof fn lemma_call_items(
    known: Map<u64, (Seq<char>, Seq<char>)>,
    mode: ComputeMode,
    calls: Seq<JsonView>,
)
    ensures
        call_items(known, mode, calls).len() == calls.len(),
        forall|i: int|
            0 <= i < calls.len() ==> (#[trigger] call_items(known, mode, calls)[i] matches Ok(c)
                && c.active_mode == mode && c.finish_reason is None),
    decreases calls.len(),
{
    if calls.len() > 0 {
        lemma_call_items(known, mode, calls.drop_last());
    }
}

/// Every chunk carries the parser's mode.
pub proof fn law_chunks_carry_the_mode(p: ParserView, data: Seq<char>)
    ensures
        all_carry(handle_spec(p, data).1, p.mode),
        handle_spec(p, data).0.mode == p.mode,
{
    if json_parsed(trim(data)) is Ok {
        let value = json_parsed(trim(data))->Ok_0;
        lemma_call_items(p.tool_calls, p.mode, payload_calls(value));
        let choice = value.at("choices"@).item(0);
        let a = text_items(choice.at("delta"@), p.mode);
        let b = call_items(p.tool_calls, p.mode, payload_calls(value));
        let c = finish_items(choice, p.mode);
        assert forall|i: int| #![trigger (a + b + c)[i]] 0 <= i < (a + b + c).len() implies ((a + b
            + c)[i] matches Ok(k) ==> k.active_mode == p.mode) by {
            if a.len() <= i < a.len() + b.len() {
                assert((a + b + c)[i] == b[i - a.len()]);
            }
        }
    }
}

/// A parser that is done stays as it is and yields nothing.
pub proof fn law_done_is_final(p: ParserView, data: Seq<char>)
    requires
        p.done,
    ensures
        handle_spec(p, data) == (p, Seq::<Item>::empty()),
{
}

/// What is known of a call is kept by later deltas that do not rename it.
pub proof fn law_identity_persists(
    known: Map<u64, (Seq<char>, Seq<char>)>,
    call: JsonView,
)
    requires
        known.dom().contains(call_index(call)),
        call.at("id"@).text() is None,
        call.at("function"@).at("name"@).text() is None,
    ensures
        call_identity(known, call) == known[call_index(call)],
{
}

/// Every stream that reaches its end marker has sent a finish chunk by then.
pub proof fn law_end_marker_means_finished(p: ParserView, data: Seq<char>)
    requires
        p.done ==> p.finish_emitted,
    ensures
        handle_spec(p, data).0.done ==> handle_spec(p, data).0.finish_emitted,
{
}

/// The reasoning effort is never sent along with tools.
pub proof fn law_no_effort_with_tools(model: Seq<char>, req: RequestView)
    requires
        req.tools is Some,
    ensures
        body_spec(model, req).at("reasoning_effort"@) == JsonView::Null,
{
    let es = body_entries(model, req);
    reveal_strlit("model");
    reveal_strlit("messages");
    reveal_strlit("stream");
    reveal_strlit("max_tokens");
    reveal_strlit("temperature");
    reveal_strlit("tools");
    reveal_strlit("reasoning_effort");
    let key = "reasoning_effort"@;
    assert(key.len() == 16);
    assert("model"@.len() == 5 && "messages"@.len() == 8 && "stream"@.len() == 6);
    assert("max_tokens"@.len() == 10 && "temperature"@.len() == 11 && "tools"@.len() == 5);
    assert forall|j: int| 0 <= j < es.len() implies es[j].0 != key by {}
    lemma_entries_map_absent(es, "reasoning_effort"@);
}

} // verus!
