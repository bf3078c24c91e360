//! The home server: an OpenAI-compatible interface to the inference router.

use crate::contracts::compute::{ChunkView, InferenceChunk, InferenceRequest, RequestView};
use crate::contracts::data::{
    concat_all, law_plain_message_holds_its_text, Message, MessageRole, MessageView,
};
use crate::contracts::error::{ContractError, ContractErrorView};
use crate::contracts::types::ComputeMode;
use crate::ident::{is_v4, Uuid};
use crate::json::{
    entry, entry_views, lemma_obj_at, lemma_obj_of_four, lemma_obj_of_three, lemma_obj_of_two,
    natural_number, obj, Json, JsonView,
};
use crate::model::{lemma_pick_take, outcomes, pick, views};
use crate::text::str_eq;
use vstd::prelude::*;

verus! {

/// A message of a chat request.
#[derive(Debug)]
pub struct ChatMessage {
    pub role: String,
    pub content: String,
}

/// [`ChatMessage`] as a mathematical value.
pub struct ChatMessageView {
    pub role: Seq<char>,
    pub content: Seq<char>,
}

impl View for ChatMessage {
    type V = ChatMessageView;

    open spec fn view(&self) -> ChatMessageView {
        ChatMessageView { role: self.role@, content: self.content@ }
    }
}

/// A chat request.
#[derive(Debug)]
pub struct ChatRequest {
    pub messages: Vec<ChatMessage>,
    pub stream: bool,
    pub temperature: Option<serde_json::Number>,
    pub max_tokens: Option<u32>,
}

/// The role that a name stands for: the user's, where it is not known.
pub open spec fn role_named(name: Seq<char>) -> MessageRole {
    if name == "assistant"@ {
        MessageRole::Assistant
    } else if name == "system"@ {
        MessageRole::System
    } else if name == "tool"@ {
        MessageRole::Tool
    } else {
        MessageRole::User
    }
}

/// The role that a name stands for: the user's, where it is not known.
pub fn role_of(name: &str) -> (r: MessageRole)
    ensures
        r == role_named(name@),
{
    if str_eq(name, "assistant") {
        MessageRole::Assistant
    } else if str_eq(name, "system") {
        MessageRole::System
    } else if str_eq(name, "tool") {
        MessageRole::Tool
    } else {
        MessageRole::User
    }
}

/// Whether a message is that of a chat request at a place, under a fresh
/// identifier and at a time of the clock.
pub open spec fn is_message_of(m: MessageView, c: ChatMessageView, i: int) -> bool {
    is_v4(m.id.0) && m.created_at.of_clock() && m == MessageView::plain(
        m.id,
        m.created_at,
        Uuid(0),
        role_named(c.role),
        c.content,
        ComputeMode::OnDevice,
        i as i64,
    )
}

/// The inference request of a chat request.
pub fn to_request(req: &ChatRequest) -> (r: InferenceRequest)
    requires
        req.messages@.len() <= i64::MAX,
    ensures
        r@ == (RequestView {
            temperature: req.temperature,
            max_tokens: req.max_tokens,
            ..RequestView::minimal(r@.request_id, r@.messages)
        }),
        is_v4(r@.request_id.0),
        r@.messages.len() == req.messages@.len(),
        forall|i: int|
            0 <= i < r@.messages.len() ==> is_message_of(
                #[trigger] r@.messages[i],
                req.messages@[i]@,
                i,
            ),
{
    let mut messages: Vec<Message> = Vec::new();
    let mut i: usize = 0;
    while i < req.messages.len()
        invariant
            i <= req.messages.len(),
            req.messages@.len() <= i64::MAX,
            messages.len() == i,
            forall|j: int|
                0 <= j < i ==> is_message_of(#[trigger] messages@[j]@, req.messages@[j]@, j),
        decreases req.messages.len() - i,
    {
        let m = &req.messages[i];
        messages.push(
            Message::text(
                Uuid(0),
                role_of(m.role.as_str()),
                m.content.as_str(),
                ComputeMode::OnDevice,
                i as i64,
            ),
        );
        i += 1;
    }
    let ghost all = views(messages@);
    let mut ir = InferenceRequest::from_messages(messages);
    assert(ir@.messages == all);
    ir.temperature = match &req.temperature {
        Some(n) => Some(n.clone()),
        None => None,
    };
    ir.max_tokens = req.max_tokens;
    ir
}

/// The answer that lists the one model.
pub open spec fn models_json(model: Seq<char>, context_window: u32) -> JsonView {
    obj(
        seq![
            ("object"@, JsonView::Str("list"@)),
            (
                "data"@,
                JsonView::Array(
                    seq![
                        obj(
                            seq![
                                ("id"@, JsonView::Str(model)),
                                ("object"@, JsonView::Str("model"@)),
                                ("owned_by"@, JsonView::Str("mahi"@)),
                                (
                                    "context_window"@,
                                    JsonView::Number(natural_number(context_window as u64)),
                                ),
                            ],
                        ),
                    ],
                ),
            ),
        ],
    )
}

/// The answer that lists the one model.
pub fn models_body(model: &str, context_window: u32) -> (r: Json)
    ensures
        r@ == models_json(model@, context_window),
{
    let fields = vec![
        entry("id", Json::string(model)),
        entry("object", Json::string("model")),
        entry("owned_by", Json::string("mahi")),
        entry("context_window", Json::natural(context_window as u64)),
    ];
    assert(entry_views(fields@) =~= seq![
        ("id"@, JsonView::Str(model@)),
        ("object"@, JsonView::Str("model"@)),
        ("owned_by"@, JsonView::Str("mahi"@)),
        ("context_window"@, JsonView::Number(natural_number(context_window as u64))),
    ]);
    let items = vec![Json::object(fields)];
    assert(views(items@) =~= seq![items@[0]@]);
    let top = vec![entry("object", Json::string("list")), entry("data", Json::array(items))];
    assert(entry_views(top@) =~= seq![
        ("object"@, JsonView::Str("list"@)),
        ("data"@, top@[1].1@),
    ]);
    Json::object(top)
}

/// The answer to a request that failed.
pub open spec fn error_json(message: Seq<char>) -> JsonView {
    obj(seq![("error"@, JsonView::Str(message))])
}

/// The answer to a request that failed.
pub fn error_body(e: &ContractError) -> (r: Json)
    ensures
        r@ == error_json(e@.message()),
{
    let fields = vec![entry("error", Json::Str(e.to_text()))];
    assert(entry_views(fields@) =~= seq![("error"@, JsonView::Str(e@.message()))]);
    Json::object(fields)
}

/// An event of a streamed answer.
pub open spec fn chunk_json(model: Seq<char>, content: Seq<char>) -> JsonView {
    obj(
        seq![
            ("object"@, JsonView::Str("chat.completion.chunk"@)),
            ("model"@, JsonView::Str(model)),
            (
                "choices"@,
                JsonView::Array(
                    seq![
                        obj(
                            seq![
                                ("index"@, JsonView::Number(natural_number(0))),
                                ("delta"@, obj(seq![("content"@, JsonView::Str(content))])),
                                ("finish_reason"@, JsonView::Null),
                            ],
                        ),
                    ],
                ),
            ),
        ],
    )
}

/// An event of a streamed answer.
pub fn chunk_body(model: &str, content: &str) -> (r: Json)
    ensures
        r@ == chunk_json(model@, content@),
{
    let inner = vec![entry("content", Json::string(content))];
    assert(entry_views(inner@) =~= seq![("content"@, JsonView::Str(content@))]);
    let fields = vec![
        entry("index", Json::natural(0)),
        entry("delta", Json::object(inner)),
        entry("finish_reason", Json::Null),
    ];
    assert(entry_views(fields@) =~= seq![
        ("index"@, JsonView::Number(natural_number(0))),
        ("delta"@, fields@[1].1@),
        ("finish_reason"@, JsonView::Null),
    ]);
    let choices = vec![Json::object(fields)];
    assert(views(choices@) =~= seq![choices@[0]@]);
    let top = vec![
        entry("object", Json::string("chat.completion.chunk")),
        entry("model", Json::string(model)),
        entry("choices", Json::array(choices)),
    ];
    assert(entry_views(top@) =~= seq![
        ("object"@, JsonView::Str("chat.completion.chunk"@)),
        ("model"@, JsonView::Str(model@)),
        ("choices"@, top@[2].1@),
    ]);
    Json::object(top)
}

/// The whole answer.
pub open spec fn completion_json(model: Seq<char>, content: Seq<char>) -> JsonView {
    obj(
        seq![
            ("object"@, JsonView::Str("chat.completion"@)),
            ("model"@, JsonView::Str(model)),
            (
                "choices"@,
                JsonView::Array(
                    seq![
                        obj(
                            seq![
                                ("index"@, JsonView::Number(natural_number(0))),
                                (
                                    "message"@,
                                    obj(
                                        seq![
                                            ("role"@, JsonView::Str("assistant"@)),
                                            ("content"@, JsonView::Str(content)),
                                        ],
                                    ),
                                ),
                                ("finish_reason"@, JsonView::Str("stop"@)),
                            ],
                        ),
                    ],
                ),
            ),
        ],
    )
}

/// The whole answer.
pub fn completion_body(model: &str, content: &str) -> (r: Json)
    ensures
        r@ == completion_json(model@, content@),
{
    let inner = vec![
        entry("role", Json::string("assistant")),
        entry("content", Json::string(content)),
    ];
    assert(entry_views(inner@) =~= seq![
        ("role"@, JsonView::Str("assistant"@)),
        ("content"@, JsonView::Str(content@)),
    ]);
    let fields = vec![
        entry("index", Json::natural(0)),
        entry("message", Json::object(inner)),
        entry("finish_reason", Json::string("stop")),
    ];
    assert(entry_views(fields@) =~= seq![
        ("index"@, JsonView::Number(natural_number(0))),
        ("message"@, fields@[1].1@),
        ("finish_reason"@, JsonView::Str("stop"@)),
    ]);
    let choices = vec![Json::object(fields)];
    assert(views(choices@) =~= seq![choices@[0]@]);
    let top = vec![
        entry("object", Json::string("chat.completion")),
        entry("model", Json::string(model)),
        entry("choices", Json::array(choices)),
    ];
    assert(entry_views(top@) =~= seq![
        ("object"@, JsonView::Str("chat.completion"@)),
        ("model"@, JsonView::Str(model@)),
        ("choices"@, top@[2].1@),
    ]);
    Json::object(top)
}

/// What ends a streamed answer.
pub const STREAM_END: &'static str = "[DONE]";

/// The text that an item of the stream adds; errors add none.
pub open spec fn item_text(item: Result<ChunkView, ContractErrorView>) -> Option<Seq<char>> {
    match item {
        Ok(c) => c.delta,
        Err(_) => None,
    }
}

/// The event for an item of the stream; none where it adds no text.
pub fn stream_event(model: &str, item: &Result<InferenceChunk, ContractError>) -> (r: Option<Json>)
    ensures
        crate::model::opt(r) == (match item_text(crate::model::outcome(*item)) {
            Some(content) => Some(chunk_json(model@, content)),
            None => None,
        }),
{
    match item {
        Ok(chunk) => match &chunk.delta {
            Some(content) => Some(chunk_body(model, content.as_str())),
            None => None,
        },
        Err(_) => None,
    }
}

/// The text of a whole stream.
pub fn collect_content(items: &Vec<Result<InferenceChunk, ContractError>>) -> (r: String)
    ensures
        r@ == concat_all(
            pick(outcomes(items@), |c: Result<ChunkView, ContractErrorView>| item_text(c)),
        ),
{
    let ghost all = outcomes(items@);
    let ghost f = |c: Result<ChunkView, ContractErrorView>| item_text(c);
    let mut content = String::new();
    let mut i: usize = 0;
    assert(all.take(0) =~= Seq::empty());
    while i < items.len()
        invariant
            i <= items.len(),
            all == outcomes(items@),
            f == (|c: Result<ChunkView, ContractErrorView>| item_text(c)),
            content@ == concat_all(pick(all.take(i as int), f)),
        decreases items.len() - i,
    {
        proof {
            lemma_pick_take(all, f, i as int);
            let before = pick(all.take(i as int), f);
            if let Some(part) = item_text(all[i as int]) {
                assert(before.push(part).drop_last() =~= before);
            }
        }
        match &items[i] {
            Ok(chunk) => match &chunk.delta {
                Some(part) => {
                    content.append(part.as_str());
                },
                None => {},
            },
            Err(_) => {},
        }
        i += 1;
    }
    assert(all.take(all.len() as int) =~= all);
    content
}

/// The whole answer to a chat request carries the model's name and the whole text, as the
/// assistant's message.
pub proof fn law_answer_carries_the_text(model: Seq<char>, content: Seq<char>)
    ensures
        ({
            let whole = completion_json(model, content);
            let choice = whole.at("choices"@).item(0);
            &&& whole.at("object"@) == JsonView::Str("chat.completion"@)
            &&& whole.at("model"@) == JsonView::Str(model)
            &&& choice.at("message"@).at("role"@) == JsonView::Str("assistant"@)
            &&& choice.at("message"@).at("content"@) == JsonView::Str(content)
            &&& choice.at("finish_reason"@) == JsonView::Str("stop"@)
        }),
{
    lemma_answer_keys();
    let role = ("role"@, JsonView::Str("assistant"@));
    let text = ("content"@, JsonView::Str(content));
    lemma_obj_of_two(role, text);
    let index = ("index"@, JsonView::Number(natural_number(0)));
    let message = ("message"@, obj(seq![role, text]));
    let reason = ("finish_reason"@, JsonView::Str("stop"@));
    lemma_obj_of_three(index, message, reason);
    lemma_obj_of_three(
        ("object"@, JsonView::Str("chat.completion"@)),
        ("model"@, JsonView::Str(model)),
        ("choices"@, JsonView::Array(seq![obj(seq![index, message, reason])])),
    );
}

/// An event of a streamed answer carries the model's name and the piece of text.
pub proof fn law_streamed_event_carries_the_piece(model: Seq<char>, content: Seq<char>)
    ensures
        ({
            let event = chunk_json(model, content);
            let choice = event.at("choices"@).item(0);
            &&& event.at("object"@) == JsonView::Str("chat.completion.chunk"@)
            &&& event.at("model"@) == JsonView::Str(model)
            &&& choice.at("delta"@).at("content"@) == JsonView::Str(content)
            &&& choice.at("finish_reason"@) == JsonView::Null
        }),
{
    lemma_answer_keys();
    let text = ("content"@, JsonView::Str(content));
    lemma_obj_at(seq![text], 0);
    let index = ("index"@, JsonView::Number(natural_number(0)));
    let delta = ("delta"@, obj(seq![text]));
    let reason = ("finish_reason"@, JsonView::Null);
    lemma_obj_of_three(index, delta, reason);
    lemma_obj_of_three(
        ("object"@, JsonView::Str("chat.completion.chunk"@)),
        ("model"@, JsonView::Str(model)),
        ("choices"@, JsonView::Array(seq![obj(seq![index, delta, reason])])),
    );
}

/// The keys of the answers are different texts.
proof fn lemma_answer_keys()
    ensures
        "role"@.len() == 4 && "content"@.len() == 7 && "index"@.len() == 5,
        "message"@.len() == 7 && "finish_reason"@.len() == 13 && "delta"@.len() == 5,
        "index"@[0] == 'i' && "delta"@[0] == 'd',
        "object"@.len() == 6 && "model"@.len() == 5 && "choices"@.len() == 7,
        "data"@.len() == 4 && "id"@.len() == 2 && "owned_by"@.len() == 8,
        "context_window"@.len() == 14,
{
    reveal_strlit("role");
    reveal_strlit("content");
    reveal_strlit("index");
    reveal_strlit("message");
    reveal_strlit("finish_reason");
    reveal_strlit("delta");
    reveal_strlit("object");
    reveal_strlit("model");
    reveal_strlit("choices");
    reveal_strlit("data");
    reveal_strlit("id");
    reveal_strlit("owned_by");
    reveal_strlit("context_window");
}

/// The list of models names the one model and its window.
pub proof fn law_model_is_listed(model: Seq<char>, context_window: u32)
    ensures
        ({
            let list = models_json(model, context_window);
            &&& list.at("object"@) == JsonView::Str("list"@)
            &&& list.at("data"@) matches JsonView::Array(models) && models.len() == 1
                && models[0].at("id"@) == JsonView::Str(model) && models[0].at("object"@)
                == JsonView::Str("model"@) && models[0].at("context_window"@) == JsonView::Number(
                natural_number(context_window as u64),
            )
        }),
{
    lemma_answer_keys();
    let id = ("id"@, JsonView::Str(model));
    let object = ("object"@, JsonView::Str("model"@));
    let owner = ("owned_by"@, JsonView::Str("mahi"@));
    let window = ("context_window"@, JsonView::Number(natural_number(context_window as u64)));
    lemma_obj_of_four(id, object, owner, window);
    lemma_obj_of_two(
        ("object"@, JsonView::Str("list"@)),
        ("data"@, JsonView::Array(seq![obj(seq![id, object, owner, window])])),
    );
}

/// A request that failed is answered with the error's own words.
pub proof fn law_error_is_answered_in_its_words(message: Seq<char>)
    ensures
        error_json(message).at("error"@) == JsonView::Str(message),
{
    lemma_obj_at(seq![("error"@, JsonView::Str(message))], 0);
}

/// The whole answer is made of all pieces of text that the model streamed, in order;
/// errors and chunks without text add nothing.
pub proof fn law_whole_answer_is_all_that_was_streamed(
    items: Seq<Result<ChunkView, ContractErrorView>>,
    item: Result<ChunkView, ContractErrorView>,
)
    ensures
        ({
            let f = |c: Result<ChunkView, ContractErrorView>| item_text(c);
            let piece = match item {
                Ok(c) => match c.delta {
                    Some(text) => text,
                    None => Seq::empty(),
                },
                Err(_) => Seq::empty(),
            };
            concat_all(pick(items.push(item), f)) == concat_all(pick(items, f)) + piece
        }),
{
    let f = |c: Result<ChunkView, ContractErrorView>| item_text(c);
    let before = pick(items, f);
    assert(items.push(item).drop_last() =~= items);
    match item {
        Ok(c) => match c.delta {
            Some(text) => {
                assert(before.push(text).drop_last() =~= before);
            },
            None => {
                assert(concat_all(before) + Seq::<char>::empty() =~= concat_all(before));
            },
        },
        Err(_) => {
            assert(concat_all(before) + Seq::<char>::empty() =~= concat_all(before));
        },
    }
}

/// Every role is known by the name under which the transcript shows it, and any other name
/// is the user's.
pub proof fn law_roles_are_read_back(role: MessageRole, name: Seq<char>)
    ensures
        role_named(crate::ffi::handle::role_text(role)) == role,
        role_named(name) == MessageRole::User || name == crate::ffi::handle::role_text(
            role_named(name),
        ),
{
    reveal_strlit("user");
    reveal_strlit("assistant");
    reveal_strlit("tool");
    reveal_strlit("system");
    assert("user"@.len() == 4 && "tool"@.len() == 4 && "user"@[0] == 'u' && "tool"@[0] == 't');
    assert("assistant"@.len() == 9 && "system"@.len() == 6);
}

/// A message of a chat request keeps its whole text, its place and its role.
pub proof fn law_chat_message_is_kept(m: MessageView, c: ChatMessageView, i: int)
    requires
        is_message_of(m, c, i),
        0 <= i <= i64::MAX,
    ensures
        m.text_content() == c.content,
        m.role == role_named(c.role),
        m.sequence_num == i,
{
    law_plain_message_holds_its_text(
        m.id,
        m.created_at,
        Uuid(0),
        role_named(c.role),
        c.content,
        ComputeMode::OnDevice,
        i as i64,
    );
}

} // verus!
