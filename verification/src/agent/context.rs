//! Context assembly: the system prompt, recalled memories and recent history,
//! kept inside a budget by a sliding window.

use crate::contracts::data::{
    law_plain_message_holds_its_text, BlockView, ContentBlock, Conversation, ConversationView,
    MemoryRecord, MemoryView, Message, MessageRole, MessageView,
};
use crate::ident::{Timestamp, Uuid};
use crate::json::{
    entry, entry_views, json_text, lemma_obj_of_four, lemma_obj_of_three, lemma_obj_of_two, obj,
    Json, JsonView,
};
use crate::model::views;
use crate::text::{
    begins_with, join, join_strings, laid_out, law_joined_texts_hold_every_part,
};
use vstd::prelude::*;
use vstd::utf8::encode_utf8;

verus! {

/// Character budget of the assembled context.
pub const CONTEXT_CHAR_BUDGET: usize = 16_000;

/// The system prompt of a conversation that has none of its own.
pub const DEFAULT_SYSTEM_PROMPT: &'static str = "You are Mahi, a capable personal AI assistant running on the user's own Mac. \
You act as a proactive coworker: understand the goal, make a short plan, and carry it out end to end rather than just describing what could be done.\n\n\
You have tools available this turn — reading, writing, editing and searching files; running shell commands; fetching and searching the web; \
and, when working on the Mac, controlling the computer (capturing the screen, reading the on-screen UI, clicking, typing, scrolling, and pressing keys). \
Use them whenever they help, and prefer acting over asking. Call one or more tools, look at the results, and keep going until the task is actually done. \
When you write or change code, match the surrounding style and keep edits minimal, correct, and runnable.\n\n\
For computer use: capture or describe the screen before you act so you target the right element, take one careful step at a time, and check the result before the next step. \
Some actions require the user's approval — when one is requested, wait for the decision and respect it. \
Never type credentials or act on login, password, or payment screens; stop and let the user handle those directly.\n\n\
Be concise and direct, and explain your actions only as much as is useful. Break large tasks into steps, and delegate independent sub-tasks to parallel subagents when that's faster. \
If a request is ambiguous or risky, say so briefly and proceed with the most reasonable interpretation.";

/// The serialized form of a content block.
pub open spec fn block_json(b: BlockView) -> JsonView {
    match b {
        BlockView::Text { text } => obj(
            seq![("kind"@, JsonView::Str("Text"@)), ("text"@, JsonView::Str(text))],
        ),
        BlockView::Thinking { thinking, signature } => obj(
            seq![
                ("kind"@, JsonView::Str("Thinking"@)),
                ("thinking"@, JsonView::Str(thinking)),
                ("signature"@, JsonView::Str(signature)),
            ],
        ),
        BlockView::ToolCall { call_id, tool_id, args } => obj(
            seq![
                ("kind"@, JsonView::Str("ToolCall"@)),
                ("call_id"@, JsonView::Str(call_id)),
                ("tool_id"@, JsonView::Str(tool_id)),
                ("args"@, args),
            ],
        ),
        BlockView::ToolResult { call_id, output } => obj(
            seq![
                ("kind"@, JsonView::Str("ToolResult"@)),
                ("call_id"@, JsonView::Str(call_id)),
                ("output"@, output),
            ],
        ),
        BlockView::Image { media_type, data } => obj(
            seq![
                ("kind"@, JsonView::Str("Image"@)),
                ("media_type"@, JsonView::Str(media_type)),
                ("data"@, JsonView::Str(data)),
            ],
        ),
        BlockView::ArtifactRef { artifact_id } => obj(
            seq![
                ("kind"@, JsonView::Str("ArtifactRef"@)),
                ("artifact_id"@, JsonView::Str(artifact_id.text())),
            ],
        ),
    }
}

/// The serialized form of a content list.
pub open spec fn content_json(content: Seq<BlockView>) -> JsonView {
    JsonView::Array(Seq::new(content.len(), |i: int| block_json(content[i])))
}

/// The cost of a message: the length of its serialized content in bytes.
pub open spec fn cost(m: MessageView) -> nat {
    encode_utf8(json_text(content_json(m.content))).len()
}

/// The cost of a list of messages.
pub open spec fn total_cost(s: Seq<MessageView>) -> nat
    decreases s.len(),
{
    if s.len() == 0 {
        0
    } else {
        total_cost(s.drop_last()) + cost(s.last())
    }
}

/// The serialized form of a content block.
fn block_to_json(b: &ContentBlock) -> (r: Json)
    ensures
        r@ == block_json(b@),
{
    let es = match b {
        ContentBlock::Text { text } => vec![
            entry("kind", Json::string("Text")),
            entry("text", Json::string(text.as_str())),
        ],
        ContentBlock::Thinking { thinking, signature } => vec![
            entry("kind", Json::string("Thinking")),
            entry("thinking", Json::string(thinking.as_str())),
            entry("signature", Json::string(signature.as_str())),
        ],
        ContentBlock::ToolCall { call_id, tool_id, args } => vec![
            entry("kind", Json::string("ToolCall")),
            entry("call_id", Json::string(call_id.as_str())),
            entry("tool_id", Json::string(tool_id.as_str())),
            entry("args", args.clone()),
        ],
        ContentBlock::ToolResult { call_id, output } => vec![
            entry("kind", Json::string("ToolResult")),
            entry("call_id", Json::string(call_id.as_str())),
            entry("output", output.clone()),
        ],
        ContentBlock::Image { media_type, data } => vec![
            entry("kind", Json::string("Image")),
            entry("media_type", Json::string(media_type.as_str())),
            entry("data", Json::string(data.as_str())),
        ],
        ContentBlock::ArtifactRef { artifact_id } => vec![
            entry("kind", Json::string("ArtifactRef")),
            entry("artifact_id", Json::Str(artifact_id.to_text())),
        ],
    };
    proof {
        match b@ {
            BlockView::Text { text } => {
                assert(entry_views(es@) =~= seq![
                    ("kind"@, JsonView::Str("Text"@)),
                    ("text"@, JsonView::Str(text)),
                ]);
            },
            BlockView::Thinking { thinking, signature } => {
                assert(entry_views(es@) =~= seq![
                    ("kind"@, JsonView::Str("Thinking"@)),
                    ("thinking"@, JsonView::Str(thinking)),
                    ("signature"@, JsonView::Str(signature)),
                ]);
            },
            BlockView::ToolCall { call_id, tool_id, args } => {
                assert(entry_views(es@) =~= seq![
                    ("kind"@, JsonView::Str("ToolCall"@)),
                    ("call_id"@, JsonView::Str(call_id)),
                    ("tool_id"@, JsonView::Str(tool_id)),
                    ("args"@, args),
                ]);
            },
            BlockView::ToolResult { call_id, output } => {
                assert(entry_views(es@) =~= seq![
                    ("kind"@, JsonView::Str("ToolResult"@)),
                    ("call_id"@, JsonView::Str(call_id)),
                    ("output"@, output),
                ]);
            },
            BlockView::Image { media_type, data } => {
                assert(entry_views(es@) =~= seq![
                    ("kind"@, JsonView::Str("Image"@)),
                    ("media_type"@, JsonView::Str(media_type)),
                    ("data"@, JsonView::Str(data)),
                ]);
            },
            BlockView::ArtifactRef { artifact_id } => {
                assert(entry_views(es@) =~= seq![
                    ("kind"@, JsonView::Str("ArtifactRef"@)),
                    ("artifact_id"@, JsonView::Str(artifact_id.text())),
                ]);
            },
        }
    }
    Json::object(es)
}

/// The serialized form of a content list.
pub fn content_to_json(content: &Vec<ContentBlock>) -> (r: Json)
    ensures
        r@ == content_json(views(content@)),
{
    let mut out: Vec<Json> = Vec::new();
    let mut i: usize = 0;
    while i < content.len()
        invariant
            i <= content.len(),
            out.len() == i,
            forall|j: int| 0 <= j < i ==> (#[trigger] out@[j])@ == block_json(content@[j]@),
        decreases content.len() - i,
    {
        out.push(block_to_json(&content[i]));
        i += 1;
    }
    assert(views(out@) =~= Seq::new(
        content@.len(),
        |i: int| block_json(views(content@)[i]),
    ));
    Json::array(out)
}

/// The cost of a message: the length of its serialized content in bytes.
pub fn message_cost(msg: &Message) -> (r: usize)
    ensures
        r == cost(msg@),
{
    let text = content_to_json(&msg.content).to_text();
    let bytes = text.as_str().as_bytes();
    bytes.len()
}

/// Where the window over a history starts: walking back from message `i`, a
/// message is kept while it fits; the newest is kept in any case.
pub open spec fn window_start(
    history: Seq<MessageView>,
    i: int,
    used: int,
    budget: int,
    kept_any: bool,
) -> int
    decreases i,
{
    if i <= 0 {
        0
    } else {
        let c = cost(history[i - 1]) as int;
        if kept_any && used + c > budget {
            i
        } else {
            window_start(history, i - 1, used + c, budget, true)
        }
    }
}

/// The messages kept of a preamble and a history: all of the preamble, and the
/// newest messages that fit the budget.
pub open spec fn compacted(
    preamble: Seq<MessageView>,
    history: Seq<MessageView>,
    budget: int,
) -> Seq<MessageView> {
    preamble + history.skip(
        window_start(history, history.len() as int, total_cost(preamble) as int, budget, false),
    )
}

/// Sliding-window compaction: keeps the preamble and the most recent history
/// message, then walks back and keeps messages while they fit in the budget.
pub fn compact(preamble: Vec<Message>, history: Vec<Message>, budget_chars: usize) -> (r: Vec<
    Message,
>)
    ensures
        views(r@) == compacted(views(preamble@), views(history@), budget_chars as int),
{
    let ghost pv = views(preamble@);
    let ghost hv = views(history@);
    let mut used: u128 = 0;
    let mut k: usize = 0;
    assert(pv.take(0) =~= Seq::empty());
    while k < preamble.len()
        invariant
            k <= preamble.len(),
            pv == views(preamble@),
            used == total_cost(pv.take(k as int)),
            used <= k * usize::MAX,
        decreases preamble.len() - k,
    {
        assert(pv.take(k + 1).drop_last() =~= pv.take(k as int));
        let c = message_cost(&preamble[k]);
        assert(k * usize::MAX + usize::MAX == (k + 1) * usize::MAX) by (nonlinear_arith);
        assert((k + 1) * usize::MAX <= usize::MAX * usize::MAX) by (nonlinear_arith)
            requires
                k + 1 <= usize::MAX,
        ;
        assert(usize::MAX * usize::MAX <= 0xffff_ffff_ffff_ffff * 0xffff_ffff_ffff_ffff)
            by (nonlinear_arith)
            requires
                usize::MAX <= 0xffff_ffff_ffff_ffff,
        ;
        used = used + c as u128;
        k += 1;
    }
    assert(pv.take(pv.len() as int) =~= pv);

    let budget: u128 = budget_chars as u128;
    let n = history.len();
    let mut start: usize = n;
    let mut fits: bool = true;
    let ghost total0 = used as int;
    assert(pv.len() * usize::MAX <= usize::MAX * usize::MAX) by (nonlinear_arith)
        requires
            pv.len() <= usize::MAX,
    ;
    while start > 0 && fits
        invariant
            start <= n,
            n == history.len(),
            hv == views(history@),
            budget == budget_chars,
            used <= usize::MAX * usize::MAX + (if start < n {
                usize::MAX as int
            } else {
                0
            }),
            fits ==> window_start(hv, n as int, total0, budget as int, false) == window_start(
                hv,
                start as int,
                used as int,
                budget as int,
                start < n,
            ),
            !fits ==> window_start(hv, n as int, total0, budget as int, false) == start,
        decreases
                start + (if fits {
                    1int
                } else {
                    0int
                }),
    {
        let c = message_cost(&history[start - 1]);
        assert(usize::MAX * usize::MAX + 2 * usize::MAX <= u128::MAX) by (nonlinear_arith)
            requires
                usize::MAX <= 0xffff_ffff_ffff_ffff,
        ;
        if start < n && used + c as u128 > budget {
            fits = false;
        } else {
            used = used + c as u128;
            assert(usize::MAX as int <= usize::MAX * usize::MAX + usize::MAX)
                by (nonlinear_arith);
            start -= 1;
        }
    }

    let mut history = history;
    let mut kept = history.split_off(start);
    let mut out = preamble;
    out.append(&mut kept);
    assert(views(out@) =~= pv + hv.skip(start as int));
    out
}

/// The window lies inside the history.
proof fn lemma_window(
    history: Seq<MessageView>,
    i: int,
    used: int,
    budget: int,
    kept_any: bool,
)
    requires
        0 <= i <= history.len(),
    ensures
        0 <= window_start(history, i, used, budget, kept_any) <= i,
        i > 0 && !kept_any ==> window_start(history, i, used, budget, kept_any) < i,
    decreases i,
{
    if i > 0 {
        let c = cost(history[i - 1]) as int;
        if !(kept_any && used + c > budget) {
            lemma_window(history, i - 1, used + c, budget, true);
        }
    }
}

/// The cost of a sequence is that of its head and its tail.
proof fn lemma_total_cost_split(s: Seq<MessageView>, k: int)
    requires
        0 <= k <= s.len(),
    ensures
        total_cost(s) == total_cost(s.take(k)) + total_cost(s.skip(k)),
    decreases s.len(),
{
    if k == s.len() {
        assert(s.take(k) =~= s);
        assert(s.skip(k) =~= Seq::empty());
    } else {
        let d = s.drop_last();
        lemma_total_cost_split(d, k);
        assert(d.take(k) =~= s.take(k));
        assert(s.skip(k).drop_last() =~= d.skip(k));
        assert(s.skip(k).last() == s.last());
    }
}

/// What the window keeps, beyond one message, fits the budget.
proof fn lemma_window_fits(
    history: Seq<MessageView>,
    i: int,
    used: int,
    budget: int,
)
    requires
        0 <= i <= history.len(),
    ensures
        ({
            let w = window_start(history, i, used, budget, true);
            w < i ==> used + total_cost(history.subrange(w, i)) <= budget
        }),
    decreases i,
{
    if i > 0 {
        let c = cost(history[i - 1]) as int;
        if used + c <= budget {
            lemma_window(history, i - 1, used + c, budget, true);
            lemma_window_fits(history, i - 1, used + c, budget);
            let w = window_start(history, i, used, budget, true);
            let part = history.subrange(w, i);
            assert(w == window_start(history, i - 1, used + c, budget, true));
            if w < i {
                assert(total_cost(part) == total_cost(part.drop_last()) + cost(part.last()));
                assert(part.drop_last() =~= history.subrange(w, i - 1));
                assert(part.last() == history[i - 1]);
                if w == i - 1 {
                    assert(history.subrange(w, i - 1) =~= Seq::empty());
                }
            }
        }
    }
}

/// The preamble is kept whole, in front.
pub proof fn law_preamble_is_kept(
    preamble: Seq<MessageView>,
    history: Seq<MessageView>,
    budget: int,
)
    ensures
        compacted(preamble, history, budget).take(preamble.len() as int) == preamble,
{
    lemma_window(history, history.len() as int, total_cost(preamble) as int, budget, false);
    assert(compacted(preamble, history, budget).take(preamble.len() as int) =~= preamble);
}

/// The newest message survives, whatever it costs.
pub proof fn law_newest_survives(
    preamble: Seq<MessageView>,
    history: Seq<MessageView>,
    budget: int,
)
    requires
        history.len() > 0,
    ensures
        compacted(preamble, history, budget).len() > preamble.len(),
        compacted(preamble, history, budget).last() == history.last(),
{
    lemma_window(history, history.len() as int, total_cost(preamble) as int, budget, false);
}

/// What is kept of the history is its newest part, in order.
pub proof fn law_kept_history_is_a_suffix(
    preamble: Seq<MessageView>,
    history: Seq<MessageView>,
    budget: int,
)
    ensures
        ({
            let kept = compacted(preamble, history, budget).skip(preamble.len() as int);
            kept.len() <= history.len() && kept == history.skip(history.len() - kept.len())
        }),
{
    lemma_window(history, history.len() as int, total_cost(preamble) as int, budget, false);
    let w = window_start(
        history,
        history.len() as int,
        total_cost(preamble) as int,
        budget,
        false,
    );
    let kept = compacted(preamble, history, budget).skip(preamble.len() as int);
    assert(kept =~= history.skip(w));
}

/// A context with more than one message of the history fits the budget.
pub proof fn law_context_fits_the_budget(
    preamble: Seq<MessageView>,
    history: Seq<MessageView>,
    budget: int,
)
    requires
        compacted(preamble, history, budget).len() > preamble.len() + 1,
    ensures
        total_cost(compacted(preamble, history, budget)) <= budget,
{
    let n = history.len() as int;
    let used = total_cost(preamble) as int;
    lemma_window(history, n, used, budget, false);
    let c = cost(history[n - 1]) as int;
    let w = window_start(history, n, used, budget, false);
    assert(w == window_start(history, n - 1, used + c, budget, true));
    lemma_window(history, n - 1, used + c, budget, true);
    lemma_window_fits(history, n - 1, used + c, budget);
    assert(w < n - 1);
    let kept = history.skip(w);
    assert(kept.drop_last() =~= history.subrange(w, n - 1));
    let all = compacted(preamble, history, budget);
    lemma_total_cost_split(all, preamble.len() as int);
    assert(all.take(preamble.len() as int) =~= preamble);
    assert(all.skip(preamble.len() as int) =~= kept);
}

/// A history that fits the budget together with the preamble is kept whole.
pub proof fn law_small_history_is_kept_whole(
    preamble: Seq<MessageView>,
    history: Seq<MessageView>,
    budget: int,
)
    requires
        total_cost(preamble) + total_cost(history) <= budget,
    ensures
        compacted(preamble, history, budget) == preamble + history,
{
    assert(history.take(history.len() as int) =~= history);
    lemma_window_whole(history, history.len() as int, total_cost(preamble) as int, budget, false);
    assert(history.skip(0) =~= history);
}

proof fn lemma_window_whole(
    history: Seq<MessageView>,
    i: int,
    used: int,
    budget: int,
    kept_any: bool,
)
    requires
        0 <= i <= history.len(),
        used + total_cost(history.take(i)) <= budget,
    ensures
        window_start(history, i, used, budget, kept_any) == 0,
    decreases i,
{
    if i > 0 {
        assert(history.take(i).drop_last() =~= history.take(i - 1));
        lemma_window_whole(history, i - 1, used + cost(history[i - 1]) as int, budget, true);
    }
}

/// A system message that is never stored, marked by its sequence number.
pub open spec fn synthetic(
    c: ConversationView,
    id: Uuid,
    at: Timestamp,
    text: Seq<char>,
) -> MessageView {
    MessageView::plain(
        id,
        at,
        c.id,
        MessageRole::System,
        text,
        c.mode_at_creation,
        (-1) as i64,
    )
}

/// The system prompt of a conversation: its own, or the default.
pub open spec fn system_prompt(c: ConversationView) -> Seq<char> {
    match c.system_prompt {
        Some(p) => p,
        None => DEFAULT_SYSTEM_PROMPT@,
    }
}

/// The lines that recall memories.
pub open spec fn memory_lines(memories: Seq<MemoryView>) -> Seq<Seq<char>> {
    Seq::new(memories.len(), |i: int| "- "@ + memories[i].content)
}

/// The text that recalls memories.
pub open spec fn recall_text(memories: Seq<MemoryView>) -> Seq<char> {
    "Relevant memories recalled for this turn:\n"@ + join(memory_lines(memories), "\n"@)
}

/// The messages in front of the history: the system prompt, and the recalled
/// memories where there are any.
pub open spec fn preamble(
    c: ConversationView,
    memories: Seq<MemoryView>,
    prompt_id: Uuid,
    recall_id: Uuid,
    at: Timestamp,
) -> Seq<MessageView> {
    let prompt = synthetic(c, prompt_id, at, system_prompt(c));
    if memories.len() == 0 {
        seq![prompt]
    } else {
        seq![prompt, synthetic(c, recall_id, at, recall_text(memories))]
    }
}

/// In front of the history stands the conversation's own prompt, or the default one
/// where it has none, word for word. Where memories were recalled, one more system
/// message follows, with every one of them on a line that begins with a dash, in
/// order, and with nothing else.
pub proof fn law_preamble_holds_the_prompt_and_every_memory(
    c: ConversationView,
    memories: Seq<MemoryView>,
    prompt_id: Uuid,
    recall_id: Uuid,
    at: Timestamp,
)
    ensures
        ({
            let front = preamble(c, memories, prompt_id, recall_id, at);
            &&& front.len() == (if memories.len() == 0 {
                1int
            } else {
                2int
            })
            &&& forall|i: int|
                0 <= i < front.len() ==> (#[trigger] front[i]).role == MessageRole::System
                    && front[i].conversation_id == c.id && front[i].sequence_num == -1
            &&& c.system_prompt matches Some(p) ==> front[0].text_content() == p
            &&& c.system_prompt is None ==> front[0].text_content() == DEFAULT_SYSTEM_PROMPT@
            &&& memories.len() > 0 ==> begins_with(
                front[1].text_content(),
                "Relevant memories recalled for this turn:\n"@,
            ) && laid_out(
                front[1].text_content().skip(
                    "Relevant memories recalled for this turn:\n"@.len() as int,
                ),
                Seq::new(memories.len(), |i: int| "- "@ + memories[i].content),
                "\n"@,
            )
        }),
{
    let front = preamble(c, memories, prompt_id, recall_id, at);
    let mode = c.mode_at_creation;
    law_plain_message_holds_its_text(
        prompt_id,
        at,
        c.id,
        MessageRole::System,
        system_prompt(c),
        mode,
        (-1) as i64,
    );
    if memories.len() > 0 {
        law_plain_message_holds_its_text(
            recall_id,
            at,
            c.id,
            MessageRole::System,
            recall_text(memories),
            mode,
            (-1) as i64,
        );
        let entries = Seq::new(memories.len(), |i: int| "- "@ + memories[i].content);
        assert(memory_lines(memories) =~= entries);
        law_joined_texts_hold_every_part(entries, "\n"@);
        let lead = "Relevant memories recalled for this turn:\n"@;
        assert(recall_text(memories).skip(lead.len() as int) =~= join(entries, "\n"@));
    }
}

/// The text that recalls memories.
fn build_recall_text(memories: &Vec<MemoryRecord>) -> (r: String)
    ensures
        r@ == recall_text(views(memories@)),
{
    let mut lines: Vec<String> = Vec::new();
    let mut i: usize = 0;
    while i < memories.len()
        invariant
            i <= memories.len(),
            lines.len() == i,
            forall|j: int|
                0 <= j < i ==> (#[trigger] lines@[j])@ == "- "@ + memories@[j]@.content,
        decreases memories.len() - i,
    {
        lines.push("- ".to_owned().concat(memories[i].content.as_str()));
        i += 1;
    }
    assert(views(lines@) =~= memory_lines(views(memories@)));
    "Relevant memories recalled for this turn:\n".to_owned().concat(
        join_strings(&lines, "\n").as_str(),
    )
}

/// The messages for an inference round: the system prompt, the recalled
/// memories, and the recent history inside the budget.
pub fn assemble_context(
    conversation: &Conversation,
    memories: &Vec<MemoryRecord>,
    history: Vec<Message>,
    budget_chars: usize,
    prompt_id: Uuid,
    recall_id: Uuid,
    at: Timestamp,
) -> (r: Vec<Message>)
    ensures
        views(r@) == compacted(
            preamble(conversation@, views(memories@), prompt_id, recall_id, at),
            views(history@),
            budget_chars as int,
        ),
{
    let prompt = match &conversation.system_prompt {
        Some(p) => p.clone(),
        None => DEFAULT_SYSTEM_PROMPT.to_owned(),
    };
    let mut front: Vec<Message> = Vec::new();
    front.push(synthetic_system(conversation, prompt_id, at, prompt.as_str()));
    if memories.len() != 0 {
        let text = build_recall_text(memories);
        front.push(synthetic_system(conversation, recall_id, at, text.as_str()));
    }
    assert(views(front@) =~= preamble(
        conversation@,
        views(memories@),
        prompt_id,
        recall_id,
        at,
    ));
    compact(front, history, budget_chars)
}

/// A system message that is never stored, marked by its sequence number.
fn synthetic_system(conversation: &Conversation, id: Uuid, at: Timestamp, text: &str) -> (r:
    Message)
    ensures
        r@ == synthetic(conversation@, id, at, text@),
{
    Message::plain(
        id,
        at,
        conversation.id,
        MessageRole::System,
        text,
        conversation.mode_at_creation,
        -1,
    )
}

/// No more is left out than has to be: the newest message that is left out would not have
/// fitted any more.
pub proof fn law_as_much_is_kept_as_fits(
    preamble: Seq<MessageView>,
    history: Seq<MessageView>,
    budget: int,
)
    requires
        compacted(preamble, history, budget).len() < preamble.len() + history.len(),
    ensures
        ({
            let left_out = preamble.len() + history.len() - compacted(
                preamble,
                history,
                budget,
            ).len();
            total_cost(preamble) + total_cost(history.skip(left_out - 1)) > budget
        }),
{
    let n = history.len() as int;
    let used = total_cost(preamble) as int;
    lemma_window(history, n, used, budget, false);
    lemma_window_stops(history, n, used, budget, false);
    let w = window_start(history, n, used, budget, false);
    assert(history.subrange(w - 1, n) =~= history.skip(w - 1));
}

proof fn lemma_window_stops(
    history: Seq<MessageView>,
    i: int,
    used: int,
    budget: int,
    kept_any: bool,
)
    requires
        0 <= i <= history.len(),
    ensures
        ({
            let w = window_start(history, i, used, budget, kept_any);
            w > 0 ==> used + total_cost(history.subrange(w - 1, i)) > budget
        }),
    decreases i,
{
    if i > 0 {
        let c = cost(history[i - 1]) as int;
        let w = window_start(history, i, used, budget, kept_any);
        lemma_window(history, i, used, budget, kept_any);
        if kept_any && used + c > budget {
            let part = history.subrange(i - 1, i);
            assert(part.drop_last() =~= Seq::empty());
            assert(total_cost(part.drop_last()) == 0);
            assert(total_cost(part) == cost(part.last()));
        } else {
            lemma_window(history, i - 1, used + c, budget, true);
            lemma_window_stops(history, i - 1, used + c, budget, true);
            if w > 0 {
                let part = history.subrange(w - 1, i);
                assert(part.drop_last() =~= history.subrange(w - 1, i - 1));
                assert(part.last() == history[i - 1]);
            }
        }
    }
}

/// Whether a block in JSON tells what kind of block it is and all that it holds.
pub open spec fn records(j: JsonView, b: BlockView) -> bool {
    match b {
        BlockView::Text { text } => j.at("kind"@) == JsonView::Str("Text"@) && j.at("text"@)
            == JsonView::Str(text),
        BlockView::Thinking { thinking, signature } => j.at("kind"@) == JsonView::Str("Thinking"@)
            && j.at("thinking"@) == JsonView::Str(thinking) && j.at("signature"@) == JsonView::Str(
            signature,
        ),
        BlockView::ToolCall { call_id, tool_id, args } => j.at("kind"@) == JsonView::Str(
            "ToolCall"@,
        ) && j.at("call_id"@) == JsonView::Str(call_id) && j.at("tool_id"@) == JsonView::Str(
            tool_id,
        ) && j.at("args"@) == args,
        BlockView::ToolResult { call_id, output } => j.at("kind"@) == JsonView::Str("ToolResult"@)
            && j.at("call_id"@) == JsonView::Str(call_id) && j.at("output"@) == output,
        BlockView::Image { media_type, data } => j.at("kind"@) == JsonView::Str("Image"@) && j.at(
            "media_type"@,
        ) == JsonView::Str(media_type) && j.at("data"@) == JsonView::Str(data),
        BlockView::ArtifactRef { artifact_id } => j.at("kind"@) == JsonView::Str("ArtifactRef"@)
            && j.at("artifact_id"@) == JsonView::Str(artifact_id.text()),
    }
}

/// A message costs the bytes of its whole content in JSON: every block counts, with all
/// that it holds.
pub proof fn law_every_block_counts(m: MessageView)
    ensures
        content_json(m.content) matches JsonView::Array(blocks) && blocks.len() == m.content.len()
            && (forall|i: int|
            0 <= i < blocks.len() ==> records(#[trigger] blocks[i], m.content[i])),
        cost(m) == encode_utf8(json_text(content_json(m.content))).len(),
{
    let blocks = content_json(m.content)->Array_0;
    assert forall|i: int| 0 <= i < blocks.len() implies records(
        #[trigger] blocks[i],
        m.content[i],
    ) by {
        lemma_block_json(m.content[i]);
    }
}

proof fn lemma_block_json(b: BlockView)
    ensures
        records(block_json(b), b),
{
    reveal_strlit("kind");
    reveal_strlit("text");
    reveal_strlit("thinking");
    reveal_strlit("signature");
    reveal_strlit("call_id");
    reveal_strlit("tool_id");
    reveal_strlit("args");
    reveal_strlit("output");
    reveal_strlit("media_type");
    reveal_strlit("data");
    reveal_strlit("artifact_id");
    assert("kind"@.len() == 4 && "kind"@[0] == 'k' && "text"@.len() == 4 && "text"@[0] == 't');
    assert("thinking"@.len() == 8 && "signature"@.len() == 9 && "output"@.len() == 6);
    assert("call_id"@.len() == 7 && "call_id"@[0] == 'c' && "tool_id"@.len() == 7 && "tool_id"@[0]
        == 't');
    assert("args"@.len() == 4 && "args"@[0] == 'a' && "media_type"@.len() == 10);
    assert("data"@.len() == 4 && "data"@[0] == 'd' && "artifact_id"@.len() == 11);
    match b {
        BlockView::Text { text } => {
            lemma_obj_of_two(("kind"@, JsonView::Str("Text"@)), ("text"@, JsonView::Str(text)));
        },
        BlockView::Thinking { thinking, signature } => {
            lemma_obj_of_three(
                ("kind"@, JsonView::Str("Thinking"@)),
                ("thinking"@, JsonView::Str(thinking)),
                ("signature"@, JsonView::Str(signature)),
            );
        },
        BlockView::ToolCall { call_id, tool_id, args } => {
            lemma_obj_of_four(
                ("kind"@, JsonView::Str("ToolCall"@)),
                ("call_id"@, JsonView::Str(call_id)),
                ("tool_id"@, JsonView::Str(tool_id)),
                ("args"@, args),
            );
        },
        BlockView::ToolResult { call_id, output } => {
            lemma_obj_of_three(
                ("kind"@, JsonView::Str("ToolResult"@)),
                ("call_id"@, JsonView::Str(call_id)),
                ("output"@, output),
            );
        },
        BlockView::Image { media_type, data } => {
            lemma_obj_of_three(
                ("kind"@, JsonView::Str("Image"@)),
                ("media_type"@, JsonView::Str(media_type)),
                ("data"@, JsonView::Str(data)),
            );
        },
        BlockView::ArtifactRef { artifact_id } => {
            lemma_obj_of_two(
                ("kind"@, JsonView::Str("ArtifactRef"@)),
                ("artifact_id"@, JsonView::Str(artifact_id.text())),
            );
        },
    }
}

/// Every message of a list adds its own cost to that of the list.
pub proof fn law_costs_add_up(s: Seq<MessageView>, m: MessageView)
    ensures
        total_cost(Seq::empty()) == 0,
        total_cost(s.push(m)) == total_cost(s) + cost(m),
{
    assert(s.push(m).drop_last() =~= s);
}

} // verus!
