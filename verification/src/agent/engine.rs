//! The engine: its settings, and what it decides at the start of a turn, on a
//! change of instructions and on compaction.

use crate::agent::context::CONTEXT_CHAR_BUDGET;
use crate::agent::turn::{Fresh, Phase, TurnRunner, TurnView};
use crate::contracts::compute::{InferenceRequest, RequestView, ThinkingConfig};
use crate::contracts::data::{
    concat_all, law_plain_message_holds_its_text, Conversation, ConversationView, Message,
    MessageRole, MessageView,
};
use crate::contracts::error::{ContractError, ContractErrorView, StoreError, StoreErrorView};
use crate::contracts::types::{CapabilitySet, ComputeMode};
use crate::ident::{is_v4, Uuid};
use crate::model::{lemma_views_take, opt, outcome, views};
use crate::text::{
    begins_with, char_is_whitespace, first_nonblank, first_nonblank_line, is_one_line, is_trimmed,
    join, join_strings, laid_out, law_first_line_begins_the_text,
    law_joined_texts_hold_every_part, lemma_blank, lemma_first_line, lines, opens_at, shorten,
    shortened, stands_at, trim, trim_text,
};
use vstd::prelude::*;

verus! {

/// The least context budget, in characters.
pub const MIN_CONTEXT_CHARS: usize = 2_000;

/// The reasoning budget of a new engine, in tokens.
pub const DEFAULT_THINKING_BUDGET: u32 = 4096;

/// The most characters of a title.
pub const TITLE_CHARS: usize = 48;

/// The settings of an engine.
pub struct MahiEngine {
    /// The device on which the engine runs.
    pub device_id: Uuid,
    /// The context budget of a turn, in characters.
    pub context_budget_chars: usize,
    /// The reasoning that requests ask for.
    pub thinking: Option<ThinkingConfig>,
}

/// The context budget, in characters, for a window of tokens: four characters a
/// token, and no less than the floor.
pub open spec fn budget_for(tokens: int) -> int {
    let chars = if tokens * 4 > usize::MAX {
        usize::MAX as int
    } else {
        tokens * 4
    };
    if chars < MIN_CONTEXT_CHARS {
        MIN_CONTEXT_CHARS as int
    } else {
        chars
    }
}

/// The title for a first message: its first line that is not blank, cut short.
pub open spec fn title_spec(text: Seq<char>) -> Seq<char> {
    shortened(
        match first_nonblank(lines(text)) {
            Some(line) => line,
            None => "New conversation"@,
        },
        TITLE_CHARS as nat,
    )
}

/// The title for a first message.
pub fn title_from_text(text: &str) -> (r: String)
    ensures
        r@ == title_spec(text@),
{
    let line = match first_nonblank_line(text) {
        Some(line) => line,
        None => "New conversation".to_owned(),
    };
    shorten(line.as_str(), TITLE_CHARS)
}

/// A turn that is ready to run.
pub struct BegunTurn {
    /// The user's message, to be stored first.
    pub user_message: Message,
    /// The conversation with its new title, to be stored where it had none.
    pub titled: Option<Conversation>,
    /// The turn.
    pub runner: TurnRunner,
}

/// [`BegunTurn`] as a mathematical value.
pub struct BegunView {
    pub user_message: MessageView,
    pub titled: Option<ConversationView>,
    pub runner: TurnView,
}

impl View for BegunTurn {
    type V = BegunView;

    open spec fn view(&self) -> BegunView {
        BegunView {
            user_message: self.user_message@,
            titled: opt(self.titled),
            runner: self.runner@,
        }
    }
}

/// The conversation with a title: its own, or one made of the message.
pub open spec fn with_title(c: ConversationView, user_text: Seq<char>) -> ConversationView {
    match c.title {
        Some(_) => c,
        None => ConversationView { title: Some(title_spec(user_text)), ..c },
    }
}

/// The error for a conversation that is not there.
pub open spec fn missing(id: Uuid) -> ContractErrorView {
    ContractErrorView::Store(StoreErrorView::NotFound { id })
}

/// A conversation with new instructions; blank ones count as none.
pub open spec fn with_prompt(c: ConversationView, prompt: Option<Seq<char>>) -> ConversationView {
    ConversationView {
        system_prompt: match prompt {
            Some(p) => if trim(p).len() > 0 {
                Some(p)
            } else {
                None
            },
            None => None,
        },
        ..c
    }
}

/// How a turn begins: with the user's message, with a title where the
/// conversation has none, and with a runner that has not begun. Without the
/// conversation it fails.
pub open spec fn begin_turn(
    device_id: Uuid,
    conversation_id: Uuid,
    found: Option<ConversationView>,
    user_text: Seq<char>,
    sequence: i64,
    fresh: Fresh,
) -> Result<BegunView, ContractErrorView> {
    match found {
        None => Err(missing(conversation_id)),
        Some(c) => Ok(
            BegunView {
                user_message: MessageView::plain(
                    fresh.first,
                    fresh.at,
                    conversation_id,
                    MessageRole::User,
                    user_text,
                    c.mode_at_creation,
                    sequence,
                ),
                titled: match c.title {
                    Some(_) => None,
                    None => Some(with_title(c, user_text)),
                },
                runner: TurnView::idle(
                    with_title(c, user_text),
                    user_text,
                    fresh.first,
                    c.mode_at_creation,
                    fresh.second,
                    device_id,
                ),
            },
        ),
    }
}

/// The error for a conversation that is not there.
fn missing_error(id: Uuid) -> (r: ContractError)
    ensures
        r@ == missing(id),
{
    ContractError::Store(StoreError::NotFound { id })
}

/// The name of a role.
pub open spec fn role_name(role: MessageRole) -> Seq<char> {
    match role {
        MessageRole::User => "User"@,
        MessageRole::Assistant => "Assistant"@,
        MessageRole::Tool => "Tool"@,
        MessageRole::System => "System"@,
    }
}

/// A line of a transcript.
pub open spec fn transcript_line(m: MessageView) -> Seq<char> {
    role_name(m.role) + ": "@ + m.text_content()
}

/// The transcript of a history.
pub open spec fn transcript(history: Seq<MessageView>) -> Seq<char> {
    join(Seq::new(history.len(), |i: int| transcript_line(history[i])), "\n"@)
}

/// The prompt that asks for a summary of a history.
pub open spec fn summary_prompt(history: Seq<MessageView>) -> Seq<char> {
    "Summarize this conversation concisely for your own future reference, preserving key facts, decisions, file paths, and open tasks. Write the summary only.\n\n"@
        + transcript(history)
}

/// The request that asks for a summary of a history.
pub open spec fn summary_request(
    c: ConversationView,
    history: Seq<MessageView>,
    fresh: Fresh,
) -> RequestView {
    RequestView::minimal(
        fresh.second,
        seq![
            MessageView::plain(
                fresh.first,
                fresh.at,
                c.id,
                MessageRole::User,
                summary_prompt(history),
                c.mode_at_creation,
                0,
            ),
        ],
    )
}

/// The instructions with a summary pinned to them.
pub open spec fn pinned_prompt(existing: Option<Seq<char>>, summary: Seq<char>) -> Seq<char> {
    let pinned = "Summary of the conversation so far:\n"@ + summary;
    match existing {
        Some(e) => if trim(e).len() > 0 {
            e + "\n\n"@ + pinned
        } else {
            pinned
        },
        None => pinned,
    }
}

/// The text of a role.
fn role_text(role: MessageRole) -> (r: &'static str)
    ensures
        r@ == role_name(role),
{
    match role {
        MessageRole::User => "User",
        MessageRole::Assistant => "Assistant",
        MessageRole::Tool => "Tool",
        MessageRole::System => "System",
    }
}

/// The prompt that asks for a summary of a history.
fn build_summary_prompt(history: &Vec<Message>) -> (r: String)
    ensures
        r@ == summary_prompt(views(history@)),
{
    let mut out: Vec<String> = Vec::new();
    let mut i: usize = 0;
    while i < history.len()
        invariant
            i <= history.len(),
            out.len() == i,
            forall|j: int| 0 <= j < i ==> (#[trigger] out@[j])@ == transcript_line(history@[j]@),
        decreases history.len() - i,
    {
        let mut line = role_text(history[i].role).to_owned();
        line.append(": ");
        line.append(history[i].text_content().as_str());
        out.push(line);
        i += 1;
    }
    assert(views(out@) =~= Seq::new(
        history@.len(),
        |i: int| transcript_line(views(history@)[i]),
    ));
    "Summarize this conversation concisely for your own future reference, preserving key facts, decisions, file paths, and open tasks. Write the summary only.\n\n".to_owned().concat(
        join_strings(&out, "\n").as_str())
}

impl MahiEngine {
    /// An engine with the default settings.
    pub fn new(device_id: Uuid) -> (r: MahiEngine)
        ensures
            r.device_id == device_id,
            r.context_budget_chars == CONTEXT_CHAR_BUDGET,
            r.thinking == Some(ThinkingConfig { budget_tokens: DEFAULT_THINKING_BUDGET }),
    {
        MahiEngine {
            device_id,
            context_budget_chars: CONTEXT_CHAR_BUDGET,
            thinking: Some(ThinkingConfig::with_budget(DEFAULT_THINKING_BUDGET)),
        }
    }

    /// Sets the context window of a turn, in tokens.
    pub fn set_context_window(&mut self, tokens: usize)
        ensures
            final(self).context_budget_chars == budget_for(tokens as int),
            final(self).device_id == old(self).device_id,
            final(self).thinking == old(self).thinking,
    {
        let chars: usize = match tokens.checked_mul(4) {
            Some(n) => n,
            None => usize::MAX,
        };
        self.context_budget_chars = if chars < MIN_CONTEXT_CHARS {
            MIN_CONTEXT_CHARS
        } else {
            chars
        };
    }

    /// The context budget of a turn, in characters.
    pub fn context_budget_chars(&self) -> (r: usize)
        ensures
            r == self.context_budget_chars,
    {
        self.context_budget_chars
    }

    /// Turns reasoning on with a budget, or off.
    pub fn set_thinking_config(&mut self, enabled: bool, budget_tokens: u32)
        ensures
            final(self).thinking == (if enabled {
                Some(ThinkingConfig { budget_tokens })
            } else {
                None
            }),
            final(self).device_id == old(self).device_id,
            final(self).context_budget_chars == old(self).context_budget_chars,
    {
        self.thinking = if enabled {
            Some(ThinkingConfig::with_budget(budget_tokens))
        } else {
            None
        };
    }

    /// A new empty conversation, to be stored, and its identifier.
    pub fn create_conversation(&self, mode: ComputeMode) -> (r: (Uuid, Conversation))
        ensures
            r.0 == r.1@.id,
            r.1@ == ConversationView::fresh(r.0, r.1@.created_at, mode),
            is_v4(r.0.0),
            r.1@.created_at.of_clock(),
    {
        let conversation = Conversation::new(mode);
        (conversation.id, conversation)
    }

    /// Begins a turn: the user's message under the given sequence number, the
    /// title where the conversation had none, and the runner. Fails where the
    /// conversation is not there.
    pub fn run_turn_with(
        &self,
        conversation_id: Uuid,
        found: Option<Conversation>,
        user_text: String,
        sequence: i64,
        fresh: Fresh,
    ) -> (r: Result<BegunTurn, ContractError>)
        ensures
            outcome(r) == begin_turn(
                self.device_id,
                conversation_id,
                opt(found),
                user_text@,
                sequence,
                fresh,
            ),
            r matches Ok(begun) ==> begun.runner@.wf(),
    {
        let mut conversation = match found {
            Some(c) => c,
            None => {
                return Err(missing_error(conversation_id));
            },
        };
        let mode = conversation.mode_at_creation;
        let user_message = Message::plain(
            fresh.first,
            fresh.at,
            conversation_id,
            MessageRole::User,
            user_text.as_str(),
            mode,
            sequence,
        );
        let mut titled: Option<Conversation> = None;
        if conversation.title.is_none() {
            conversation.title = Some(title_from_text(user_text.as_str()));
            titled = Some(conversation.clone());
        }
        let runner = TurnRunner::new(
            conversation,
            user_text,
            fresh.first,
            mode,
            fresh.second,
            self.device_id,
        );
        Ok(BegunTurn { user_message, titled, runner })
    }

    /// Begins a turn with fresh identifiers at the current time.
    pub fn run_turn(
        &self,
        conversation_id: Uuid,
        found: Option<Conversation>,
        user_text: String,
        sequence: i64,
    ) -> (r: Result<BegunTurn, ContractError>)
        ensures
            exists|fresh: Fresh|
                fresh.drawn() && outcome(r) == #[trigger] begin_turn(
                    self.device_id,
                    conversation_id,
                    opt(found),
                    user_text@,
                    sequence,
                    fresh,
                ),
            r matches Ok(begun) ==> begun.runner@.wf(),
    {
        self.run_turn_with(conversation_id, found, user_text, sequence, Fresh::draw())
    }

    /// The conversation with new instructions, to be stored; blank instructions
    /// count as none. Fails where the conversation is not there.
    pub fn set_system_prompt(
        &self,
        conversation_id: Uuid,
        found: Option<Conversation>,
        prompt: Option<String>,
    ) -> (r: Result<Conversation, ContractError>)
        ensures
            match r {
                Err(e) => found is None && e@ == missing(conversation_id),
                Ok(c) => found is Some && c@ == with_prompt(found->0@, opt(prompt)),
            },
    {
        let mut conversation = match found {
            Some(c) => c,
            None => {
                return Err(missing_error(conversation_id));
            },
        };
        conversation.system_prompt = match prompt {
            Some(p) => {
                if trim_text(p.as_str()).as_str().is_empty() {
                    None
                } else {
                    Some(p)
                }
            },
            None => None,
        };
        Ok(conversation)
    }

    /// The request that asks for a summary of a history; none where it is empty.
    pub fn compaction_request(
        &self,
        conversation: &Conversation,
        history: &Vec<Message>,
        fresh: Fresh,
    ) -> (r: Option<InferenceRequest>)
        ensures
            opt(r) == (if history@.len() == 0 {
                None
            } else {
                Some(summary_request(conversation@, views(history@), fresh))
            }),
    {
        if history.len() == 0 {
            return None;
        }
        let prompt = build_summary_prompt(history);
        let message = Message::plain(
            fresh.first,
            fresh.at,
            conversation.id,
            MessageRole::User,
            prompt.as_str(),
            conversation.mode_at_creation,
            0,
        );
        let messages = vec![message];
        assert(views(messages@) =~= seq![message@]);
        Some(
            InferenceRequest {
                request_id: fresh.second,
                messages,
                tools: None,
                max_tokens: None,
                temperature: None,
                streaming_hint: true,
                required_caps: CapabilitySet::none(),
                thinking: None,
            },
        )
    }

    /// The summary that the texts of a generation add up to.
    pub fn summary_from(deltas: &Vec<String>) -> (r: String)
        ensures
            r@ == trim(concat_all(views(deltas@))),
    {
        let mut out = String::new();
        let mut i: usize = 0;
        let ghost all = views(deltas@);
        assert(all.take(0) =~= Seq::empty());
        while i < deltas.len()
            invariant
                i <= deltas.len(),
                all == views(deltas@),
                out@ == concat_all(all.take(i as int)),
            decreases deltas.len() - i,
        {
            proof {
                lemma_views_take(deltas@, i as int);
            }
            out.append(deltas[i].as_str());
            i += 1;
        }
        assert(all.take(all.len() as int) =~= all);
        trim_text(out.as_str())
    }

    /// Pins a summary into the instructions of a conversation, to be stored; an
    /// empty summary changes nothing.
    pub fn compact_conversation(&self, conversation: Conversation, summary: &str) -> (r: Option<
        Conversation,
    >)
        ensures
            opt(r) == (if summary@.len() == 0 {
                None
            } else {
                Some(
                    ConversationView {
                        system_prompt: Some(
                            pinned_prompt(conversation@.system_prompt, summary@),
                        ),
                        ..conversation@
                    },
                )
            }),
    {
        if summary.is_empty() {
            return None;
        }
        let mut conversation = conversation;
        let pinned = "Summary of the conversation so far:\n".to_owned().concat(summary);
        let prompt = match &conversation.system_prompt {
            Some(existing) => {
                if trim_text(existing.as_str()).as_str().is_empty() {
                    pinned
                } else {
                    let mut s = existing.clone();
                    s.append("\n\n");
                    s.append(pinned.as_str());
                    s
                }
            },
            None => pinned,
        };
        conversation.system_prompt = Some(prompt);
        Some(conversation)
    }
}

/// The budget never falls below its floor, and a larger window never gets a
/// smaller budget.
pub proof fn law_budget_has_a_floor_and_grows(a: int, b: int)
    requires
        0 <= a <= b,
    ensures
        budget_for(a) >= MIN_CONTEXT_CHARS,
        budget_for(a) <= budget_for(b),
{
}

/// A title is not empty, has no line break and at most forty-nine characters,
/// and the title of a title is the title itself.
pub proof fn law_title_is_a_short_line(text: Seq<char>)
    ensures
        0 < title_spec(text).len() <= TITLE_CHARS + 1,
        is_one_line(title_spec(text)),
        title_spec(title_spec(text)) == title_spec(text),
{
    reveal_strlit("New conversation");
    lemma_first_line(text);
    let line = match first_nonblank(lines(text)) {
        Some(line) => line,
        None => "New conversation"@,
    };
    assert(line.len() > 0 && is_trimmed(line) && is_one_line(line));
    let title = title_spec(text);
    if line.len() > TITLE_CHARS {
        assert(title[0] == line[0]);
        assert(is_one_line(title));
        assert(is_trimmed(title));
        assert(title.take(TITLE_CHARS as int) =~= line.take(TITLE_CHARS as int));
    }
    lemma_first_line(title);
}

/// The one message that asks for a summary says for every message of the history
/// who wrote it and its whole text, in the order of the history, and nothing else
/// behind the instruction.
pub proof fn law_summary_is_asked_of_the_whole_history(
    c: ConversationView,
    history: Seq<MessageView>,
    fresh: Fresh,
)
    ensures
        ({
            let request = summary_request(c, history, fresh);
            let lead = "Summarize this conversation concisely for your own future reference, preserving key facts, decisions, file paths, and open tasks. Write the summary only.\n\n"@;
            &&& request.messages.len() == 1
            &&& request.messages[0].role == MessageRole::User
            &&& request.tools is None
            &&& begins_with(request.messages[0].text_content(), lead)
            &&& laid_out(
                request.messages[0].text_content().skip(lead.len() as int),
                Seq::new(
                    history.len(),
                    |i: int|
                        (match history[i].role {
                            MessageRole::User => "User"@,
                            MessageRole::Assistant => "Assistant"@,
                            MessageRole::Tool => "Tool"@,
                            MessageRole::System => "System"@,
                        }) + ": "@ + history[i].text_content(),
                ),
                "\n"@,
            )
        }),
{
    law_plain_message_holds_its_text(
        fresh.first,
        fresh.at,
        c.id,
        MessageRole::User,
        summary_prompt(history),
        c.mode_at_creation,
        0,
    );
    let entries = Seq::new(
        history.len(),
        |i: int|
            (match history[i].role {
                MessageRole::User => "User"@,
                MessageRole::Assistant => "Assistant"@,
                MessageRole::Tool => "Tool"@,
                MessageRole::System => "System"@,
            }) + ": "@ + history[i].text_content(),
    );
    assert(Seq::new(history.len(), |i: int| transcript_line(history[i])) =~= entries);
    law_joined_texts_hold_every_part(entries, "\n"@);
    let lead = "Summarize this conversation concisely for your own future reference, preserving key facts, decisions, file paths, and open tasks. Write the summary only.\n\n"@;
    assert(summary_prompt(history).skip(lead.len() as int) =~= transcript(history));
}

/// A conversation that has a title keeps it.
pub proof fn law_titles_are_kept(c: ConversationView, first: Seq<char>, second: Seq<char>)
    ensures
        with_title(with_title(c, first), second) == with_title(c, first),
{
}

/// Pinning a summary keeps the instructions that were there, in front.
pub proof fn law_pinning_keeps_instructions(existing: Seq<char>, summary: Seq<char>)
    requires
        trim(existing).len() > 0,
    ensures
        pinned_prompt(Some(existing), summary).take(existing.len() as int) == existing,
{
    assert(pinned_prompt(Some(existing), summary).take(existing.len() as int) =~= existing);
}

/// A title without the mark that it was cut.
pub open spec fn uncut(title: Seq<char>) -> Seq<char> {
    if title.len() <= 48 {
        title
    } else {
        title.take(48)
    }
}

/// A title is how the message begins: it stands in the message, whole or up to forty-eight
/// characters, from the first character other than white space on. A blank message gives
/// the title of a new conversation.
pub proof fn law_title_is_how_the_message_begins(text: Seq<char>)
    ensures
        (forall|i: int| 0 <= i < text.len() ==> char_is_whitespace(#[trigger] text[i]))
            ==> title_spec(text) == "New conversation"@,
        (exists|i: int| 0 <= i < text.len() && !char_is_whitespace(#[trigger] text[i])) ==> exists|
            f: int,
        |
            #[trigger] opens_at(text, uncut(title_spec(text)), 0, f),
{
    reveal_strlit("New conversation");
    law_first_line_begins_the_text(text);
    lemma_first_line(text);
    if let Some(line) = first_nonblank(lines(text)) {
        let f = choose|f: int| #[trigger] opens_at(text, line, 0, f);
        assert(text[f + 0] == line[0]);
        assert(!char_is_whitespace(text[f]));
        let title = title_spec(text);
        if line.len() > 48 {
            assert(title.take(48) =~= line.take(48));
            assert forall|k: int| 0 <= k < 48 implies #[trigger] text[f + k] == line.take(48)[k] by {
                assert(text[f + k] == line[k]);
            }
            assert(opens_at(text, uncut(title), 0, f));
        } else {
            assert(opens_at(text, uncut(title), 0, f));
        }
    }
}

/// A turn begins with the user's message, word for word, and works on that message in the
/// conversation that was found. Only a conversation without a title is given one. Without
/// the conversation there is no turn.
pub proof fn law_turn_begins_with_the_message(
    device_id: Uuid,
    conversation_id: Uuid,
    found: Option<ConversationView>,
    user_text: Seq<char>,
    sequence: i64,
    fresh: Fresh,
)
    ensures
        ({
            let begun = begin_turn(device_id, conversation_id, found, user_text, sequence, fresh);
            &&& found is None ==> begun == Err::<BegunView, ContractErrorView>(
                ContractErrorView::Store(StoreErrorView::NotFound { id: conversation_id }),
            )
            &&& found matches Some(c) ==> (begun matches Ok(b) && {
                &&& b.user_message.role == MessageRole::User
                &&& b.user_message.text_content() == user_text
                &&& b.user_message.conversation_id == conversation_id
                &&& b.user_message.sequence_num == sequence
                &&& b.user_message.id == fresh.first && b.user_message.created_at == fresh.at
                &&& b.user_message.mode == c.mode_at_creation
                &&& b.runner.user_text == user_text
                &&& b.runner.user_message_id == b.user_message.id
                &&& b.runner.mode == c.mode_at_creation && b.runner.device_id == device_id
                &&& b.runner.phase == Phase::Idle && b.runner.steps == 0
                &&& b.runner.trace_id == fresh.second
                &&& c.title is Some ==> b.titled is None && b.runner.conversation == c
                &&& c.title is None ==> (b.titled matches Some(t) && t == b.runner.conversation
                    && t.title is Some && (ConversationView { title: None, ..t }) == c)
            })
        }),
{
    if let Some(c) = found {
        law_plain_message_holds_its_text(
            fresh.first,
            fresh.at,
            conversation_id,
            MessageRole::User,
            user_text,
            c.mode_at_creation,
            sequence,
        );
    }
}

/// Instructions are set as they were given; blank ones count as none. Nothing else of the
/// conversation changes.
pub proof fn law_instructions_are_set_as_given(c: ConversationView, prompt: Option<Seq<char>>)
    ensures
        (ConversationView { system_prompt: c.system_prompt, ..with_prompt(c, prompt) }) == c,
        prompt is None ==> with_prompt(c, prompt).system_prompt is None,
        prompt matches Some(p) ==> if exists|i: int|
            0 <= i < p.len() && !char_is_whitespace(#[trigger] p[i]) {
            with_prompt(c, prompt).system_prompt == Some(p)
        } else {
            with_prompt(c, prompt).system_prompt is None
        },
{
    if let Some(p) = prompt {
        lemma_blank(p);
    }
}

/// A summary is pinned whole, at the end of the instructions.
pub proof fn law_summary_is_pinned_whole(existing: Option<Seq<char>>, summary: Seq<char>)
    ensures
        ({
            let p = pinned_prompt(existing, summary);
            let lead = "Summary of the conversation so far:\n"@;
            let at = p.len() - summary.len();
            &&& stands_at(p, summary, at)
            &&& stands_at(p, lead, at - lead.len())
            &&& existing is None ==> at == lead.len()
            &&& existing matches Some(e) ==> if trim(e).len() > 0 {
                at == e.len() + 2 + lead.len() && stands_at(p, e, 0)
            } else {
                at == lead.len()
            }
        }),
{
    reveal_strlit("\n\n");
}

/// The budget is four characters for each token of the window, between the floor and the
/// largest number.
pub proof fn law_budget_is_four_characters_a_token(tokens: int)
    requires
        0 <= tokens,
    ensures
        2_000 <= tokens * 4 <= usize::MAX ==> budget_for(tokens) == tokens * 4,
        tokens * 4 < 2_000 ==> budget_for(tokens) == 2_000,
        tokens * 4 > usize::MAX ==> budget_for(tokens) == usize::MAX,
{
}

} // verus!
