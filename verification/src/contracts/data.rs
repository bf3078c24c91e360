//! Stored records: conversations, messages, memories, audit events, grants.

use crate::contracts::tooling::DestructiveLevel;
use crate::contracts::types::ComputeMode;
use crate::ident::{is_v4, utc_now, Timestamp, Uuid};
use crate::json::{Json, JsonView};
use crate::model::{clone_opt_string, clone_strings, lemma_views_take, opt, pick, views};
use vstd::prelude::*;

verus! {

/// A conversation.
#[derive(Debug)]
pub struct Conversation {
    pub id: Uuid,
    pub space_id: Option<Uuid>,
    pub title: Option<String>,
    pub created_at: Timestamp,
    pub updated_at: Timestamp,
    pub mode_at_creation: ComputeMode,
    pub system_prompt: Option<String>,
    pub persona_id: Option<Uuid>,
    pub active_checkpoint_id: Option<Uuid>,
}

/// [`Conversation`] as a mathematical value.
pub struct ConversationView {
    pub id: Uuid,
    pub space_id: Option<Uuid>,
    pub title: Option<Seq<char>>,
    pub created_at: Timestamp,
    pub updated_at: Timestamp,
    pub mode_at_creation: ComputeMode,
    pub system_prompt: Option<Seq<char>>,
    pub persona_id: Option<Uuid>,
    pub active_checkpoint_id: Option<Uuid>,
}

impl View for Conversation {
    type V = ConversationView;

    open spec fn view(&self) -> ConversationView {
        ConversationView {
            id: self.id,
            space_id: self.space_id,
            title: opt(self.title),
            created_at: self.created_at,
            updated_at: self.updated_at,
            mode_at_creation: self.mode_at_creation,
            system_prompt: opt(self.system_prompt),
            persona_id: self.persona_id,
            active_checkpoint_id: self.active_checkpoint_id,
        }
    }
}

impl Clone for Conversation {
    fn clone(&self) -> (r: Self)
        ensures
            r@ == self@,
    {
        Conversation {
            id: self.id,
            space_id: self.space_id,
            title: clone_opt_string(&self.title),
            created_at: self.created_at,
            updated_at: self.updated_at,
            mode_at_creation: self.mode_at_creation,
            system_prompt: clone_opt_string(&self.system_prompt),
            persona_id: self.persona_id,
            active_checkpoint_id: self.active_checkpoint_id,
        }
    }
}

impl ConversationView {
    /// An empty conversation with the given identifier, made at the given time.
    pub open spec fn fresh(id: Uuid, now: Timestamp, mode: ComputeMode) -> ConversationView {
        ConversationView {
            id,
            space_id: None,
            title: None,
            created_at: now,
            updated_at: now,
            mode_at_creation: mode,
            system_prompt: None,
            persona_id: None,
            active_checkpoint_id: None,
        }
    }
}

impl Conversation {
    /// A new empty conversation, under a fresh identifier, made now.
    pub fn new(mode: ComputeMode) -> (r: Conversation)
        ensures
            r@ == ConversationView::fresh(r@.id, r@.created_at, mode),
            is_v4(r@.id.0),
            r@.created_at.of_clock(),
    {
        let now = utc_now();
        Conversation {
            id: Uuid::new_v4(),
            space_id: None,
            title: None,
            created_at: now,
            updated_at: now,
            mode_at_creation: mode,
            system_prompt: None,
            persona_id: None,
            active_checkpoint_id: None,
        }
    }
}

#[derive(Clone, Copy, Debug, PartialEq, Eq, Structural)]
pub enum MessageRole {
    User,
    Assistant,
    Tool,
    System,
}

/// A unit of message content.
#[derive(Debug)]
pub enum ContentBlock {
    Text { text: String },
    /// A reasoning block and the signature with which it can be replayed.
    Thinking { thinking: String, signature: String },
    ToolCall { call_id: String, tool_id: String, args: Json },
    ToolResult { call_id: String, output: Json },
    /// An inline image, base64-encoded.
    Image { media_type: String, data: String },
    ArtifactRef { artifact_id: Uuid },
}

/// [`ContentBlock`] as a mathematical value.
pub enum BlockView {
    Text { text: Seq<char> },
    Thinking { thinking: Seq<char>, signature: Seq<char> },
    ToolCall { call_id: Seq<char>, tool_id: Seq<char>, args: JsonView },
    ToolResult { call_id: Seq<char>, output: JsonView },
    Image { media_type: Seq<char>, data: Seq<char> },
    ArtifactRef { artifact_id: Uuid },
}

impl View for ContentBlock {
    type V = BlockView;

    open spec fn view(&self) -> BlockView {
        match self {
            ContentBlock::Text { text } => BlockView::Text { text: text@ },
            ContentBlock::Thinking { thinking, signature } => BlockView::Thinking {
                thinking: thinking@,
                signature: signature@,
            },
            ContentBlock::ToolCall { call_id, tool_id, args } => BlockView::ToolCall {
                call_id: call_id@,
                tool_id: tool_id@,
                args: args@,
            },
            ContentBlock::ToolResult { call_id, output } => BlockView::ToolResult {
                call_id: call_id@,
                output: output@,
            },
            ContentBlock::Image { media_type, data } => BlockView::Image {
                media_type: media_type@,
                data: data@,
            },
            ContentBlock::ArtifactRef { artifact_id } => BlockView::ArtifactRef {
                artifact_id: *artifact_id,
            },
        }
    }
}

impl Clone for ContentBlock {
    fn clone(&self) -> (r: Self)
        ensures
            r@ == self@,
    {
        match self {
            ContentBlock::Text { text } => ContentBlock::Text { text: text.clone() },
            ContentBlock::Thinking { thinking, signature } => ContentBlock::Thinking {
                thinking: thinking.clone(),
                signature: signature.clone(),
            },
            ContentBlock::ToolCall { call_id, tool_id, args } => ContentBlock::ToolCall {
                call_id: call_id.clone(),
                tool_id: tool_id.clone(),
                args: args.clone(),
            },
            ContentBlock::ToolResult { call_id, output } => ContentBlock::ToolResult {
                call_id: call_id.clone(),
                output: output.clone(),
            },
            ContentBlock::Image { media_type, data } => ContentBlock::Image {
                media_type: media_type.clone(),
                data: data.clone(),
            },
            ContentBlock::ArtifactRef { artifact_id } => ContentBlock::ArtifactRef {
                artifact_id: *artifact_id,
            },
        }
    }
}

/// A copy of a list of content blocks.
pub fn clone_blocks(v: &Vec<ContentBlock>) -> (r: Vec<ContentBlock>)
    ensures
        views(r@) == views(v@),
{
    let mut out: Vec<ContentBlock> = Vec::new();
    let mut i: usize = 0;
    while i < v.len()
        invariant
            i <= v.len(),
            out.len() == i,
            forall|j: int| 0 <= j < i ==> out@[j]@ == v@[j]@,
        decreases v.len() - i,
    {
        out.push(v[i].clone());
        i += 1;
    }
    assert(views(out@) =~= views(v@));
    out
}

/// A copy of a list of identifiers.
pub fn clone_ids(v: &Vec<Uuid>) -> (r: Vec<Uuid>)
    ensures
        r@ == v@,
{
    let mut out: Vec<Uuid> = Vec::new();
    let mut i: usize = 0;
    while i < v.len()
        invariant
            i <= v.len(),
            out.len() == i,
            forall|j: int| 0 <= j < i ==> out@[j] == v@[j],
        decreases v.len() - i,
    {
        out.push(v[i]);
        i += 1;
    }
    assert(out@ =~= v@);
    out
}

/// One message in a conversation.
#[derive(Debug)]
pub struct Message {
    pub id: Uuid,
    pub conversation_id: Uuid,
    pub role: MessageRole,
    pub content: Vec<ContentBlock>,
    pub model_id: Option<String>,
    pub mode: ComputeMode,
    pub created_at: Timestamp,
    pub sequence_num: i64,
    pub approval_refs: Vec<Uuid>,
}

/// [`Message`] as a mathematical value.
pub struct MessageView {
    pub id: Uuid,
    pub conversation_id: Uuid,
    pub role: MessageRole,
    pub content: Seq<BlockView>,
    pub model_id: Option<Seq<char>>,
    pub mode: ComputeMode,
    pub created_at: Timestamp,
    pub sequence_num: i64,
    pub approval_refs: Seq<Uuid>,
}

impl View for Message {
    type V = MessageView;

    open spec fn view(&self) -> MessageView {
        MessageView {
            id: self.id,
            conversation_id: self.conversation_id,
            role: self.role,
            content: views(self.content@),
            model_id: opt(self.model_id),
            mode: self.mode,
            created_at: self.created_at,
            sequence_num: self.sequence_num,
            approval_refs: self.approval_refs@,
        }
    }
}

impl Clone for Message {
    fn clone(&self) -> (r: Self)
        ensures
            r@ == self@,
    {
        Message {
            id: self.id,
            conversation_id: self.conversation_id,
            role: self.role,
            content: clone_blocks(&self.content),
            model_id: clone_opt_string(&self.model_id),
            mode: self.mode,
            created_at: self.created_at,
            sequence_num: self.sequence_num,
            approval_refs: clone_ids(&self.approval_refs),
        }
    }
}

/// The concatenation of a sequence of texts.
pub open spec fn concat_all(s: Seq<Seq<char>>) -> Seq<char>
    decreases s.len(),
{
    if s.len() == 0 {
        Seq::empty()
    } else {
        concat_all(s.drop_last()) + s.last()
    }
}

/// The text of a text block.
pub open spec fn block_text(b: BlockView) -> Option<Seq<char>> {
    match b {
        BlockView::Text { text } => Some(text),
        _ => None,
    }
}

/// All text blocks of a content list, one after the other.
pub open spec fn blocks_text(content: Seq<BlockView>) -> Seq<char> {
    concat_all(pick(content, |b: BlockView| block_text(b)))
}

impl MessageView {
    /// A message of one text block.
    pub open spec fn plain(
        id: Uuid,
        created_at: Timestamp,
        conversation_id: Uuid,
        role: MessageRole,
        text: Seq<char>,
        mode: ComputeMode,
        sequence_num: i64,
    ) -> MessageView {
        MessageView {
            id,
            conversation_id,
            role,
            content: seq![BlockView::Text { text }],
            model_id: None,
            mode,
            created_at,
            sequence_num,
            approval_refs: Seq::empty(),
        }
    }

    /// All text blocks, one after the other.
    pub open spec fn text_content(self) -> Seq<char> {
        blocks_text(self.content)
    }

    /// Whether the message holds a tool call.
    pub open spec fn has_tool_call(self) -> bool {
        exists|i: int| 0 <= i < self.content.len() && (#[trigger] self.content[i]) is ToolCall
    }

    /// Whether the message holds a reasoning block.
    pub open spec fn has_thinking(self) -> bool {
        exists|i: int| 0 <= i < self.content.len() && (#[trigger] self.content[i]) is Thinking
    }
}

/// Every text block adds its text to that of a message, in order; other blocks add
/// nothing.
pub proof fn law_each_text_block_is_in_the_text(content: Seq<BlockView>, b: BlockView)
    ensures
        blocks_text(Seq::empty()) == Seq::<char>::empty(),
        blocks_text(content.push(b)) == (match b {
            BlockView::Text { text } => blocks_text(content) + text,
            _ => blocks_text(content),
        }),
{
    let f = |b: BlockView| block_text(b);
    assert(content.push(b).drop_last() =~= content);
    if let BlockView::Text { text } = b {
        let texts = pick(content, f);
        assert(pick(content.push(b), f) == texts.push(text));
        assert(texts.push(text).drop_last() =~= texts);
    }
}

/// The text of two lists of blocks is that of the first and then that of the second.
pub proof fn lemma_blocks_text_adds_up(a: Seq<BlockView>, b: Seq<BlockView>)
    ensures
        blocks_text(a + b) == blocks_text(a) + blocks_text(b),
    decreases b.len(),
{
    if b.len() == 0 {
        assert(a + b =~= a);
        assert(b =~= Seq::empty());
        assert(blocks_text(a) + Seq::<char>::empty() =~= blocks_text(a));
    } else {
        let d = b.drop_last();
        lemma_blocks_text_adds_up(a, d);
        assert((a + d).push(b.last()) =~= a + b);
        assert(d.push(b.last()) =~= b);
        law_each_text_block_is_in_the_text(a + d, b.last());
        law_each_text_block_is_in_the_text(d, b.last());
        if let BlockView::Text { text } = b.last() {
            assert(blocks_text(a) + blocks_text(d) + text =~= blocks_text(a) + (blocks_text(d)
                + text));
        }
    }
}

/// Blocks of which none is text have no text.
pub proof fn lemma_no_text(b: Seq<BlockView>)
    requires
        forall|i: int| 0 <= i < b.len() ==> !(#[trigger] b[i] is Text),
    ensures
        blocks_text(b) == Seq::<char>::empty(),
    decreases b.len(),
{
    if b.len() == 0 {
        assert(b =~= Seq::empty());
    } else {
        let d = b.drop_last();
        assert forall|i: int| 0 <= i < d.len() implies !(#[trigger] d[i] is Text) by {
            assert(d[i] == b[i]);
        }
        lemma_no_text(d);
        assert(d.push(b.last()) =~= b);
        assert(!(b[b.len() - 1] is Text));
        law_each_text_block_is_in_the_text(d, b.last());
    }
}

/// The text of a plain message is the text that it was made of.
pub proof fn law_plain_message_holds_its_text(
    id: Uuid,
    created_at: Timestamp,
    conversation_id: Uuid,
    role: MessageRole,
    text: Seq<char>,
    mode: ComputeMode,
    sequence_num: i64,
)
    ensures
        MessageView::plain(
            id,
            created_at,
            conversation_id,
            role,
            text,
            mode,
            sequence_num,
        ).text_content() == text,
{
    let none: Seq<BlockView> = Seq::empty();
    law_each_text_block_is_in_the_text(none, BlockView::Text { text });
    assert(none.push(BlockView::Text { text }) =~= seq![BlockView::Text { text }]);
    assert(Seq::<char>::empty() + text =~= text);
}

impl Message {
    /// A plain-text message with the given identifier and time.
    pub fn plain(
        id: Uuid,
        created_at: Timestamp,
        conversation_id: Uuid,
        role: MessageRole,
        text: &str,
        mode: ComputeMode,
        sequence_num: i64,
    ) -> (r: Message)
        ensures
            r@ == MessageView::plain(
                id,
                created_at,
                conversation_id,
                role,
                text@,
                mode,
                sequence_num,
            ),
    {
        let r = Message {
            id,
            conversation_id,
            role,
            content: vec![ContentBlock::Text { text: text.to_owned() }],
            model_id: None,
            mode,
            created_at,
            sequence_num,
            approval_refs: Vec::new(),
        };
        assert(views(r.content@) =~= seq![BlockView::Text { text: text@ }]);
        r
    }

    /// A plain-text message, under a fresh identifier, made now.
    pub fn text(
        conversation_id: Uuid,
        role: MessageRole,
        text: &str,
        mode: ComputeMode,
        sequence_num: i64,
    ) -> (r: Message)
        ensures
            r@ == MessageView::plain(
                r@.id,
                r@.created_at,
                conversation_id,
                role,
                text@,
                mode,
                sequence_num,
            ),
            is_v4(r@.id.0),
            r@.created_at.of_clock(),
    {
        Message::plain(
            Uuid::new_v4(),
            utc_now(),
            conversation_id,
            role,
            text,
            mode,
            sequence_num,
        )
    }

    /// All text blocks, one after the other.
    pub fn text_content(&self) -> (r: String)
        ensures
            r@ == self@.text_content(),
    {
        let mut out = String::new();
        let mut i: usize = 0;
        let ghost blocks = self@.content;
        let ghost f = |b: BlockView| block_text(b);
        assert(blocks.take(0) =~= Seq::empty());
        while i < self.content.len()
            invariant
                i <= self.content.len(),
                blocks == views(self.content@),
                f == (|b: BlockView| block_text(b)),
                out@ == concat_all(pick(blocks.take(i as int), f)),
            decreases self.content.len() - i,
        {
            proof {
                lemma_views_take(self.content@, i as int);
                let before = pick(blocks.take(i as int), f);
                if let BlockView::Text { text } = blocks[i as int] {
                    assert(before.push(text).drop_last() =~= before);
                }
            }
            match &self.content[i] {
                ContentBlock::Text { text } => {
                    out.append(text.as_str());
                },
                _ => {},
            }
            i += 1;
        }
        assert(blocks.take(blocks.len() as int) =~= blocks);
        out
    }
}

/// A persistent memory about the user or a project.
#[derive(Debug)]
pub struct MemoryRecord {
    pub id: Uuid,
    pub space_id: Option<Uuid>,
    pub kind: MemoryKind,
    pub content: String,
    pub embedding_ref: Option<Uuid>,
    pub source_message_id: Option<Uuid>,
    pub created_at: Timestamp,
    pub updated_at: Timestamp,
    pub user_visible: bool,
    pub user_confirmed: bool,
}

/// [`MemoryRecord`] as a mathematical value.
pub struct MemoryView {
    pub id: Uuid,
    pub space_id: Option<Uuid>,
    pub kind: MemoryKind,
    pub content: Seq<char>,
    pub embedding_ref: Option<Uuid>,
    pub source_message_id: Option<Uuid>,
    pub created_at: Timestamp,
    pub updated_at: Timestamp,
    pub user_visible: bool,
    pub user_confirmed: bool,
}

impl View for MemoryRecord {
    type V = MemoryView;

    open spec fn view(&self) -> MemoryView {
        MemoryView {
            id: self.id,
            space_id: self.space_id,
            kind: self.kind,
            content: self.content@,
            embedding_ref: self.embedding_ref,
            source_message_id: self.source_message_id,
            created_at: self.created_at,
            updated_at: self.updated_at,
            user_visible: self.user_visible,
            user_confirmed: self.user_confirmed,
        }
    }
}

impl Clone for MemoryRecord {
    fn clone(&self) -> (r: Self)
        ensures
            r@ == self@,
    {
        MemoryRecord {
            id: self.id,
            space_id: self.space_id,
            kind: self.kind,
            content: self.content.clone(),
            embedding_ref: self.embedding_ref,
            source_message_id: self.source_message_id,
            created_at: self.created_at,
            updated_at: self.updated_at,
            user_visible: self.user_visible,
            user_confirmed: self.user_confirmed,
        }
    }
}

#[derive(Clone, Copy, Debug, PartialEq, Eq, Structural)]
pub enum MemoryKind {
    Fact,
    Preference,
    ProjectNote,
    System,
}

/// An installable task playbook written in markdown.
#[derive(Debug)]
pub struct Skill {
    pub id: Uuid,
    pub slug: String,
    pub scope: SkillScope,
    pub source_markdown: String,
    pub installed_by: Uuid,
    pub version: String,
    pub created_at: Timestamp,
    pub updated_at: Timestamp,
}

/// [`Skill`] as a mathematical value.
pub struct SkillView {
    pub id: Uuid,
    pub slug: Seq<char>,
    pub scope: SkillScope,
    pub source_markdown: Seq<char>,
    pub installed_by: Uuid,
    pub version: Seq<char>,
    pub created_at: Timestamp,
    pub updated_at: Timestamp,
}

impl View for Skill {
    type V = SkillView;

    open spec fn view(&self) -> SkillView {
        SkillView {
            id: self.id,
            slug: self.slug@,
            scope: self.scope,
            source_markdown: self.source_markdown@,
            installed_by: self.installed_by,
            version: self.version@,
            created_at: self.created_at,
            updated_at: self.updated_at,
        }
    }
}

impl Clone for Skill {
    fn clone(&self) -> (r: Self)
        ensures
            r@ == self@,
    {
        Skill {
            id: self.id,
            slug: self.slug.clone(),
            scope: self.scope,
            source_markdown: self.source_markdown.clone(),
            installed_by: self.installed_by,
            version: self.version.clone(),
            created_at: self.created_at,
            updated_at: self.updated_at,
        }
    }
}

#[derive(Clone, Copy, Debug, PartialEq, Eq, Structural)]
pub enum SkillScope {
    Global,
    Space(Uuid),
    User(Uuid),
}

/// A unit of work on the cross-device task queue.
#[derive(Debug)]
pub struct TaskItem {
    pub task_id: Uuid,
    pub origin_device: Uuid,
    pub assigned_device: Option<Uuid>,
    pub status: TaskStatus,
    pub summary: String,
    pub capabilities_required: Vec<String>,
    pub created_at: Timestamp,
    pub updated_at: Timestamp,
    pub expires_at: Option<Timestamp>,
}

/// [`TaskItem`] as a mathematical value.
pub struct TaskView {
    pub task_id: Uuid,
    pub origin_device: Uuid,
    pub assigned_device: Option<Uuid>,
    pub status: TaskStatus,
    pub summary: Seq<char>,
    pub capabilities_required: Seq<Seq<char>>,
    pub created_at: Timestamp,
    pub updated_at: Timestamp,
    pub expires_at: Option<Timestamp>,
}

impl View for TaskItem {
    type V = TaskView;

    open spec fn view(&self) -> TaskView {
        TaskView {
            task_id: self.task_id,
            origin_device: self.origin_device,
            assigned_device: self.assigned_device,
            status: self.status,
            summary: self.summary@,
            capabilities_required: views(self.capabilities_required@),
            created_at: self.created_at,
            updated_at: self.updated_at,
            expires_at: self.expires_at,
        }
    }
}

impl Clone for TaskItem {
    fn clone(&self) -> (r: Self)
        ensures
            r@ == self@,
    {
        TaskItem {
            task_id: self.task_id,
            origin_device: self.origin_device,
            assigned_device: self.assigned_device,
            status: self.status,
            summary: self.summary.clone(),
            capabilities_required: clone_strings(&self.capabilities_required),
            created_at: self.created_at,
            updated_at: self.updated_at,
            expires_at: self.expires_at,
        }
    }
}

#[derive(Clone, Copy, Debug, PartialEq, Eq, Structural)]
pub enum TaskStatus {
    Pending,
    Running,
    AwaitingApproval,
    Completed,
    Cancelled,
    Failed,
}

/// A rendered artifact.
#[derive(Debug)]
pub struct Artifact {
    pub id: Uuid,
    pub conversation_id: Option<Uuid>,
    pub kind: String,
    pub content_type: String,
    pub bytes: Vec<u8>,
    pub created_at: Timestamp,
}

/// [`Artifact`] as a mathematical value.
pub struct ArtifactView {
    pub id: Uuid,
    pub conversation_id: Option<Uuid>,
    pub kind: Seq<char>,
    pub content_type: Seq<char>,
    pub bytes: Seq<u8>,
    pub created_at: Timestamp,
}

impl View for Artifact {
    type V = ArtifactView;

    open spec fn view(&self) -> ArtifactView {
        ArtifactView {
            id: self.id,
            conversation_id: self.conversation_id,
            kind: self.kind@,
            content_type: self.content_type@,
            bytes: self.bytes@,
            created_at: self.created_at,
        }
    }
}

impl Clone for Artifact {
    fn clone(&self) -> (r: Self)
        ensures
            r@ == self@,
    {
        Artifact {
            id: self.id,
            conversation_id: self.conversation_id,
            kind: self.kind.clone(),
            content_type: self.content_type.clone(),
            bytes: crate::contracts::connectivity::clone_bytes(&self.bytes),
            created_at: self.created_at,
        }
    }
}

/// A namespaced setting.
#[derive(Debug)]
pub struct Setting {
    pub key: String,
    pub value: Json,
    pub updated_at: Timestamp,
}

/// [`Setting`] as a mathematical value.
pub struct SettingView {
    pub key: Seq<char>,
    pub value: JsonView,
    pub updated_at: Timestamp,
}

impl View for Setting {
    type V = SettingView;

    open spec fn view(&self) -> SettingView {
        SettingView { key: self.key@, value: self.value@, updated_at: self.updated_at }
    }
}

impl Clone for Setting {
    fn clone(&self) -> (r: Self)
        ensures
            r@ == self@,
    {
        Setting { key: self.key.clone(), value: self.value.clone(), updated_at: self.updated_at }
    }
}

/// A serialized conversation checkpoint for handing a conversation over.
#[derive(Debug)]
pub struct Checkpoint {
    pub id: Uuid,
    pub conversation_id: Uuid,
    pub captured_at: Timestamp,
    pub mode_at_capture: ComputeMode,
    /// Opaque serialized engine state.
    pub state: Json,
}

/// [`Checkpoint`] as a mathematical value.
pub struct CheckpointView {
    pub id: Uuid,
    pub conversation_id: Uuid,
    pub captured_at: Timestamp,
    pub mode_at_capture: ComputeMode,
    pub state: JsonView,
}

impl View for Checkpoint {
    type V = CheckpointView;

    open spec fn view(&self) -> CheckpointView {
        CheckpointView {
            id: self.id,
            conversation_id: self.conversation_id,
            captured_at: self.captured_at,
            mode_at_capture: self.mode_at_capture,
            state: self.state@,
        }
    }
}

impl Clone for Checkpoint {
    fn clone(&self) -> (r: Self)
        ensures
            r@ == self@,
    {
        Checkpoint {
            id: self.id,
            conversation_id: self.conversation_id,
            captured_at: self.captured_at,
            mode_at_capture: self.mode_at_capture,
            state: self.state.clone(),
        }
    }
}

/// One entry of the audit log.
#[derive(Debug)]
pub struct AuditEvent {
    pub event_id: Uuid,
    pub device_id: Uuid,
    pub session_id: Option<Uuid>,
    pub event_type: AuditEventType,
    pub actor: AuditActor,
    pub resource_ref: Option<String>,
    pub outcome: AuditOutcome,
    pub metadata: Json,
    pub timestamp: Timestamp,
    /// Link to the previous event's hash, in hex. Empty for the first event.
    pub prev_hash: String,
}

/// [`AuditEvent`] as a mathematical value.
pub struct AuditView {
    pub event_id: Uuid,
    pub device_id: Uuid,
    pub session_id: Option<Uuid>,
    pub event_type: AuditEventType,
    pub actor: AuditActor,
    pub resource_ref: Option<Seq<char>>,
    pub outcome: AuditOutcome,
    pub metadata: JsonView,
    pub timestamp: Timestamp,
    pub prev_hash: Seq<char>,
}

impl View for AuditEvent {
    type V = AuditView;

    open spec fn view(&self) -> AuditView {
        AuditView {
            event_id: self.event_id,
            device_id: self.device_id,
            session_id: self.session_id,
            event_type: self.event_type,
            actor: self.actor,
            resource_ref: opt(self.resource_ref),
            outcome: self.outcome,
            metadata: self.metadata@,
            timestamp: self.timestamp,
            prev_hash: self.prev_hash@,
        }
    }
}

impl Clone for AuditEvent {
    fn clone(&self) -> (r: Self)
        ensures
            r@ == self@,
    {
        AuditEvent {
            event_id: self.event_id,
            device_id: self.device_id,
            session_id: self.session_id,
            event_type: self.event_type,
            actor: self.actor,
            resource_ref: clone_opt_string(&self.resource_ref),
            outcome: self.outcome,
            metadata: self.metadata.clone(),
            timestamp: self.timestamp,
            prev_hash: self.prev_hash.clone(),
        }
    }
}

#[derive(Clone, Copy, Debug, PartialEq, Eq, Structural)]
pub enum AuditEventType {
    ToolCall,
    FileAccess,
    UiAction,
    SyncOp,
    PermissionChange,
    HardRuleBlock,
    ApprovalWall,
}

#[derive(Clone, Copy, Debug, PartialEq, Eq, Structural)]
pub enum AuditActor {
    User,
    Agent,
    System,
}

#[derive(Clone, Copy, Debug, PartialEq, Eq, Structural)]
pub enum AuditOutcome {
    Allowed,
    Denied,
    Pending,
}

/// A permission that the user has granted or denied.
#[derive(Debug)]
pub struct PermissionGrant {
    pub grant_id: Uuid,
    pub subject: PermissionSubject,
    pub scope: Vec<String>,
    pub tier: PermissionTier,
    pub access_level: AccessLevel,
    pub device_id: Uuid,
    pub prompt_text: String,
    pub granted_at: Timestamp,
    pub expires_at: Option<Timestamp>,
    pub revoked_at: Option<Timestamp>,
}

/// [`PermissionGrant`] as a mathematical value.
pub struct GrantView {
    pub grant_id: Uuid,
    pub subject: SubjectView,
    pub scope: Seq<Seq<char>>,
    pub tier: PermissionTier,
    pub access_level: AccessLevel,
    pub device_id: Uuid,
    pub prompt_text: Seq<char>,
    pub granted_at: Timestamp,
    pub expires_at: Option<Timestamp>,
    pub revoked_at: Option<Timestamp>,
}

impl View for PermissionGrant {
    type V = GrantView;

    open spec fn view(&self) -> GrantView {
        GrantView {
            grant_id: self.grant_id,
            subject: self.subject@,
            scope: views(self.scope@),
            tier: self.tier,
            access_level: self.access_level,
            device_id: self.device_id,
            prompt_text: self.prompt_text@,
            granted_at: self.granted_at,
            expires_at: self.expires_at,
            revoked_at: self.revoked_at,
        }
    }
}

impl Clone for PermissionGrant {
    fn clone(&self) -> (r: Self)
        ensures
            r@ == self@,
    {
        PermissionGrant {
            grant_id: self.grant_id,
            subject: self.subject.clone(),
            scope: clone_strings(&self.scope),
            tier: self.tier,
            access_level: self.access_level,
            device_id: self.device_id,
            prompt_text: self.prompt_text.clone(),
            granted_at: self.granted_at,
            expires_at: self.expires_at,
            revoked_at: self.revoked_at,
        }
    }
}

#[derive(Debug)]
pub enum PermissionSubject {
    Tool(String),
    Feature(String),
}

/// [`PermissionSubject`] as a mathematical value.
pub enum SubjectView {
    Tool(Seq<char>),
    Feature(Seq<char>),
}

impl View for PermissionSubject {
    type V = SubjectView;

    open spec fn view(&self) -> SubjectView {
        match self {
            PermissionSubject::Tool(s) => SubjectView::Tool(s@),
            PermissionSubject::Feature(s) => SubjectView::Feature(s@),
        }
    }
}

impl Clone for PermissionSubject {
    fn clone(&self) -> (r: Self)
        ensures
            r@ == self@,
    {
        match self {
            PermissionSubject::Tool(s) => PermissionSubject::Tool(s.clone()),
            PermissionSubject::Feature(s) => PermissionSubject::Feature(s.clone()),
        }
    }
}

impl PermissionSubject {
    /// Whether two subjects are the same.
    pub fn same(&self, other: &PermissionSubject) -> (r: bool)
        ensures
            r == (self@ == other@),
    {
        match (self, other) {
            (PermissionSubject::Tool(a), PermissionSubject::Tool(b)) => *a == *b,
            (PermissionSubject::Feature(a), PermissionSubject::Feature(b)) => *a == *b,
            _ => false,
        }
    }
}

#[derive(Clone, Copy, Debug, PartialEq, Eq, Structural)]
pub enum PermissionTier {
    AllowOnce,
    AllowAlways,
    Deny,
}

#[derive(Clone, Copy, Debug, PartialEq, Eq, Structural)]
pub enum AccessLevel {
    ReadOnly,
    Click,
    Full,
}

/// A pending approval request surfaced to the user.
#[derive(Debug)]
pub struct ApprovalRequest {
    pub id: Uuid,
    pub conversation_id: Uuid,
    pub message_id: Uuid,
    pub tool_invocation_id: Uuid,
    pub action_summary: String,
    pub destructive_level: DestructiveLevel,
    pub expires_at: Option<Timestamp>,
    pub status: ApprovalStatus,
}

#[derive(Clone, Copy, Debug, PartialEq, Eq, Structural)]
pub enum ApprovalStatus {
    Pending,
    Approved,
    Denied,
    TimedOut,
}

/// A user's response to an [`ApprovalRequest`].
#[derive(Clone, Copy, Debug, PartialEq, Eq, Structural)]
pub struct ApprovalResponse {
    pub request_id: Uuid,
    pub decision: ApprovalDecision,
    pub responded_at: Timestamp,
    pub device_id: Uuid,
}

#[derive(Clone, Copy, Debug, PartialEq, Eq, Structural)]
pub enum ApprovalDecision {
    Approve,
    Deny,
    AllowAlways,
}

} // verus!
