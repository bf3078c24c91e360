//! A deterministic provider and a store kept in memory.

use crate::compute::on_device::{
    echo_reply, last_text, law_echo_is_of_the_last_user_message, law_words_add_up, split_words,
    words,
};
use crate::contracts::compute::{
    CanHandleResult, ChunkView, FinishReason, InferenceChunk, InferenceRequest, RequestView,
};
use crate::contracts::data::{
    concat_all, Artifact, ArtifactView, AuditEvent, AuditView, Checkpoint, CheckpointView,
    Conversation, ConversationView, GrantView, MemoryRecord, MemoryView, Message, MessageRole,
    MessageView, PermissionGrant,
    PermissionSubject, Setting, SettingView, Skill, SkillScope, SkillView, SubjectView, TaskItem,
    TaskView,
};
use crate::contracts::types::{
    CapabilitySet, ComputeMode, LimitationLabel, LimitationView, ModelDescriptor,
    ModelDescriptorView, ModelSource, ModelSourceView, PerfProfile,
};
use crate::data::store::memory_matches;
use crate::ident::{utc_now, Timestamp, Uuid};
use crate::model::{
    in_order, insert_by, lemma_insert_by, lemma_pick_filter, lemma_pick_take, lemma_same_filter,
    lemma_sort, lemma_views_push, lemma_views_take, opt, pick, sort_by, total_preorder, views,
};
use crate::table::{found, with_record, Record, Table};
use crate::text::{lowercase, str_eq, text_contains, to_lowercase};
use vstd::prelude::*;

verus! {

impl Record for Conversation {
    open spec fn key_of(v: ConversationView) -> Uuid {
        v.id
    }

    fn key(&self) -> (r: Uuid) {
        self.id
    }
}

impl Record for MemoryRecord {
    open spec fn key_of(v: MemoryView) -> Uuid {
        v.id
    }

    fn key(&self) -> (r: Uuid) {
        self.id
    }
}

impl Record for Skill {
    open spec fn key_of(v: SkillView) -> Uuid {
        v.id
    }

    fn key(&self) -> (r: Uuid) {
        self.id
    }
}

impl Record for TaskItem {
    open spec fn key_of(v: TaskView) -> Uuid {
        v.task_id
    }

    fn key(&self) -> (r: Uuid) {
        self.task_id
    }
}

impl Record for Artifact {
    open spec fn key_of(v: ArtifactView) -> Uuid {
        v.id
    }

    fn key(&self) -> (r: Uuid) {
        self.id
    }
}

/// A copy of the first records of a list, up to a limit.
pub open spec fn at_most<V>(s: Seq<V>, limit: int) -> Seq<V> {
    if s.len() <= limit {
        s
    } else {
        s.take(limit)
    }
}

fn cut<T: View>(rows: Vec<T>, limit: usize) -> (r: Vec<T>)
    ensures
        views(r@) == at_most(views(rows@), limit as int),
{
    let mut rows = rows;
    let ghost all = rows@;
    if rows.len() > limit {
        rows.truncate(limit);
        assert(views(rows@) =~= views(all).take(limit as int));
    }
    rows
}

/// The last records of a list, up to a limit.
pub open spec fn latest<V>(s: Seq<V>, limit: int) -> Seq<V> {
    if s.len() <= limit {
        s
    } else {
        s.skip(s.len() - limit)
    }
}

fn keep_latest<T: View>(rows: Vec<T>, limit: usize) -> (r: Vec<T>)
    ensures
        views(r@) == latest(views(rows@), limit as int),
{
    let mut rows = rows;
    let ghost all = rows@;
    if rows.len() > limit {
        let kept = rows.split_off(rows.len() - limit);
        assert(views(kept@) =~= views(all).skip(all.len() - limit));
        kept
    } else {
        rows
    }
}

/// Whether a conversation may stand before another in a list: the one changed
/// later comes first.
pub open spec fn newest_first() -> spec_fn(ConversationView, ConversationView) -> bool {
    |a: ConversationView, b: ConversationView| !a.updated_at.before_spec(b.updated_at)
}

/// Puts a conversation behind those changed no earlier than it.
fn insert_conversation(out: &mut Vec<Conversation>, conv: Conversation)
    ensures
        views(final(out)@) == insert_by(views(old(out)@), conv@, newest_first()),
{
    let ghost before = views(out@);
    let ghost v = conv@;
    let ghost le = newest_first();
    let mut pos: usize = out.len();
    while pos > 0 && out[pos - 1].updated_at.before(&conv.updated_at)
        invariant
            pos <= out.len(),
            before == views(out@),
            v == conv@,
            le == newest_first(),
            forall|i: int| pos <= i < out.len() ==> !le(#[trigger] before[i], v),
        decreases pos,
    {
        assert(!le(before[pos - 1], v));
        pos -= 1;
    }
    proof {
        if pos > 0 {
            assert(le(before[pos - 1], v));
        }
        lemma_insert_by(before, v, le, pos as int);
    }
    let ghost rows = out@;
    out.insert(pos, conv);
    assert(views(out@) =~= views(rows).insert(pos as int, v));
}

impl Table<Conversation> {
    /// The conversations changed last, newest first, up to a limit.
    pub fn list(&self, limit: usize) -> (r: Vec<Conversation>)
        ensures
            views(r@) == at_most(sort_by(self@, newest_first()), limit as int),
    {
        let rows = self.rows();
        let ghost all = self@;
        let ghost le = newest_first();
        let mut out: Vec<Conversation> = Vec::new();
        let mut i: usize = 0;
        assert(all.take(0) =~= Seq::empty());
        assert(views(out@) =~= sort_by(all.take(0), le));
        while i < rows.len()
            invariant
                i <= rows.len(),
                all == views(rows@),
                le == newest_first(),
                views(out@) == sort_by(all.take(i as int), le),
            decreases rows.len() - i,
        {
            proof {
                lemma_views_take(rows@, i as int);
            }
            insert_conversation(&mut out, rows[i].clone());
            i += 1;
        }
        assert(all.take(all.len() as int) =~= all);
        cut(out, limit)
    }
}

/// The messages of conversations, in the order in which they were written.
pub struct MessageLog {
    rows: Vec<Message>,
}

impl View for MessageLog {
    type V = Seq<MessageView>;

    closed spec fn view(&self) -> Seq<MessageView> {
        views(self.rows@)
    }
}

/// A message, where it is of the given conversation.
pub open spec fn of_conversation(v: MessageView, id: Uuid) -> Option<MessageView> {
    if v.conversation_id == id {
        Some(v)
    } else {
        None
    }
}

/// The messages of a conversation, as they were written.
pub open spec fn messages_of(s: Seq<MessageView>, id: Uuid) -> Seq<MessageView> {
    pick(s, |v: MessageView| of_conversation(v, id))
}

/// Whether a message may stand before another: the one with the lower number
/// comes first.
pub open spec fn by_number() -> spec_fn(MessageView, MessageView) -> bool {
    |a: MessageView, b: MessageView| a.sequence_num <= b.sequence_num
}

/// The greatest number of a list of messages.
pub open spec fn greatest_number(s: Seq<MessageView>) -> Option<i64>
    decreases s.len(),
{
    if s.len() == 0 {
        None
    } else {
        match greatest_number(s.drop_last()) {
            None => Some(s.last().sequence_num),
            Some(n) => Some(
                if s.last().sequence_num >= n {
                    s.last().sequence_num
                } else {
                    n
                },
            ),
        }
    }
}

/// The number of the next message: one behind the greatest, or zero where there
/// is none.
pub open spec fn next_number(s: Seq<MessageView>) -> int {
    match greatest_number(s) {
        Some(n) => n + 1,
        None => 0,
    }
}

fn insert_message(out: &mut Vec<Message>, msg: Message)
    ensures
        views(final(out)@) == insert_by(views(old(out)@), msg@, by_number()),
{
    let ghost before = views(out@);
    let ghost v = msg@;
    let ghost le = by_number();
    let mut pos: usize = out.len();
    while pos > 0 && out[pos - 1].sequence_num > msg.sequence_num
        invariant
            pos <= out.len(),
            before == views(out@),
            v == msg@,
            le == by_number(),
            forall|i: int| pos <= i < out.len() ==> !le(#[trigger] before[i], v),
        decreases pos,
    {
        assert(!le(before[pos - 1], v));
        pos -= 1;
    }
    proof {
        if pos > 0 {
            assert(le(before[pos - 1], v));
        }
        lemma_insert_by(before, v, le, pos as int);
    }
    let ghost rows = out@;
    out.insert(pos, msg);
    assert(views(out@) =~= views(rows).insert(pos as int, v));
}

impl MessageLog {
    /// No messages.
    pub fn new() -> (r: MessageLog)
        ensures
            r@ == Seq::<MessageView>::empty(),
    {
        let r = MessageLog { rows: Vec::new() };
        assert(views(r.rows@) =~= Seq::<MessageView>::empty());
        r
    }

    /// Writes a message behind the others.
    pub fn append(&mut self, msg: Message)
        ensures
            final(self)@ == old(self)@.push(msg@),
    {
        proof {
            lemma_views_push(self.rows@, msg);
        }
        self.rows.push(msg);
    }

    /// The latest messages of a conversation, up to a limit, by their numbers.
    pub fn range(&self, conversation_id: Uuid, limit: usize) -> (r: Vec<Message>)
        ensures
            views(r@) == latest(
                sort_by(messages_of(self@, conversation_id), by_number()),
                limit as int,
            ),
    {
        let ghost all = self@;
        let ghost f = |v: MessageView| of_conversation(v, conversation_id);
        let ghost le = by_number();
        let mut out: Vec<Message> = Vec::new();
        let mut i: usize = 0;
        assert(all.take(0) =~= Seq::empty());
        assert(views(out@) =~= sort_by(pick(all.take(0), f), le));
        while i < self.rows.len()
            invariant
                i <= self.rows.len(),
                all == views(self.rows@),
                f == (|v: MessageView| of_conversation(v, conversation_id)),
                le == by_number(),
                views(out@) == sort_by(pick(all.take(i as int), f), le),
            decreases self.rows.len() - i,
        {
            proof {
                lemma_pick_take(all, f, i as int);
                let picked = pick(all.take(i as int), f);
                assert(picked.push(all[i as int]).drop_last() =~= picked);
            }
            if self.rows[i].conversation_id == conversation_id {
                insert_message(&mut out, self.rows[i].clone());
            }
            i += 1;
        }
        assert(all.take(all.len() as int) =~= all);
        keep_latest(out, limit)
    }

    /// The number of the next message of a conversation: one behind the
    /// greatest, or zero where there is no message.
    pub fn next_sequence(&self, conversation_id: Uuid) -> (r: i64)
        requires
            next_number(messages_of(self@, conversation_id)) <= i64::MAX,
        ensures
            r == next_number(messages_of(self@, conversation_id)),
    {
        let ghost all = self@;
        let ghost f = |v: MessageView| of_conversation(v, conversation_id);
        let mut max: Option<i64> = None;
        let mut i: usize = 0;
        assert(all.take(0) =~= Seq::empty());
        while i < self.rows.len()
            invariant
                i <= self.rows.len(),
                all == views(self.rows@),
                f == (|v: MessageView| of_conversation(v, conversation_id)),
                max == greatest_number(pick(all.take(i as int), f)),
            decreases self.rows.len() - i,
        {
            proof {
                lemma_pick_take(all, f, i as int);
                let picked = pick(all.take(i as int), f);
                assert(picked.push(all[i as int]).drop_last() =~= picked);
            }
            if self.rows[i].conversation_id == conversation_id {
                let n: i64 = self.rows[i].sequence_num;
                max = match max {
                    Some(m) => if n >= m {
                        Some(n)
                    } else {
                        Some(m)
                    },
                    None => Some(n),
                };
            }
            i += 1;
        }
        assert(all.take(all.len() as int) =~= all);
        crate::data::store::next_sequence(max)
    }
}

/// A memory, where a search in a space for a text finds it.
pub open spec fn memory_found(v: MemoryView, query: Seq<char>, space: Option<Uuid>) -> Option<
    MemoryView,
> {
    if (space is None || v.space_id == space) && memory_matches(v.content, query) {
        Some(v)
    } else {
        None
    }
}

impl Table<MemoryRecord> {
    /// The memories whose content holds a text, compared in lower case, of one
    /// space or of all, up to a limit.
    pub fn semantic_search(&self, query: &str, space_id: Option<Uuid>, limit: usize) -> (r: Vec<
        MemoryRecord,
    >)
        ensures
            views(r@) == at_most(
                pick(self@, |v: MemoryView| memory_found(v, query@, space_id)),
                limit as int,
            ),
    {
        let rows = self.rows();
        let q = to_lowercase(query);
        let ghost all = self@;
        let ghost f = |v: MemoryView| memory_found(v, query@, space_id);
        let mut out: Vec<MemoryRecord> = Vec::new();
        let mut i: usize = 0;
        assert(all.take(0) =~= Seq::empty());
        assert(views(out@) =~= pick(all.take(0), f));
        while i < rows.len()
            invariant
                i <= rows.len(),
                all == views(rows@),
                f == (|v: MemoryView| memory_found(v, query@, space_id)),
                q@ == lowercase(query@),
                views(out@) == pick(all.take(i as int), f),
            decreases rows.len() - i,
        {
            let row = &rows[i];
            proof {
                lemma_pick_take(all, f, i as int);
            }
            if (space_id.is_none() || row.space_id == space_id) && (q.as_str().is_empty() || text_contains(
                to_lowercase(row.content.as_str()).as_str(),
                q.as_str(),
            )) {
                let copy = row.clone();
                proof {
                    lemma_views_push(out@, copy);
                }
                out.push(copy);
            }
            i += 1;
        }
        assert(all.take(all.len() as int) =~= all);
        cut(out, limit)
    }
}

/// A skill, where it is of the given scope.
pub open spec fn of_scope(v: SkillView, scope: SkillScope) -> Option<SkillView> {
    if v.scope == scope {
        Some(v)
    } else {
        None
    }
}

impl Table<Skill> {
    /// The skills of a scope.
    pub fn list_by_scope(&self, scope: SkillScope) -> (r: Vec<Skill>)
        ensures
            views(r@) == pick(self@, |v: SkillView| of_scope(v, scope)),
    {
        let rows = self.rows();
        let ghost all = self@;
        let ghost f = |v: SkillView| of_scope(v, scope);
        let mut out: Vec<Skill> = Vec::new();
        let mut i: usize = 0;
        assert(all.take(0) =~= Seq::empty());
        assert(views(out@) =~= pick(all.take(0), f));
        while i < rows.len()
            invariant
                i <= rows.len(),
                all == views(rows@),
                f == (|v: SkillView| of_scope(v, scope)),
                views(out@) == pick(all.take(i as int), f),
            decreases rows.len() - i,
        {
            let row = &rows[i];
            proof {
                lemma_pick_take(all, f, i as int);
            }
            if row.scope == scope {
                let copy = row.clone();
                proof {
                    lemma_views_push(out@, copy);
                }
                out.push(copy);
            }
            i += 1;
        }
        assert(all.take(all.len() as int) =~= all);
        out
    }
}

impl Table<TaskItem> {
    /// The tasks, up to a limit.
    pub fn list(&self, limit: usize) -> (r: Vec<TaskItem>)
        ensures
            views(r@) == at_most(self@, limit as int),
    {
        let rows = self.rows();
        let mut out: Vec<TaskItem> = Vec::new();
        let mut i: usize = 0;
        while i < rows.len()
            invariant
                i <= rows.len(),
                out.len() == i,
                forall|j: int| 0 <= j < i ==> out@[j]@ == rows@[j]@,
            decreases rows.len() - i,
        {
            out.push(rows[i].clone());
            i += 1;
        }
        assert(views(out@) =~= views(rows@));
        cut(out, limit)
    }
}

impl Table<Artifact> {
    /// Writes an artifact, over that of the same identifier where there is one.
    pub fn write(&mut self, artifact: Artifact)
        ensures
            final(self)@ == with_record::<Artifact>(old(self)@, artifact@),
    {
        self.upsert(artifact);
    }

    /// The artifact with an identifier.
    pub fn read(&self, id: Uuid) -> (r: Option<Artifact>)
        ensures
            opt(r) == found::<Artifact>(self@, id),
    {
        match self.get(id) {
            Some(a) => Some(a.clone()),
            None => None,
        }
    }
}

/// Settings, one for each name.
pub struct SettingTable {
    rows: Vec<Setting>,
}

impl View for SettingTable {
    type V = Seq<SettingView>;

    closed spec fn view(&self) -> Seq<SettingView> {
        views(self.rows@)
    }
}

/// The setting of a name: the last that was set.
pub open spec fn setting_of(s: Seq<SettingView>, key: Seq<char>) -> Option<SettingView>
    decreases s.len(),
{
    if s.len() == 0 {
        None
    } else if s.last().key == key {
        Some(s.last())
    } else {
        setting_of(s.drop_last(), key)
    }
}

impl SettingTable {
    /// No settings.
    pub fn new() -> (r: SettingTable)
        ensures
            forall|key: Seq<char>| #[trigger] setting_of(r@, key) is None,
    {
        SettingTable { rows: Vec::new() }
    }

    /// The setting of a name.
    pub fn get(&self, key: &str) -> (r: Option<Setting>)
        ensures
            opt(r) == setting_of(self@, key@),
    {
        let ghost all = self@;
        let mut i: usize = self.rows.len();
        assert(all.take(all.len() as int) =~= all);
        while i > 0
            invariant
                i <= self.rows.len(),
                all == views(self.rows@),
                setting_of(all, key@) == setting_of(all.take(i as int), key@),
            decreases i,
        {
            i -= 1;
            proof {
                lemma_views_take(self.rows@, i as int);
            }
            if str_eq(self.rows[i].key.as_str(), key) {
                return Some(self.rows[i].clone());
            }
        }
        None
    }

    /// Sets a setting; every other keeps its value.
    pub fn set(&mut self, setting: Setting)
        ensures
            forall|key: Seq<char>| #[trigger]
                setting_of(final(self)@, key) == (if key == setting@.key {
                    Some(setting@)
                } else {
                    setting_of(old(self)@, key)
                }),
    {
        let ghost v = setting@;
        let ghost before = self@;
        proof {
            lemma_views_push(self.rows@, setting);
        }
        self.rows.push(setting);
        assert(self@ == before.push(v));
        assert(self@.drop_last() =~= before);
    }
}

/// Checkpoints, in the order in which they were written.
pub struct CheckpointLog {
    rows: Vec<Checkpoint>,
}

impl View for CheckpointLog {
    type V = Seq<CheckpointView>;

    closed spec fn view(&self) -> Seq<CheckpointView> {
        views(self.rows@)
    }
}

/// The checkpoint of a conversation that was captured last; of several at one
/// time, the one written last.
pub open spec fn latest_of(s: Seq<CheckpointView>, id: Uuid) -> Option<CheckpointView>
    decreases s.len(),
{
    if s.len() == 0 {
        None
    } else {
        let before = latest_of(s.drop_last(), id);
        let c = s.last();
        if c.conversation_id != id {
            before
        } else {
            match before {
                Some(b) => if c.captured_at.before_spec(b.captured_at) {
                    Some(b)
                } else {
                    Some(c)
                },
                None => Some(c),
            }
        }
    }
}

impl CheckpointLog {
    /// No checkpoints.
    pub fn new() -> (r: CheckpointLog)
        ensures
            r@ == Seq::<CheckpointView>::empty(),
    {
        let r = CheckpointLog { rows: Vec::new() };
        assert(views(r.rows@) =~= Seq::<CheckpointView>::empty());
        r
    }

    /// Writes a checkpoint.
    pub fn write(&mut self, checkpoint: Checkpoint)
        ensures
            final(self)@ == old(self)@.push(checkpoint@),
    {
        proof {
            lemma_views_push(self.rows@, checkpoint);
        }
        self.rows.push(checkpoint);
    }

    /// The checkpoint of a conversation that was captured last.
    pub fn latest(&self, conversation_id: Uuid) -> (r: Option<Checkpoint>)
        ensures
            opt(r) == latest_of(self@, conversation_id),
    {
        let ghost all = self@;
        let mut best: Option<usize> = None;
        let mut i: usize = 0;
        assert(all.take(0) =~= Seq::empty());
        while i < self.rows.len()
            invariant
                i <= self.rows.len(),
                all == views(self.rows@),
                best matches Some(b) ==> b < i,
                latest_of(all.take(i as int), conversation_id) == (match best {
                    Some(b) => Some(all[b as int]),
                    None => None,
                }),
            decreases self.rows.len() - i,
        {
            proof {
                lemma_views_take(self.rows@, i as int);
            }
            if self.rows[i].conversation_id == conversation_id {
                best = match best {
                    Some(b) => if self.rows[i].captured_at.before(&self.rows[b].captured_at) {
                        Some(b)
                    } else {
                        Some(i)
                    },
                    None => Some(i),
                };
            }
            i += 1;
        }
        assert(all.take(all.len() as int) =~= all);
        match best {
            Some(b) => Some(self.rows[b].clone()),
            None => None,
        }
    }
}

/// Audit events, in the order in which they were written.
pub struct AuditTrail {
    rows: Vec<AuditEvent>,
}

impl View for AuditTrail {
    type V = Seq<AuditView>;

    closed spec fn view(&self) -> Seq<AuditView> {
        views(self.rows@)
    }
}

/// An event, where it is of the given session or none is given.
pub open spec fn of_session(v: AuditView, session: Option<Uuid>) -> Option<AuditView> {
    if session is None || v.session_id == session {
        Some(v)
    } else {
        None
    }
}

impl AuditTrail {
    /// No events.
    pub fn new() -> (r: AuditTrail)
        ensures
            r@ == Seq::<AuditView>::empty(),
    {
        let r = AuditTrail { rows: Vec::new() };
        assert(views(r.rows@) =~= Seq::<AuditView>::empty());
        r
    }

    /// Writes an event.
    pub fn append(&mut self, event: AuditEvent)
        ensures
            final(self)@ == old(self)@.push(event@),
    {
        proof {
            lemma_views_push(self.rows@, event);
        }
        self.rows.push(event);
    }

    /// The events of a session, or all, up to a limit.
    pub fn query(&self, session_id: Option<Uuid>, limit: usize) -> (r: Vec<AuditEvent>)
        ensures
            views(r@) == at_most(
                pick(self@, |v: AuditView| of_session(v, session_id)),
                limit as int,
            ),
    {
        let ghost all = self@;
        let ghost f = |v: AuditView| of_session(v, session_id);
        let mut out: Vec<AuditEvent> = Vec::new();
        let mut i: usize = 0;
        assert(all.take(0) =~= Seq::empty());
        assert(views(out@) =~= pick(all.take(0), f));
        while i < self.rows.len()
            invariant
                i <= self.rows.len(),
                all == views(self.rows@),
                f == (|v: AuditView| of_session(v, session_id)),
                views(out@) == pick(all.take(i as int), f),
            decreases self.rows.len() - i,
        {
            let row = &self.rows[i];
            proof {
                lemma_pick_take(all, f, i as int);
            }
            if session_id.is_none() || row.session_id == session_id {
                let copy = row.clone();
                proof {
                    lemma_views_push(out@, copy);
                }
                out.push(copy);
            }
            i += 1;
        }
        assert(all.take(all.len() as int) =~= all);
        cut(out, limit)
    }
}

/// Permission grants, in the order in which they were granted.
pub struct GrantBook {
    rows: Vec<PermissionGrant>,
}

impl View for GrantBook {
    type V = Seq<GrantView>;

    closed spec fn view(&self) -> Seq<GrantView> {
        views(self.rows@)
    }
}

/// Whether a grant is of a subject and stands.
pub open spec fn stands(v: GrantView, subject: SubjectView) -> bool {
    v.subject == subject && v.revoked_at is None
}

/// The grants with the first one of an identifier revoked.
pub open spec fn revoked(s: Seq<GrantView>, id: Uuid, at: Timestamp) -> Seq<GrantView>
    decreases s.len(),
{
    if s.len() == 0 {
        s
    } else if s[0].grant_id == id {
        s.update(0, GrantView { revoked_at: Some(at), ..s[0] })
    } else {
        seq![s[0]] + revoked(s.skip(1), id, at)
    }
}

/// Where the first grant of an identifier stands, it alone is revoked.
proof fn lemma_revoked(s: Seq<GrantView>, id: Uuid, at: Timestamp, i: int)
    requires
        0 <= i <= s.len(),
        forall|j: int| 0 <= j < i ==> (#[trigger] s[j]).grant_id != id,
        i < s.len() ==> s[i].grant_id == id,
    ensures
        revoked(s, id, at) == (if i < s.len() {
            s.update(i, GrantView { revoked_at: Some(at), ..s[i] })
        } else {
            s
        }),
    decreases i,
{
    if i > 0 {
        let t = s.skip(1);
        assert forall|j: int| 0 <= j < i - 1 implies (#[trigger] t[j]).grant_id != id by {
            assert(t[j] == s[j + 1]);
        }
        lemma_revoked(t, id, at, i - 1);
        assert(s[0].grant_id != id);
        if i < s.len() {
            assert(seq![s[0]] + t.update(i - 1, GrantView { revoked_at: Some(at), ..t[i - 1] })
                =~= s.update(i, GrantView { revoked_at: Some(at), ..s[i] }));
        } else {
            assert(seq![s[0]] + t =~= s);
        }
    }
}

impl GrantBook {
    /// No grants.
    pub fn new() -> (r: GrantBook)
        ensures
            r@ == Seq::<GrantView>::empty(),
    {
        let r = GrantBook { rows: Vec::new() };
        assert(views(r.rows@) =~= Seq::<GrantView>::empty());
        r
    }

    /// The first grant of a subject that stands.
    pub fn check(&self, subject: &PermissionSubject) -> (r: Option<PermissionGrant>)
        ensures
            match r {
                Some(g) => exists|i: int|
                    0 <= i < self@.len() && #[trigger] self@[i] == g@ && stands(g@, subject@)
                        && forall|j: int| 0 <= j < i ==> !stands(#[trigger] self@[j], subject@),
                None => forall|i: int|
                    0 <= i < self@.len() ==> !stands(#[trigger] self@[i], subject@),
            },
    {
        let mut i: usize = 0;
        while i < self.rows.len()
            invariant
                i <= self.rows.len(),
                forall|j: int| 0 <= j < i ==> !stands(#[trigger] self@[j], subject@),
            decreases self.rows.len() - i,
        {
            assert(self@[i as int] == self.rows@[i as int]@);
            if self.rows[i].subject.same(subject) && self.rows[i].revoked_at.is_none() {
                return Some(self.rows[i].clone());
            }
            i += 1;
        }
        None
    }

    /// Writes a grant.
    pub fn grant(&mut self, grant: PermissionGrant)
        ensures
            final(self)@ == old(self)@.push(grant@),
    {
        proof {
            lemma_views_push(self.rows@, grant);
        }
        self.rows.push(grant);
    }

    /// Revokes the first grant of an identifier, at a given time.
    pub fn revoke_at(&mut self, grant_id: Uuid, at: Timestamp)
        ensures
            final(self)@ == revoked(old(self)@, grant_id, at),
    {
        let ghost before = self@;
        let mut i: usize = 0;
        while i < self.rows.len() && self.rows[i].grant_id != grant_id
            invariant
                i <= self.rows.len(),
                before == self@,
                forall|j: int| 0 <= j < i ==> (#[trigger] before[j]).grant_id != grant_id,
            decreases self.rows.len() - i,
        {
            assert(before[i as int] == self.rows@[i as int]@);
            i += 1;
        }
        proof {
            lemma_revoked(before, grant_id, at, i as int);
        }
        if i < self.rows.len() {
            let mut g = self.rows[i].clone();
            g.revoked_at = Some(at);
            let ghost v = g@;
            assert(v == (GrantView { revoked_at: Some(at), ..before[i as int] }));
            let ghost rows = self.rows@;
            self.rows.set(i, g);
            assert(views(self.rows@) =~= views(rows).update(i as int, v));
        }
    }

    /// Revokes the first grant of an identifier, now.
    pub fn revoke(&mut self, grant_id: Uuid)
        ensures
            exists|at: Timestamp|
                at.of_clock() && final(self)@ == #[trigger] revoked(old(self)@, grant_id, at),
    {
        self.revoke_at(grant_id, utc_now());
    }

    /// All grants, revoked ones among them.
    pub fn list(&self) -> (r: Vec<PermissionGrant>)
        ensures
            views(r@) == self@,
    {
        let mut out: Vec<PermissionGrant> = Vec::new();
        let mut i: usize = 0;
        while i < self.rows.len()
            invariant
                i <= self.rows.len(),
                out.len() == i,
                forall|j: int| 0 <= j < i ==> out@[j]@ == self.rows@[j]@,
            decreases self.rows.len() - i,
        {
            out.push(self.rows[i].clone());
            i += 1;
        }
        assert(views(out@) =~= views(self.rows@));
        out
    }
}

/// A grant that is the only one of its identifier no longer stands once it is
/// revoked, and every other grant is as it was.
pub proof fn law_revoked_grant_does_not_stand(
    s: Seq<GrantView>,
    i: int,
    at: Timestamp,
    subject: SubjectView,
)
    requires
        0 <= i < s.len(),
        forall|j: int| 0 <= j < s.len() && j != i ==> (#[trigger] s[j]).grant_id != s[i].grant_id,
    ensures
        revoked(s, s[i].grant_id, at).len() == s.len(),
        !stands(revoked(s, s[i].grant_id, at)[i], subject),
        forall|j: int|
            0 <= j < s.len() && j != i ==> #[trigger] revoked(s, s[i].grant_id, at)[j] == s[j],
{
    lemma_revoked(s, s[i].grant_id, at, i);
}

/// A store kept in memory.
pub struct MemBackend {
    pub conversations: Table<Conversation>,
    pub messages: MessageLog,
    pub memory: Table<MemoryRecord>,
    pub skills: Table<Skill>,
    pub tasks: Table<TaskItem>,
    pub artifacts: Table<Artifact>,
    pub settings: SettingTable,
    pub checkpoints: CheckpointLog,
    pub audit: AuditTrail,
    pub permissions: GrantBook,
}

/// An empty store kept in memory.
pub fn in_memory_datastore() -> (r: MemBackend)
    ensures
        r.conversations@.len() == 0,
        r.messages@.len() == 0,
        r.memory@.len() == 0,
        r.skills@.len() == 0,
        r.tasks@.len() == 0,
        r.artifacts@.len() == 0,
        forall|key: Seq<char>| #[trigger] setting_of(r.settings@, key) is None,
        r.checkpoints@.len() == 0,
        r.audit@.len() == 0,
        r.permissions@.len() == 0,
{
    MemBackend {
        conversations: Table::new(),
        messages: MessageLog::new(),
        memory: Table::new(),
        skills: Table::new(),
        tasks: Table::new(),
        artifacts: Table::new(),
        settings: SettingTable::new(),
        checkpoints: CheckpointLog::new(),
        audit: AuditTrail::new(),
        permissions: GrantBook::new(),
    }
}

/// The number of the next message of a conversation is greater than that of
/// every message it has.
pub proof fn law_next_number_is_new(s: Seq<MessageView>, i: int)
    requires
        0 <= i < s.len(),
    ensures
        greatest_number(s) is Some,
        s[i].sequence_num < next_number(s),
    decreases s.len(),
{
    if i < s.len() - 1 {
        law_next_number_is_new(s.drop_last(), i);
    }
}

/// The messages of a conversation come by their numbers, each of them and no other.
pub proof fn law_range_is_in_order(s: Seq<MessageView>, id: Uuid)
    ensures
        in_order(sort_by(messages_of(s, id), by_number()), by_number()),
        sort_by(messages_of(s, id), by_number()).to_multiset() == messages_of(s, id).to_multiset(),
{
    assert(total_preorder(by_number()));
    lemma_sort(messages_of(s, id), by_number());
}

/// What is kept of a conversation within a limit ends with a message of the
/// greatest number, and nothing that is left out has a greater number than what
/// is kept.
pub proof fn law_range_keeps_the_latest(s: Seq<MessageView>, id: Uuid, limit: int, i: int, j: int)
    requires
        0 <= i < messages_of(s, id).len(),
        limit >= 1,
        0 <= j < latest(sort_by(messages_of(s, id), by_number()), limit).len(),
    ensures
        ({
            let all = sort_by(messages_of(s, id), by_number());
            let kept = latest(all, limit);
            &&& kept.len() >= 1
            &&& messages_of(s, id)[i].sequence_num <= kept.last().sequence_num
            &&& all.take(all.len() - kept.len()) + kept == all
            &&& forall|k: int|
                0 <= k < all.len() - kept.len() ==> (#[trigger] all[k]).sequence_num
                    <= kept[j].sequence_num
        }),
{
    let of_id = messages_of(s, id);
    let le = by_number();
    let all = sort_by(of_id, le);
    let kept = latest(all, limit);
    law_range_is_in_order(s, id);
    assert(of_id.to_multiset().contains(of_id[i])) by {
        of_id.to_multiset_ensures();
    }
    all.to_multiset_ensures();
    of_id.to_multiset_ensures();
    assert(all.len() == of_id.len());
    assert(all.contains(of_id[i]));
    let k = choose|k: int| 0 <= k < all.len() && all[k] == of_id[i];
    assert(le(all[k], all[all.len() - 1]));
    assert(all.take(all.len() - kept.len()) + kept =~= all);
    assert forall|k: int| 0 <= k < all.len() - kept.len() implies (#[trigger] all[k]).sequence_num
        <= kept[j].sequence_num by {
        assert(kept[j] == all[all.len() - kept.len() + j]);
        assert(le(all[k], all[all.len() - kept.len() + j]));
    }
}

/// Conversations are listed newest first, each of them and no other.
pub proof fn law_list_is_newest_first(s: Seq<ConversationView>)
    ensures
        in_order(sort_by(s, newest_first()), newest_first()),
        sort_by(s, newest_first()).to_multiset() == s.to_multiset(),
{
    assert(total_preorder(newest_first()));
    lemma_sort(s, newest_first());
}

/// The reply of a provider that was given none.
pub const MOCK_REPLY: &'static str = "Hello from Mahi. This is the on-device mock model.";

/// A deterministic provider that streams a fixed reply word by word, or, where
/// it is empty, echoes the last user message. It works offline.
pub struct MockInferenceProvider {
    pub reply: String,
}

impl Default for MockInferenceProvider {
    fn default() -> (r: Self)
        ensures
            r.reply@ == MOCK_REPLY@,
    {
        MockInferenceProvider { reply: MOCK_REPLY.to_owned() }
    }
}

/// What the provider replies to a request.
pub open spec fn mock_reply(reply: Seq<char>, req: RequestView) -> Seq<char> {
    if reply.len() == 0 {
        "You said: "@ + last_text(req)
    } else {
        reply
    }
}

/// The chunks of a reply: its words, and the end.
pub open spec fn mock_chunks(reply: Seq<char>) -> Seq<ChunkView> {
    let w = words(reply);
    Seq::new(w.len(), |i: int| ChunkView::text(w[i], ComputeMode::OnDevice)).push(
        ChunkView::finish(FinishReason::Stop, ComputeMode::OnDevice),
    )
}

impl MockInferenceProvider {
    /// A provider that echoes the user's last message.
    pub fn echo() -> (r: MockInferenceProvider)
        ensures
            r.reply@.len() == 0,
    {
        MockInferenceProvider { reply: String::new() }
    }

    /// Static description of the model.
    pub fn descriptor(&self) -> (r: ModelDescriptor)
        ensures
            r@ == (ModelDescriptorView {
                id: "mock-on-device"@,
                display_name: "Mahi Mock (on-device)"@,
                context_window: 4096,
                capabilities: CapabilitySet::none_spec(),
                limitations: seq![
                    LimitationView::NoComplexCodeGen,
                    LimitationView::MaxContextWindow(4096),
                ],
                size_bytes: None,
                quantization: None,
                source: ModelSourceView::OnDevice,
                perf_profile: PerfProfile { ttft_ms: 20, milli_tok_per_sec: 40_000 },
            }),
    {
        let limitations = vec![
            LimitationLabel::NoComplexCodeGen,
            LimitationLabel::MaxContextWindow(4096),
        ];
        assert(views(limitations@) =~= seq![
            LimitationView::NoComplexCodeGen,
            LimitationView::MaxContextWindow(4096),
        ]);
        ModelDescriptor {
            id: "mock-on-device".to_owned(),
            display_name: "Mahi Mock (on-device)".to_owned(),
            context_window: 4096,
            capabilities: CapabilitySet::none(),
            limitations,
            size_bytes: None,
            quantization: None,
            source: ModelSource::OnDevice,
            perf_profile: PerfProfile { ttft_ms: 20, milli_tok_per_sec: 40_000 },
        }
    }

    /// The provider takes every request.
    pub fn can_handle(&self, _req: &InferenceRequest) -> (r: CanHandleResult)
        ensures
            r == CanHandleResult::yes(),
    {
        CanHandleResult::capable()
    }

    /// The chunks that answer a request.
    pub fn generate(&self, req: &InferenceRequest) -> (r: Vec<InferenceChunk>)
        ensures
            views(r@) == mock_chunks(mock_reply(self.reply@, req@)),
    {
        let reply = if self.reply.as_str().is_empty() {
            echo_reply(req)
        } else {
            self.reply.clone()
        };
        let parts = split_words(reply.as_str());
        let ghost w = words(reply@);
        let mut out: Vec<InferenceChunk> = Vec::new();
        let mut i: usize = 0;
        while i < parts.len()
            invariant
                i <= parts.len(),
                w == views(parts@),
                out.len() == i,
                forall|j: int|
                    0 <= j < i ==> (#[trigger] out@[j])@ == ChunkView::text(
                        w[j],
                        ComputeMode::OnDevice,
                    ),
            decreases parts.len() - i,
        {
            out.push(InferenceChunk::text(parts[i].as_str(), ComputeMode::OnDevice));
            i += 1;
        }
        out.push(InferenceChunk::finish(FinishReason::Stop, ComputeMode::OnDevice));
        assert(views(out@) =~= mock_chunks(reply@));
        out
    }
}

/// The messages of a conversation are all that were written to it, in the order in which
/// they were.
pub proof fn law_messages_of_a_conversation_are_all_of_them(s: Seq<MessageView>, id: Uuid)
    ensures
        messages_of(s, id) == s.filter(|v: MessageView| v.conversation_id == id),
{
    let f = |v: MessageView| of_conversation(v, id);
    let mine = |v: MessageView| v.conversation_id == id;
    lemma_pick_filter(s, f);
    lemma_same_filter(s, |v: MessageView| f(v) is Some, mine);
    assert forall|i: int| 0 <= i < s.filter(mine).len() implies f(
        #[trigger] s.filter(mine)[i],
    ) == Some(s.filter(mine)[i]) by {
        s.lemma_filter_pred(mine, i);
    }
    assert(messages_of(s, id) =~= s.filter(mine));
}

/// A search over memories finds all that match, of the given space or of all, in order, up
/// to the limit.
pub proof fn law_memory_search_is_complete(
    s: Seq<MemoryView>,
    query: Seq<char>,
    space: Option<Uuid>,
    limit: int,
)
    requires
        0 <= limit,
    ensures
        ({
            let hits = s.filter(
                |v: MemoryView|
                    (space is None || v.space_id == space) && memory_matches(v.content, query),
            );
            at_most(pick(s, |v: MemoryView| memory_found(v, query, space)), limit) == (
            if hits.len() <= limit {
                hits
            } else {
                hits.take(limit)
            })
        }),
{
    let f = |v: MemoryView| memory_found(v, query, space);
    let hit = |v: MemoryView|
        (space is None || v.space_id == space) && memory_matches(v.content, query);
    lemma_pick_filter(s, f);
    lemma_same_filter(s, |v: MemoryView| f(v) is Some, hit);
    assert forall|i: int| 0 <= i < s.filter(hit).len() implies f(#[trigger] s.filter(hit)[i])
        == Some(s.filter(hit)[i]) by {
        s.lemma_filter_pred(hit, i);
    }
    assert(pick(s, f) =~= s.filter(hit));
}

/// The skills of a scope, and the events of a session, are all of them, in order.
pub proof fn law_lists_are_complete(
    skills: Seq<SkillView>,
    scope: SkillScope,
    events: Seq<AuditView>,
    session: Option<Uuid>,
)
    ensures
        pick(skills, |v: SkillView| of_scope(v, scope)) == skills.filter(
            |v: SkillView| v.scope == scope,
        ),
        pick(events, |v: AuditView| of_session(v, session)) == events.filter(
            |v: AuditView| session is None || v.session_id == session,
        ),
{
    let f = |v: SkillView| of_scope(v, scope);
    let p = |v: SkillView| v.scope == scope;
    lemma_pick_filter(skills, f);
    lemma_same_filter(skills, |v: SkillView| f(v) is Some, p);
    assert forall|i: int| 0 <= i < skills.filter(p).len() implies f(#[trigger] skills.filter(p)[i])
        == Some(skills.filter(p)[i]) by {
        skills.lemma_filter_pred(p, i);
    }
    assert(pick(skills, f) =~= skills.filter(p));
    let g = |v: AuditView| of_session(v, session);
    let q = |v: AuditView| session is None || v.session_id == session;
    lemma_pick_filter(events, g);
    lemma_same_filter(events, |v: AuditView| g(v) is Some, q);
    assert forall|i: int| 0 <= i < events.filter(q).len() implies g(#[trigger] events.filter(q)[i])
        == Some(events.filter(q)[i]) by {
        events.lemma_filter_pred(q, i);
    }
    assert(pick(events, g) =~= events.filter(q));
}

/// The setting of a name is the one that was set last.
pub proof fn law_last_setting_counts(s: Seq<SettingView>, key: Seq<char>, i: int)
    ensures
        0 <= i < s.len() && s[i].key == key && (forall|j: int|
            i < j < s.len() ==> (#[trigger] s[j]).key != key) ==> setting_of(s, key) == Some(s[i]),
        (forall|j: int| 0 <= j < s.len() ==> (#[trigger] s[j]).key != key) ==> setting_of(s, key)
            is None,
    decreases s.len(),
{
    if s.len() > 0 {
        let d = s.drop_last();
        law_last_setting_counts(d, key, i);
        assert(forall|j: int| 0 <= j < d.len() ==> d[j] == #[trigger] s[j]);
        assert(forall|j: int| 0 <= j < d.len() ==> #[trigger] d[j] == s[j]);
        assert(s[s.len() - 1] == s.last());
    }
}

/// The latest checkpoint of a conversation is one of that conversation, and none of it was
/// captured later; there is none just where the conversation has no checkpoint.
pub proof fn law_latest_checkpoint_is_the_latest(s: Seq<CheckpointView>, id: Uuid)
    ensures
        match latest_of(s, id) {
            Some(c) => c.conversation_id == id && s.contains(c) && (forall|i: int|
                0 <= i < s.len() && (#[trigger] s[i]).conversation_id == id
                    ==> !c.captured_at.before_spec(s[i].captured_at)),
            None => forall|i: int| 0 <= i < s.len() ==> (#[trigger] s[i]).conversation_id != id,
        },
    decreases s.len(),
{
    if s.len() > 0 {
        let d = s.drop_last();
        law_latest_checkpoint_is_the_latest(d, id);
        assert(forall|j: int| 0 <= j < d.len() ==> d[j] == #[trigger] s[j]);
        assert(s[s.len() - 1] == s.last());
        if let Some(c) = latest_of(d, id) {
            let k = choose|k: int| 0 <= k < d.len() && d[k] == c;
            assert(s[k] == c);
        }
    }
}

/// The chunks of a reply hold all of it, in order, and end it once.
pub proof fn law_mock_streams_the_whole_reply(reply: Seq<char>)
    ensures
        ({
            let chunks = mock_chunks(reply);
            &&& chunks.len() > 0
            &&& concat_all(
                Seq::new(
                    (chunks.len() - 1) as nat,
                    |i: int|
                        match chunks[i].delta {
                            Some(text) => text,
                            None => Seq::empty(),
                        },
                ),
            ) == reply
            &&& chunks.last().finish_reason == Some(FinishReason::Stop) && chunks.last().delta
                is None
            &&& forall|i: int|
                0 <= i < chunks.len() - 1 ==> (#[trigger] chunks[i]).finish_reason is None
        }),
{
    law_words_add_up(reply);
    let chunks = mock_chunks(reply);
    assert(Seq::new(
        (chunks.len() - 1) as nat,
        |i: int|
            match chunks[i].delta {
                Some(text) => text,
                None => Seq::empty(),
            },
    ) =~= words(reply));
}

/// A limit keeps as many as it allows: the first of a list, or the last, and all where there
/// are no more.
pub proof fn law_limits_keep_as_many_as_they_allow<V>(s: Seq<V>, limit: int)
    requires
        0 <= limit,
    ensures
        ({
            let n = if s.len() <= limit {
                s.len() as int
            } else {
                limit
            };
            &&& at_most(s, limit).len() == n && (forall|i: int|
                0 <= i < n ==> #[trigger] at_most(s, limit)[i] == s[i])
            &&& latest(s, limit).len() == n && (forall|i: int|
                0 <= i < n ==> #[trigger] latest(s, limit)[i] == s[s.len() - n + i])
        }),
{
}

/// The number of the next message is one more than the greatest that there is, and zero
/// where there is none.
pub proof fn law_numbers_follow_each_other(s: Seq<MessageView>)
    ensures
        s.len() == 0 ==> next_number(s) == 0,
        s.len() > 0 ==> exists|i: int|
            0 <= i < s.len() && (#[trigger] s[i]).sequence_num + 1 == next_number(s),
    decreases s.len(),
{
    if s.len() > 0 {
        let d = s.drop_last();
        law_numbers_follow_each_other(d);
        assert(s[s.len() - 1] == s.last());
        if d.len() > 0 {
            let i = choose|i: int|
                0 <= i < d.len() && (#[trigger] d[i]).sequence_num + 1 == next_number(d);
            assert(s[i] == d[i]);
            law_next_number_is_new(d, i);
        }
    }
}

/// A grant stands for its own subject alone, and only while it is not revoked.
pub proof fn law_grant_stands_for_its_subject_alone(
    v: GrantView,
    subject: SubjectView,
    at: Timestamp,
)
    ensures
        subject != v.subject ==> !stands(v, subject),
        !stands(GrantView { revoked_at: Some(at), ..v }, subject),
        stands(GrantView { revoked_at: None, ..v }, v.subject),
{
}

/// Of several checkpoints that were captured at one time, the one written last is the
/// latest.
pub proof fn law_latest_checkpoint_was_written_last(s: Seq<CheckpointView>, id: Uuid)
    ensures
        latest_of(s, id) matches Some(c) ==> exists|k: int|
            0 <= k < s.len() && #[trigger] s[k] == c && (forall|j: int|
                k < j < s.len() && (#[trigger] s[j]).conversation_id == id
                    ==> s[j].captured_at.before_spec(c.captured_at)),
    decreases s.len(),
{
    if s.len() > 0 {
        let d = s.drop_last();
        law_latest_checkpoint_was_written_last(d, id);
        assert(forall|j: int| 0 <= j < d.len() ==> d[j] == #[trigger] s[j]);
        assert(s[s.len() - 1] == s.last());
        if let Some(c) = latest_of(s, id) {
            if latest_of(d, id) == Some(c) && !(s.last().conversation_id == id
                && !s.last().captured_at.before_spec(c.captured_at)) {
                let k = choose|k: int|
                    0 <= k < d.len() && #[trigger] d[k] == c && (forall|j: int|
                        k < j < d.len() && (#[trigger] d[j]).conversation_id == id
                            ==> d[j].captured_at.before_spec(c.captured_at));
                assert(s[k] == c);
                assert forall|j: int|
                    k < j < s.len() && (#[trigger] s[j]).conversation_id == id implies s[j].captured_at.before_spec(
                    c.captured_at,
                ) by {
                    if j < d.len() {
                        assert(d[j] == s[j]);
                    }
                }
            } else {
                assert(s[s.len() - 1] == c);
            }
        }
    }
}

/// A provider that was given a reply gives it; one that was not echoes what the user wrote
/// last.
pub proof fn law_mock_replies_or_echoes(reply: Seq<char>, req: RequestView, i: int)
    ensures
        reply.len() > 0 ==> mock_reply(reply, req) == reply,
        reply.len() == 0 && 0 <= i < req.messages.len() && req.messages[i].role
            == MessageRole::User && (forall|j: int|
            i < j < req.messages.len() ==> (#[trigger] req.messages[j]).role != MessageRole::User)
            ==> mock_reply(reply, req) == "You said: "@ + req.messages[i].text_content(),
{
    law_echo_is_of_the_last_user_message(req.messages, i);
}

} // verus!
