//! The encrypted store's rules: what is written into a row and what is read
//! out of one.
//!
//! Each row keeps the columns it is found by in the clear, and the record
//! itself, printed as JSON, sealed with AES-256-GCM. The audit log is
//! hash-chained.

use crate::contracts::data::{
    AuditEvent, AuditView, Checkpoint, Conversation, MemoryRecord, MemoryView, Message,
    PermissionGrant, PermissionSubject, Skill, SkillScope, SubjectView,
};
use crate::contracts::error::{ContractError, ContractErrorView, StoreError, StoreErrorView};
use crate::data::crypto::{
    decrypt, decrypted, encrypt, gcm_opened, gcm_takes, hex_text, hkdf_sha256, record_info,
    record_key, record_key_spec, sha256, sha256_hex, sha256_text,
};
use crate::ident::Uuid;
use crate::model::{opt, outcome, views};
use crate::text::{contains_text, lowercase, stands_at, text_contains, to_lowercase};
use vstd::prelude::*;
use vstd::utf8::encode_utf8;

verus! {

/// The rules of the SQLite-backed store, under a device root key. The tables
/// themselves are the database's.
pub struct SqliteBackend {
    root: [u8; 32],
}

impl View for SqliteBackend {
    type V = Seq<u8>;

    closed spec fn view(&self) -> Seq<u8> {
        self.root@
    }
}

/// A sealed record as it stands in a row: its identifier, ciphertext and nonce.
#[derive(Debug)]
pub struct SealedRow {
    pub id: String,
    pub enc: Vec<u8>,
    pub nonce: Vec<u8>,
}

/// [`SealedRow`] as a mathematical value.
pub struct SealedView {
    pub id: Seq<char>,
    pub enc: Seq<u8>,
    pub nonce: Seq<u8>,
}

impl View for SealedRow {
    type V = SealedView;

    open spec fn view(&self) -> SealedView {
        SealedView { id: self.id@, enc: self.enc@, nonce: self.nonce@ }
    }
}

/// A row of the audit table.
#[derive(Debug)]
pub struct AuditRow {
    pub event_id: String,
    pub session_id: Option<String>,
    pub prev_hash: String,
    pub hash: String,
    pub enc: Vec<u8>,
    pub nonce: Vec<u8>,
}

/// [`AuditRow`] as a mathematical value.
pub struct AuditRowView {
    pub event_id: Seq<char>,
    pub session_id: Option<Seq<char>>,
    pub prev_hash: Seq<char>,
    pub hash: Seq<char>,
    pub enc: Seq<u8>,
    pub nonce: Seq<u8>,
}

impl View for AuditRow {
    type V = AuditRowView;

    open spec fn view(&self) -> AuditRowView {
        AuditRowView {
            event_id: self.event_id@,
            session_id: opt(self.session_id),
            prev_hash: self.prev_hash@,
            hash: self.hash@,
            enc: self.enc@,
            nonce: self.nonce@,
        }
    }
}

/// The error of a payload that could not be sealed or opened.
pub open spec fn aead_failure() -> ContractErrorView {
    ContractErrorView::Store(StoreErrorView::Encryption { message: "AEAD failure"@ })
}

/// What a sealed payload of a collection opens to.
pub open spec fn unsealed(
    root: Seq<u8>,
    collection: Seq<char>,
    id: Seq<char>,
    enc: Seq<u8>,
    nonce: Seq<u8>,
) -> Option<Seq<u8>> {
    let aad = encode_utf8(id);
    decrypted(record_key_spec(root, collection, aad), enc, nonce, aad)
}

/// What a row of a collection opens to.
pub open spec fn row_payload(root: Seq<u8>, collection: Seq<char>, row: SealedView) -> Option<
    Seq<u8>,
> {
    unsealed(root, collection, row.id, row.enc, row.nonce)
}

/// Whether a reader can be called on every payload.
pub open spec fn callable<T: View, F: Fn(Vec<u8>) -> Result<T, ContractError>>(f: F) -> bool {
    forall|x: Vec<u8>| #[trigger] call_requires(f, (x,))
}

/// Whether a reader yields what a function on payloads yields.
pub open spec fn reads<T: View, F: Fn(Vec<u8>) -> Result<T, ContractError>>(
    f: F,
    m: spec_fn(Seq<u8>) -> Result<T::V, ContractErrorView>,
) -> bool {
    forall|x: Vec<u8>, y: Result<T, ContractError>| #[trigger]
        call_ensures(f, (x,), y) ==> outcome(y) == m(x@)
}

/// What a row reads as: its payload, by the reader.
pub open spec fn row_read<V>(
    root: Seq<u8>,
    collection: Seq<char>,
    row: SealedView,
    m: spec_fn(Seq<u8>) -> Result<V, ContractErrorView>,
) -> Result<V, ContractErrorView> {
    match row_payload(root, collection, row) {
        Some(payload) => m(payload),
        None => Err(aead_failure()),
    }
}

/// What rows read as: each in order, or the first error.
pub open spec fn rows_read<V>(
    root: Seq<u8>,
    collection: Seq<char>,
    rows: Seq<SealedView>,
    m: spec_fn(Seq<u8>) -> Result<V, ContractErrorView>,
) -> Result<Seq<V>, ContractErrorView>
    decreases rows.len(),
{
    if rows.len() == 0 {
        Ok(Seq::empty())
    } else {
        match rows_read(root, collection, rows.drop_last(), m) {
            Err(e) => Err(e),
            Ok(before) => match row_read(root, collection, rows.last(), m) {
                Err(e) => Err(e),
                Ok(v) => Ok(before.push(v)),
            },
        }
    }
}

/// Whether a memory is found by a search for a text, compared in lower case.
pub open spec fn memory_matches(content: Seq<char>, query: Seq<char>) -> bool {
    lowercase(query).len() == 0 || contains_text(lowercase(content), lowercase(query))
}

/// The memories that a search finds from a row on, behind those found already:
/// those that match, in order, up to the one that brings their number to the
/// limit.
pub open spec fn found_from(
    root: Seq<u8>,
    rows: Seq<SealedView>,
    from: int,
    found: Seq<MemoryView>,
    query: Seq<char>,
    limit: int,
    m: spec_fn(Seq<u8>) -> Result<MemoryView, ContractErrorView>,
) -> Result<Seq<MemoryView>, ContractErrorView>
    decreases rows.len() - from,
{
    if from < 0 || from >= rows.len() {
        Ok(found)
    } else {
        match row_read(root, "memory"@, rows[from], m) {
            Err(e) => Err(e),
            Ok(rec) => if !memory_matches(rec.content, query) {
                found_from(root, rows, from + 1, found, query, limit, m)
            } else if found.len() + 1 >= limit {
                Ok(found.push(rec))
            } else {
                found_from(root, rows, from + 1, found.push(rec), query, limit, m)
            },
        }
    }
}

/// The verdict on the audit rows from one on, where the hash of the row before
/// is given: the first row that does not link to the row before it, or whose
/// hash is not that of its event printed again, breaks the chain; a row that
/// cannot be opened or read is an error.
pub open spec fn chain_from(
    root: Seq<u8>,
    rows: Seq<AuditRowView>,
    from: int,
    prev: Seq<char>,
    reprint: spec_fn(Seq<u8>) -> Result<Seq<u8>, ContractErrorView>,
) -> Result<bool, ContractErrorView>
    decreases rows.len() - from,
{
    if from < 0 || from >= rows.len() {
        Ok(true)
    } else {
        let row = rows[from];
        if row.prev_hash != prev {
            Ok(false)
        } else {
            match unsealed(root, "audit"@, row.event_id, row.enc, row.nonce) {
                None => Err(aead_failure()),
                Some(payload) => match reprint(payload) {
                    Err(e) => Err(e),
                    Ok(json) => if sha256_text(json) != row.hash {
                        Ok(false)
                    } else {
                        chain_from(root, rows, from + 1, row.hash, reprint)
                    },
                },
            }
        }
    }
}

/// The verdict on a whole audit table; nothing comes before the first row.
pub open spec fn chain_verdict(
    root: Seq<u8>,
    rows: Seq<AuditRowView>,
    reprint: spec_fn(Seq<u8>) -> Result<Seq<u8>, ContractErrorView>,
) -> Result<bool, ContractErrorView> {
    chain_from(root, rows, 0, Seq::empty(), reprint)
}

/// The hash of the last row of an audit table, empty where there is none.
pub open spec fn last_hash(rows: Seq<AuditRowView>) -> Seq<char> {
    if rows.len() == 0 {
        Seq::empty()
    } else {
        rows.last().hash
    }
}

/// The text under which the skills of a scope are found.
pub open spec fn scope_text(scope: SkillScope) -> Seq<char> {
    match scope {
        SkillScope::Global => "global"@,
        SkillScope::Space(id) => "space:"@ + id.text(),
        SkillScope::User(id) => "user:"@ + id.text(),
    }
}

/// The text under which the grants of a subject are found.
pub open spec fn subject_text(subject: SubjectView) -> Seq<char> {
    match subject {
        SubjectView::Tool(s) => "tool:"@ + s,
        SubjectView::Feature(s) => "feature:"@ + s,
    }
}

/// An error of the database.
pub fn backend_error(message: &str) -> (r: ContractError)
    ensures
        r@ == ContractErrorView::Store(StoreErrorView::Backend { message: message@ }),
{
    ContractError::Store(StoreError::Backend { message: message.to_owned() })
}

/// An error of printing a record as JSON or reading one.
pub fn serialization_error(message: &str) -> (r: ContractError)
    ensures
        r@ == ContractErrorView::Store(StoreErrorView::Serialization { message: message@ }),
{
    ContractError::Store(StoreError::Serialization { message: message.to_owned() })
}

fn enc_err() -> (r: ContractError)
    ensures
        r@ == aead_failure(),
{
    ContractError::Store(StoreError::Encryption { message: "AEAD failure".to_owned() })
}

/// The text under which the skills of a scope are found.
pub fn scope_key(scope: &SkillScope) -> (r: String)
    ensures
        r@ == scope_text(*scope),
{
    match scope {
        SkillScope::Global => "global".to_owned(),
        SkillScope::Space(id) => "space:".to_owned().concat(id.to_text().as_str()),
        SkillScope::User(id) => "user:".to_owned().concat(id.to_text().as_str()),
    }
}

/// The text under which the grants of a subject are found.
pub fn subject_key(subject: &PermissionSubject) -> (r: String)
    ensures
        r@ == subject_text(subject@),
{
    match subject {
        PermissionSubject::Tool(s) => "tool:".to_owned().concat(s.as_str()),
        PermissionSubject::Feature(s) => "feature:".to_owned().concat(s.as_str()),
    }
}

/// The text of an optional identifier.
pub open spec fn opt_id_text(id: Option<Uuid>) -> Option<Seq<char>> {
    match id {
        Some(id) => Some(id.text()),
        None => None,
    }
}

fn opt_id(id: &Option<Uuid>) -> (r: Option<String>)
    ensures
        opt(r) == opt_id_text(*id),
{
    match id {
        Some(id) => Some(id.to_text()),
        None => None,
    }
}

/// The columns of a conversation: its identifier and the time of its last
/// change, in milliseconds.
pub fn conversation_columns(conv: &Conversation) -> (r: (String, i64))
    requires
        conv.updated_at.has_millis(),
    ensures
        r.0@ == conv@.id.text(),
        r.1 == conv@.updated_at.millis_spec(),
{
    (conv.id.to_text(), conv.updated_at.millis())
}

/// The columns of a message: its identifier, its conversation and its place in it.
pub fn message_columns(msg: &Message) -> (r: (String, String, i64))
    ensures
        r.0@ == msg@.id.text(),
        r.1@ == msg@.conversation_id.text(),
        r.2 == msg@.sequence_num,
{
    (msg.id.to_text(), msg.conversation_id.to_text(), msg.sequence_num)
}

/// The columns of a memory: its identifier and its space.
pub fn memory_columns(record: &MemoryRecord) -> (r: (String, Option<String>))
    ensures
        r.0@ == record@.id.text(),
        opt(r.1) == opt_id_text(record@.space_id),
{
    (record.id.to_text(), opt_id(&record.space_id))
}

/// The columns of a skill: its identifier and its scope.
pub fn skill_columns(skill: &Skill) -> (r: (String, String))
    ensures
        r.0@ == skill@.id.text(),
        r.1@ == scope_text(skill@.scope),
{
    (skill.id.to_text(), scope_key(&skill.scope))
}

/// The columns of a checkpoint: its identifier, its conversation, and the time
/// of its capture in milliseconds.
pub fn checkpoint_columns(checkpoint: &Checkpoint) -> (r: (String, String, i64))
    requires
        checkpoint.captured_at.has_millis(),
    ensures
        r.0@ == checkpoint@.id.text(),
        r.1@ == checkpoint@.conversation_id.text(),
        r.2 == checkpoint@.captured_at.millis_spec(),
{
    (
        checkpoint.id.to_text(),
        checkpoint.conversation_id.to_text(),
        checkpoint.captured_at.millis(),
    )
}

/// The columns of a grant: its identifier, its subject, and one where it is
/// revoked or else zero.
pub fn grant_columns(grant: &PermissionGrant) -> (r: (String, String, i64))
    ensures
        r.0@ == grant@.grant_id.text(),
        r.1@ == subject_text(grant@.subject),
        r.2 == (if grant@.revoked_at is Some {
            1int
        } else {
            0int
        }),
{
    let revoked: i64 = if grant.revoked_at.is_some() {
        1
    } else {
        0
    };
    (grant.grant_id.to_text(), subject_key(&grant.subject), revoked)
}

/// The place of the next message: one behind the greatest, or zero in an empty
/// conversation.
pub fn next_sequence(max: Option<i64>) -> (r: i64)
    requires
        max matches Some(m) ==> m < i64::MAX,
    ensures
        r == (match max {
            Some(m) => m + 1,
            None => 0,
        }),
{
    match max {
        Some(m) => m + 1,
        None => 0,
    }
}

impl SqliteBackend {
    /// The store's rules under a root key.
    pub fn new(root: [u8; 32]) -> (r: SqliteBackend)
        ensures
            r@ == root@,
    {
        SqliteBackend { root }
    }

    /// Seals a record, printed as JSON, into a row of a collection: it opens to
    /// the same bytes again. Only a record over the limits of the cipher is refused.
    pub fn seal(&self, collection: &str, id: &str, json: &[u8]) -> (r: Result<
        SealedRow,
        ContractError,
    >)
        ensures
            r is Ok <==> gcm_takes(json@, encode_utf8(id@)),
            r matches Err(e) ==> e@ == aead_failure(),
            r matches Ok(row) ==> row@.id == id@ && row@.nonce.len() == 12 && row_payload(
                self@,
                collection@,
                row@,
            ) == Some(json@),
    {
        let key = record_key(&self.root, collection, id.as_bytes());
        match encrypt(&key, json, id.as_bytes()) {
            Ok((ct, nonce)) => Ok(
                SealedRow {
                    id: id.to_owned(),
                    enc: ct,
                    nonce: vstd::slice::slice_to_vec(nonce.as_slice()),
                },
            ),
            Err(_) => Err(enc_err()),
        }
    }

    /// Opens a sealed record of a collection.
    pub fn unseal(&self, collection: &str, id: &str, ct: &[u8], nonce: &[u8]) -> (r: Result<
        Vec<u8>,
        ContractError,
    >)
        ensures
            outcome(r) == (match unsealed(self@, collection@, id@, ct@, nonce@) {
                Some(payload) => Ok(payload),
                None => Err(aead_failure()),
            }),
    {
        let key = record_key(&self.root, collection, id.as_bytes());
        match decrypt(&key, ct, nonce, id.as_bytes()) {
            Ok(pt) => Ok(pt),
            Err(_) => Err(enc_err()),
        }
    }

    /// Reads the row of a record, where there is one.
    pub fn read_one<T: View, F: Fn(Vec<u8>) -> Result<T, ContractError>>(
        &self,
        collection: &str,
        row: &Option<SealedRow>,
        read: F,
    ) -> (r: Result<Option<T>, ContractError>)
        requires
            callable(read),
        ensures
            forall|m: spec_fn(Seq<u8>) -> Result<T::V, ContractErrorView>| #[trigger]
                reads(read, m) ==> (match (r, row) {
                    (Ok(None), None) => true,
                    (Ok(Some(v)), Some(row)) => row_read(self@, collection@, row@, m) == Ok::<
                        T::V,
                        ContractErrorView,
                    >(v@),
                    (Err(e), Some(row)) => row_read(self@, collection@, row@, m) == Err::<
                        T::V,
                        ContractErrorView,
                    >(e@),
                    _ => false,
                }),
    {
        match row {
            None => Ok(None),
            Some(row) => match self.unseal(
                collection,
                row.id.as_str(),
                row.enc.as_slice(),
                row.nonce.as_slice(),
            ) {
                Err(e) => Err(e),
                Ok(payload) => {
                    let ghost bytes = payload@;
                    let read_back = read(payload);
                    assert forall|m: spec_fn(Seq<u8>) -> Result<T::V, ContractErrorView>| #[trigger]
                        reads(read, m) implies outcome(read_back) == m(bytes) by {}
                    match read_back {
                        Ok(v) => Ok(Some(v)),
                        Err(e) => Err(e),
                    }
                },
            },
        }
    }

    /// Reads rows, in order, up to the first error.
    pub fn read_all<T: View, F: Fn(Vec<u8>) -> Result<T, ContractError>>(
        &self,
        collection: &str,
        rows: &Vec<SealedRow>,
        read: F,
    ) -> (r: Result<Vec<T>, ContractError>)
        requires
            callable(read),
        ensures
            forall|m: spec_fn(Seq<u8>) -> Result<T::V, ContractErrorView>| #[trigger]
                reads(read, m) ==> (match r {
                    Ok(v) => rows_read(self@, collection@, views(rows@), m) == Ok::<
                        Seq<T::V>,
                        ContractErrorView,
                    >(views(v@)),
                    Err(e) => rows_read(self@, collection@, views(rows@), m) == Err::<
                        Seq<T::V>,
                        ContractErrorView,
                    >(e@),
                }),
    {
        let ghost all = views(rows@);
        let mut out: Vec<T> = Vec::new();
        let mut i: usize = 0;
        assert(views(out@) =~= Seq::empty());
        assert(all.take(0) =~= Seq::empty());
        while i < rows.len()
            invariant
                i <= rows.len(),
                all == views(rows@),
                callable(read),
                forall|m: spec_fn(Seq<u8>) -> Result<T::V, ContractErrorView>| #[trigger]
                    reads(read, m) ==> rows_read(self@, collection@, all.take(i as int), m) == Ok::<
                        Seq<T::V>,
                        ContractErrorView,
                    >(views(out@)),
            decreases rows.len() - i,
        {
            let row = &rows[i];
            proof {
                crate::model::lemma_views_take(rows@, i as int);
            }
            match self.unseal(
                collection,
                row.id.as_str(),
                row.enc.as_slice(),
                row.nonce.as_slice(),
            ) {
                Err(e) => {
                    assert forall|m: spec_fn(Seq<u8>) -> Result<T::V, ContractErrorView>| #[trigger]
                        reads(read, m) implies rows_read(self@, collection@, all, m) == Err::<
                        Seq<T::V>,
                        ContractErrorView,
                    >(e@) by {
                        lemma_rows_read_error(self@, collection@, all, i as int, m);
                    }
                    return Err(e);
                },
                Ok(payload) => {
                    let ghost bytes = payload@;
                    let read_back = read(payload);
                    assert forall|m: spec_fn(Seq<u8>) -> Result<T::V, ContractErrorView>| #[trigger]
                        reads(read, m) implies outcome(read_back) == m(bytes) by {}
                    match read_back {
                        Err(e) => {
                            assert forall|
                                m: spec_fn(Seq<u8>) -> Result<T::V, ContractErrorView>,
                            | #[trigger] reads(read, m) implies rows_read(
                                self@,
                                collection@,
                                all,
                                m,
                            ) == Err::<Seq<T::V>, ContractErrorView>(e@) by {
                                lemma_rows_read_error(self@, collection@, all, i as int, m);
                            }
                            return Err(e);
                        },
                        Ok(v) => {
                            proof {
                                crate::model::lemma_views_push(out@, v);
                            }
                            out.push(v);
                        },
                    }
                },
            }
            i += 1;
        }
        assert(all.take(all.len() as int) =~= all);
        Ok(out)
    }
}

/// The first row that does not read is what all the rows read as.
pub proof fn lemma_rows_read_error<V>(
    root: Seq<u8>,
    collection: Seq<char>,
    rows: Seq<SealedView>,
    i: int,
    m: spec_fn(Seq<u8>) -> Result<V, ContractErrorView>,
)
    requires
        0 <= i < rows.len(),
        rows_read(root, collection, rows.take(i + 1), m) is Err,
    ensures
        rows_read(root, collection, rows, m) == rows_read(root, collection, rows.take(i + 1), m),
    decreases rows.len() - i,
{
    if i + 1 == rows.len() {
        assert(rows.take(i + 1) =~= rows);
    } else {
        assert(rows.take(i + 2).drop_last() =~= rows.take(i + 1));
        lemma_rows_read_error(root, collection, rows, i + 1, m);
    }
}

/// Whether a printer can be called on every event.
pub open spec fn printable<F: Fn(AuditEvent) -> Result<Vec<u8>, ContractError>>(f: F) -> bool {
    forall|x: AuditEvent| #[trigger] call_requires(f, (x,))
}

/// Whether a printer yields what a function on events yields.
pub open spec fn prints<F: Fn(AuditEvent) -> Result<Vec<u8>, ContractError>>(
    f: F,
    m: spec_fn(AuditView) -> Result<Seq<u8>, ContractErrorView>,
) -> bool {
    forall|x: AuditEvent, y: Result<Vec<u8>, ContractError>| #[trigger]
        call_ensures(f, (x,), y) ==> outcome(y) == m(x@)
}

/// An event linked to the hash of the event before it.
pub open spec fn linked(event: AuditView, prev: Option<Seq<char>>) -> AuditView {
    AuditView {
        prev_hash: match prev {
            Some(h) => h,
            None => Seq::empty(),
        },
        ..event
    }
}

/// Whether a row is that of an event printed as the given JSON, linked to the
/// given hash.
pub open spec fn is_row_of(
    root: Seq<u8>,
    row: AuditRowView,
    event: AuditView,
    json: Seq<u8>,
) -> bool {
    &&& row.event_id == event.event_id.text()
    &&& row.session_id == opt_id_text(event.session_id)
    &&& row.prev_hash == event.prev_hash
    &&& row.hash == sha256_text(json)
    &&& unsealed(root, "audit"@, row.event_id, row.enc, row.nonce) == Some(json)
}

impl SqliteBackend {
    /// The memories that a search for a text finds among rows: those whose
    /// content holds it, in lower case, or all where it is empty; no more are
    /// read once the limit is reached.
    pub fn semantic_search<F: Fn(Vec<u8>) -> Result<MemoryRecord, ContractError>>(
        &self,
        query: &str,
        rows: &Vec<SealedRow>,
        read: F,
        limit: usize,
    ) -> (r: Result<Vec<MemoryRecord>, ContractError>)
        requires
            callable(read),
        ensures
            forall|m: spec_fn(Seq<u8>) -> Result<MemoryView, ContractErrorView>| #[trigger]
                reads(read, m) ==> found_from(
                    self@,
                    views(rows@),
                    0,
                    Seq::empty(),
                    query@,
                    limit as int,
                    m,
                ) == (match r {
                    Ok(v) => Ok::<Seq<MemoryView>, ContractErrorView>(views(v@)),
                    Err(e) => Err(e@),
                }),
    {
        let needle = to_lowercase(query);
        let ghost all = views(rows@);
        let mut out: Vec<MemoryRecord> = Vec::new();
        let mut i: usize = 0;
        assert(views(out@) =~= Seq::empty());
        while i < rows.len()
            invariant
                i <= rows.len(),
                all == views(rows@),
                needle@ == lowercase(query@),
                callable(read),
                forall|m: spec_fn(Seq<u8>) -> Result<MemoryView, ContractErrorView>| #[trigger]
                    reads(read, m) ==> found_from(
                        self@,
                        all,
                        0,
                        Seq::empty(),
                        query@,
                        limit as int,
                        m,
                    ) == found_from(
                        self@,
                        all,
                        i as int,
                        views(out@),
                        query@,
                        limit as int,
                        m,
                    ),
            decreases rows.len() - i,
        {
            let row = &rows[i];
            match self.unseal(
                "memory",
                row.id.as_str(),
                row.enc.as_slice(),
                row.nonce.as_slice(),
            ) {
                Err(e) => {
                    return Err(e);
                },
                Ok(payload) => {
                    let ghost bytes = payload@;
                    let read_back = read(payload);
                    assert forall|
                        m: spec_fn(Seq<u8>) -> Result<MemoryView, ContractErrorView>,
                    | #[trigger] reads(read, m) implies outcome(read_back) == m(bytes) by {}
                    match read_back {
                        Err(e) => {
                            return Err(e);
                        },
                        Ok(rec) => {
                            let content = to_lowercase(rec.content.as_str());
                            if needle.as_str().is_empty() || text_contains(
                                content.as_str(),
                                needle.as_str(),
                            ) {
                                proof {
                                    crate::model::lemma_views_push(out@, rec);
                                }
                                out.push(rec);
                                if out.len() >= limit {
                                    return Ok(out);
                                }
                            }
                        },
                    }
                },
            }
            i += 1;
        }
        Ok(out)
    }

    /// The row for a new event of the audit log, linked to the hash of the last
    /// row.
    pub fn append<F: Fn(AuditEvent) -> Result<Vec<u8>, ContractError>>(
        &self,
        event: AuditEvent,
        last: &Option<String>,
        print: F,
    ) -> (r: Result<AuditRow, ContractError>)
        requires
            printable(print),
        ensures
            forall|m: spec_fn(AuditView) -> Result<Seq<u8>, ContractErrorView>| #[trigger]
                prints(print, m) ==> (match m(linked(event@, opt(*last))) {
                    Err(e) => r matches Err(got) && got@ == e,
                    Ok(json) => if gcm_takes(json, encode_utf8(event@.event_id.text())) {
                        r matches Ok(row) && is_row_of(
                            self@,
                            row@,
                            linked(event@, opt(*last)),
                            json,
                        )
                    } else {
                        r matches Err(got) && got@ == aead_failure()
                    },
                }),
    {
        let id = event.event_id.to_text();
        let session = opt_id(&event.session_id);
        let prev_hash = match last {
            Some(h) => h.clone(),
            None => String::new(),
        };
        let ghost given = event@;
        let mut event = event;
        event.prev_hash = prev_hash.clone();
        assert(event@ == linked(given, opt(*last)));
        let ghost stamped = event@;
        let printed = print(event);
        assert forall|m: spec_fn(AuditView) -> Result<Seq<u8>, ContractErrorView>| #[trigger]
            prints(print, m) implies outcome(printed) == m(stamped) by {}
        match printed {
            Err(e) => Err(e),
            Ok(json) => {
                let hash = sha256_hex(json.as_slice());
                match self.seal("audit", id.as_str(), json.as_slice()) {
                    Err(e) => Err(e),
                    Ok(sealed) => Ok(
                        AuditRow {
                            event_id: id,
                            session_id: session,
                            prev_hash,
                            hash,
                            enc: sealed.enc,
                            nonce: sealed.nonce,
                        },
                    ),
                }
            },
        }
    }

    /// Verifies the audit log's hash chain: whether every row links to the one
    /// before it and hashes to what it says, its event printed again.
    pub fn verify_chain<F: Fn(Vec<u8>) -> Result<Vec<u8>, ContractError>>(
        &self,
        rows: &Vec<AuditRow>,
        reprint: F,
    ) -> (r: Result<bool, ContractError>)
        requires
            callable(reprint),
        ensures
            forall|m: spec_fn(Seq<u8>) -> Result<Seq<u8>, ContractErrorView>| #[trigger]
                reads(reprint, m) ==> chain_verdict(self@, views(rows@), m) == (match r {
                    Ok(intact) => Ok::<bool, ContractErrorView>(intact),
                    Err(e) => Err(e@),
                }),
    {
        let ghost all = views(rows@);
        let mut expected_prev = String::new();
        assert(expected_prev@ =~= Seq::empty());
        let mut i: usize = 0;
        while i < rows.len()
            invariant
                i <= rows.len(),
                all == views(rows@),
                callable(reprint),
                forall|m: spec_fn(Seq<u8>) -> Result<Seq<u8>, ContractErrorView>| #[trigger]
                    reads(reprint, m) ==> chain_verdict(self@, all, m) == chain_from(
                        self@,
                        all,
                        i as int,
                        expected_prev@,
                        m,
                    ),
            decreases rows.len() - i,
        {
            let row = &rows[i];
            if row.prev_hash != expected_prev {
                return Ok(false);
            }
            let payload = match self.unseal(
                "audit",
                row.event_id.as_str(),
                row.enc.as_slice(),
                row.nonce.as_slice(),
            ) {
                Ok(payload) => payload,
                Err(e) => {
                    return Err(e);
                },
            };
            let ghost bytes = payload@;
            let printed = reprint(payload);
            assert forall|m: spec_fn(Seq<u8>) -> Result<Seq<u8>, ContractErrorView>| #[trigger]
                reads(reprint, m) implies outcome(printed) == m(bytes) by {}
            match printed {
                Err(e) => {
                    return Err(e);
                },
                Ok(json) => {
                    let recomputed = sha256_hex(json.as_slice());
                    if recomputed != row.hash {
                        return Ok(false);
                    }
                    expected_prev = row.hash.clone();
                },
            }
            i += 1;
        }
        Ok(true)
    }
}

/// A verdict reaches row `i` of an intact chain with the hash of the row before it.
proof fn lemma_chain_reaches(
    root: Seq<u8>,
    rows: Seq<AuditRowView>,
    i: int,
    m: spec_fn(Seq<u8>) -> Result<Seq<u8>, ContractErrorView>,
)
    requires
        0 <= i <= rows.len(),
        chain_verdict(root, rows.take(i), m) == Ok::<bool, ContractErrorView>(true),
    ensures
        chain_verdict(root, rows, m) == chain_from(root, rows, i, last_hash(rows.take(i)), m),
    decreases i,
{
    if i > 0 {
        let t = rows.take(i);
        assert(t.take(i - 1) =~= rows.take(i - 1));
        lemma_chain_prefix(root, t, i - 1, m);
        lemma_chain_reaches(root, rows, i - 1, m);
        lemma_chain_reaches(root, t, i - 1, m);
        assert(t.last() == rows[i - 1]);
        reveal_with_fuel(chain_from, 2);
    }
}

/// The rows of an intact chain before any row are an intact chain.
proof fn lemma_chain_prefix(
    root: Seq<u8>,
    rows: Seq<AuditRowView>,
    i: int,
    m: spec_fn(Seq<u8>) -> Result<Seq<u8>, ContractErrorView>,
)
    requires
        0 <= i <= rows.len(),
        chain_verdict(root, rows, m) == Ok::<bool, ContractErrorView>(true),
    ensures
        chain_verdict(root, rows.take(i), m) == Ok::<bool, ContractErrorView>(true),
{
    lemma_chain_prefix_from(root, rows, i, 0, Seq::empty(), m);
}

proof fn lemma_chain_prefix_from(
    root: Seq<u8>,
    rows: Seq<AuditRowView>,
    i: int,
    from: int,
    prev: Seq<char>,
    m: spec_fn(Seq<u8>) -> Result<Seq<u8>, ContractErrorView>,
)
    requires
        0 <= from,
        0 <= i <= rows.len(),
        chain_from(root, rows, from, prev, m) == Ok::<bool, ContractErrorView>(true),
    ensures
        chain_from(root, rows.take(i), from, prev, m) == Ok::<bool, ContractErrorView>(true),
    decreases rows.len() - from,
{
    if from < i {
        assert(rows.take(i)[from] == rows[from]);
        lemma_chain_prefix_from(root, rows, i, from + 1, rows[from].hash, m);
    }
}

/// Records that were sealed are read back: rows that open to the records' JSON
/// read, in order, as what the reader makes of each.
pub proof fn law_sealed_records_are_read_back<V>(
    root: Seq<u8>,
    collection: Seq<char>,
    rows: Seq<SealedView>,
    records: Seq<V>,
    print: spec_fn(V) -> Seq<u8>,
    m: spec_fn(Seq<u8>) -> Result<V, ContractErrorView>,
)
    requires
        rows.len() == records.len(),
        forall|i: int|
            0 <= i < rows.len() ==> row_payload(root, collection, #[trigger] rows[i]) == Some(
                print(records[i]),
            ),
        forall|i: int|
            0 <= i < records.len() ==> m(print(#[trigger] records[i])) == Ok::<V, ContractErrorView>(
                records[i],
            ),
    ensures
        rows_read(root, collection, rows, m) == Ok::<Seq<V>, ContractErrorView>(records),
    decreases rows.len(),
{
    if rows.len() > 0 {
        let n = rows.len() - 1;
        law_sealed_records_are_read_back(
            root,
            collection,
            rows.drop_last(),
            records.drop_last(),
            print,
            m,
        );
        assert(rows.last() == rows[n]);
        assert(records.last() == records[n]);
        assert(records.drop_last().push(records[n]) =~= records);
    } else {
        assert(records =~= Seq::<V>::empty());
    }
}

/// An intact audit log stays intact when an event is appended to it whose JSON
/// reads and prints as itself.
pub proof fn law_append_keeps_the_chain(
    root: Seq<u8>,
    rows: Seq<AuditRowView>,
    event: AuditView,
    row: AuditRowView,
    json: Seq<u8>,
    m: spec_fn(Seq<u8>) -> Result<Seq<u8>, ContractErrorView>,
)
    requires
        chain_verdict(root, rows, m) == Ok::<bool, ContractErrorView>(true),
        is_row_of(root, row, linked(event, Some(last_hash(rows))), json),
        m(json) == Ok::<Seq<u8>, ContractErrorView>(json),
    ensures
        chain_verdict(root, rows.push(row), m) == Ok::<bool, ContractErrorView>(true),
{
    let n = rows.len() as int;
    let longer = rows.push(row);
    assert(longer.take(n) =~= rows);
    lemma_chain_reaches(root, longer, n, m);
    reveal_with_fuel(chain_from, 2);
}

/// A changed hash breaks the chain.
pub proof fn law_changed_hash_breaks_the_chain(
    root: Seq<u8>,
    rows: Seq<AuditRowView>,
    i: int,
    changed: AuditRowView,
    m: spec_fn(Seq<u8>) -> Result<Seq<u8>, ContractErrorView>,
)
    requires
        0 <= i < rows.len(),
        chain_verdict(root, rows, m) == Ok::<bool, ContractErrorView>(true),
        changed == (AuditRowView { hash: changed.hash, ..rows[i] }),
        changed.hash != rows[i].hash,
    ensures
        chain_verdict(root, rows.update(i, changed), m) == Ok::<bool, ContractErrorView>(false),
{
    let other = rows.update(i, changed);
    assert(other.take(i) =~= rows.take(i));
    lemma_chain_prefix(root, rows, i, m);
    lemma_chain_reaches(root, rows, i, m);
    lemma_chain_reaches(root, other, i, m);
}

/// A changed link breaks the chain.
pub proof fn law_changed_link_breaks_the_chain(
    root: Seq<u8>,
    rows: Seq<AuditRowView>,
    i: int,
    changed: AuditRowView,
    m: spec_fn(Seq<u8>) -> Result<Seq<u8>, ContractErrorView>,
)
    requires
        0 <= i < rows.len(),
        chain_verdict(root, rows, m) == Ok::<bool, ContractErrorView>(true),
        changed.prev_hash != rows[i].prev_hash,
    ensures
        chain_verdict(root, rows.update(i, changed), m) == Ok::<bool, ContractErrorView>(false),
{
    let other = rows.update(i, changed);
    assert(other.take(i) =~= rows.take(i));
    lemma_chain_prefix(root, rows, i, m);
    lemma_chain_reaches(root, rows, i, m);
    lemma_chain_reaches(root, other, i, m);
}

/// The event that stands in row `i` of a log of appended events: linked to the row
/// before, whatever link it was appended with.
pub open spec fn stored_event(rows: Seq<AuditRowView>, events: Seq<AuditView>, i: int) -> AuditView {
    linked(events[i], Some(last_hash(rows.take(i))))
}

/// Whether rows are what appending events to an empty log gives.
pub open spec fn is_log_of(
    root: Seq<u8>,
    rows: Seq<AuditRowView>,
    events: Seq<AuditView>,
    print: spec_fn(AuditView) -> Seq<u8>,
) -> bool {
    &&& rows.len() == events.len()
    &&& forall|i: int|
        0 <= i < rows.len() ==> is_row_of(
            root,
            #[trigger] rows[i],
            stored_event(rows, events, i),
            print(stored_event(rows, events, i)),
        )
}

/// Whether the JSON of each event of a log reads back as the event.
pub open spec fn reads_back(
    rows: Seq<AuditRowView>,
    events: Seq<AuditView>,
    read: spec_fn(Seq<u8>) -> Result<AuditView, ContractErrorView>,
    print: spec_fn(AuditView) -> Seq<u8>,
) -> bool {
    forall|i: int|
        0 <= i < rows.len() ==> read(print(#[trigger] stored_event(rows, events, i))) == Ok::<
            AuditView,
            ContractErrorView,
        >(stored_event(rows, events, i))
}

/// Reads an event and prints it again.
pub open spec fn reprinted(
    read: spec_fn(Seq<u8>) -> Result<AuditView, ContractErrorView>,
    print: spec_fn(AuditView) -> Seq<u8>,
) -> spec_fn(Seq<u8>) -> Result<Seq<u8>, ContractErrorView> {
    |json: Seq<u8>|
        match read(json) {
            Ok(event) => Ok(print(event)),
            Err(e) => Err(e),
        }
}

/// An audit row as a sealed record.
pub open spec fn sealed_event(row: AuditRowView) -> SealedView {
    SealedView { id: row.event_id, enc: row.enc, nonce: row.nonce }
}

proof fn lemma_appended_log(
    root: Seq<u8>,
    rows: Seq<AuditRowView>,
    events: Seq<AuditView>,
    read: spec_fn(Seq<u8>) -> Result<AuditView, ContractErrorView>,
    print: spec_fn(AuditView) -> Seq<u8>,
)
    requires
        is_log_of(root, rows, events, print),
        reads_back(rows, events, read, print),
    ensures
        chain_verdict(root, rows, reprinted(read, print)) == Ok::<bool, ContractErrorView>(true),
    decreases rows.len(),
{
    if rows.len() > 0 {
        let n = rows.len() - 1;
        let (front, before) = (rows.drop_last(), events.drop_last());
        assert forall|i: int| 0 <= i < front.len() implies is_row_of(
            root,
            #[trigger] front[i],
            stored_event(front, before, i),
            print(stored_event(front, before, i)),
        ) by {
            assert(front.take(i) =~= rows.take(i));
            assert(front[i] == rows[i]);
        }
        assert forall|i: int| 0 <= i < front.len() implies read(
            print(#[trigger] stored_event(front, before, i)),
        ) == Ok::<AuditView, ContractErrorView>(stored_event(front, before, i)) by {
            assert(front.take(i) =~= rows.take(i));
            assert(stored_event(front, before, i) == stored_event(rows, events, i));
        }
        lemma_appended_log(root, front, before, read, print);
        assert(rows.take(n) =~= front);
        assert(front.push(rows[n]) =~= rows);
        law_append_keeps_the_chain(
            root,
            front,
            events[n],
            rows[n],
            print(stored_event(rows, events, n)),
            reprinted(read, print),
        );
    }
}

/// The rows of a log read as the events that stand in them.
proof fn lemma_log_is_read(
    root: Seq<u8>,
    rows: Seq<AuditRowView>,
    events: Seq<AuditView>,
    read: spec_fn(Seq<u8>) -> Result<AuditView, ContractErrorView>,
    print: spec_fn(AuditView) -> Seq<u8>,
)
    requires
        is_log_of(root, rows, events, print),
        reads_back(rows, events, read, print),
    ensures
        rows_read(root, "audit"@, rows.map_values(|r: AuditRowView| sealed_event(r)), read) == Ok::<
            Seq<AuditView>,
            ContractErrorView,
        >(Seq::new(rows.len(), |i: int| stored_event(rows, events, i))),
{
    let stored = Seq::new(rows.len(), |i: int| stored_event(rows, events, i));
    let sealed = rows.map_values(|r: AuditRowView| sealed_event(r));
    assert forall|i: int| 0 <= i < sealed.len() implies row_payload(
        root,
        "audit"@,
        #[trigger] sealed[i],
    ) == Some(print(stored[i])) by {
        assert(is_row_of(
            root,
            rows[i],
            stored_event(rows, events, i),
            print(stored_event(rows, events, i)),
        ));
    }
    assert forall|i: int| 0 <= i < stored.len() implies read(print(#[trigger] stored[i])) == Ok::<
        AuditView,
        ContractErrorView,
    >(stored[i]) by {
        assert(stored[i] == stored_event(rows, events, i));
    }
    law_sealed_records_are_read_back(root, "audit"@, sealed, stored, print, read);
}

/// A log to which events were appended, from an empty one on, is intact: each
/// event is linked to the SHA-256 of the JSON of the one before, whatever link it
/// was appended with, and they are read back in the order in which they were
/// appended. The JSON of each of these events has to read back as the event.
pub proof fn law_appended_log_is_intact(
    root: Seq<u8>,
    rows: Seq<AuditRowView>,
    events: Seq<AuditView>,
    read: spec_fn(Seq<u8>) -> Result<AuditView, ContractErrorView>,
    print: spec_fn(AuditView) -> Seq<u8>,
)
    requires
        is_log_of(root, rows, events, print),
        reads_back(rows, events, read, print),
    ensures
        chain_verdict(root, rows, reprinted(read, print)) == Ok::<bool, ContractErrorView>(true),
        rows_read(root, "audit"@, rows.map_values(|r: AuditRowView| sealed_event(r)), read) == Ok::<
            Seq<AuditView>,
            ContractErrorView,
        >(Seq::new(rows.len(), |i: int| stored_event(rows, events, i))),
        rows.len() > 0 ==> stored_event(rows, events, 0).prev_hash == Seq::<char>::empty(),
        forall|i: int|
            0 <= i < rows.len() - 1 ==> stored_event(rows, events, i + 1).prev_hash == sha256_text(
                print(#[trigger] stored_event(rows, events, i)),
            ),
{
    lemma_appended_log(root, rows, events, read, print);
    lemma_log_is_read(root, rows, events, read, print);
    assert forall|i: int| 0 <= i < rows.len() - 1 implies stored_event(rows, events, i + 1).prev_hash
        == sha256_text(print(#[trigger] stored_event(rows, events, i))) by {
        assert(rows.take(i + 1).last() == rows[i]);
        assert(rows[i].hash == sha256_text(print(stored_event(rows, events, i))));
    }
}

/// In a log to which events were appended, from an empty one on, a changed hash or
/// a changed link in any row breaks the chain. The JSON of each of these events has
/// to read back as the event.
pub proof fn law_tampered_log_is_found_out(
    root: Seq<u8>,
    rows: Seq<AuditRowView>,
    events: Seq<AuditView>,
    read: spec_fn(Seq<u8>) -> Result<AuditView, ContractErrorView>,
    print: spec_fn(AuditView) -> Seq<u8>,
    i: int,
    changed: AuditRowView,
)
    requires
        is_log_of(root, rows, events, print),
        reads_back(rows, events, read, print),
        0 <= i < rows.len(),
        changed.prev_hash != rows[i].prev_hash || changed == (AuditRowView {
            hash: changed.hash,
            ..rows[i]
        }),
        changed.prev_hash != rows[i].prev_hash || changed.hash != rows[i].hash,
    ensures
        chain_verdict(root, rows.update(i, changed), reprinted(read, print)) == Ok::<
            bool,
            ContractErrorView,
        >(false),
{
    let m = reprinted(read, print);
    lemma_appended_log(root, rows, events, read, print);
    if changed.prev_hash != rows[i].prev_hash {
        law_changed_link_breaks_the_chain(root, rows, i, changed, m);
    } else {
        law_changed_hash_breaks_the_chain(root, rows, i, changed, m);
    }
}

/// A changed payload is found out: the chain passes for intact only where the
/// event that the new payload holds has the SHA-256 digest of the old one.
pub proof fn law_changed_payload_is_found_out(
    root: Seq<u8>,
    rows: Seq<AuditRowView>,
    i: int,
    changed: AuditRowView,
    m: spec_fn(Seq<u8>) -> Result<Seq<u8>, ContractErrorView>,
)
    requires
        0 <= i < rows.len(),
        chain_verdict(root, rows, m) == Ok::<bool, ContractErrorView>(true),
        changed == (AuditRowView { enc: changed.enc, nonce: changed.nonce, ..rows[i] }),
        chain_verdict(root, rows.update(i, changed), m) == Ok::<bool, ContractErrorView>(true),
    ensures
        ({
            let before = unsealed(root, "audit"@, rows[i].event_id, rows[i].enc, rows[i].nonce);
            let after = unsealed(root, "audit"@, changed.event_id, changed.enc, changed.nonce);
            &&& before is Some && after is Some
            &&& m(before->0) is Ok && m(after->0) is Ok
            &&& sha256(m(before->0)->Ok_0) == sha256(m(after->0)->Ok_0)
        }),
{
    let other = rows.update(i, changed);
    assert(other.take(i) =~= rows.take(i));
    lemma_chain_prefix(root, rows, i, m);
    lemma_chain_reaches(root, rows, i, m);
    lemma_chain_reaches(root, other, i, m);
    assert(other[i] == changed);
    let before = unsealed(root, "audit"@, rows[i].event_id, rows[i].enc, rows[i].nonce);
    let after = unsealed(root, "audit"@, changed.event_id, changed.enc, changed.nonce);
    crate::data::crypto::lemma_hex_text_injective(
        sha256(m(before->0)->Ok_0),
        sha256(m(after->0)->Ok_0),
    );
}

/// A row left out breaks the chain, unless it is the last one, or its hash is
/// that of the row before it.
pub proof fn law_removed_row_breaks_the_chain(
    root: Seq<u8>,
    rows: Seq<AuditRowView>,
    i: int,
    m: spec_fn(Seq<u8>) -> Result<Seq<u8>, ContractErrorView>,
)
    requires
        0 <= i < rows.len() - 1,
        chain_verdict(root, rows, m) == Ok::<bool, ContractErrorView>(true),
        rows[i].hash != last_hash(rows.take(i)),
    ensures
        chain_verdict(root, rows.remove(i), m) == Ok::<bool, ContractErrorView>(false),
{
    let other = rows.remove(i);
    assert(other.take(i) =~= rows.take(i));
    lemma_chain_prefix(root, rows, i, m);
    lemma_chain_reaches(root, rows, i, m);
    lemma_chain_reaches(root, other, i, m);
    assert(other[i] == rows[i + 1]);
    reveal_with_fuel(chain_from, 3);
}

/// Skills are found under a scope's text just where they are of that scope.
pub proof fn law_scope_text_names_one_scope(a: SkillScope, b: SkillScope)
    requires
        scope_text(a) == scope_text(b),
    ensures
        a == b,
{
    reveal_strlit("global");
    reveal_strlit("space:");
    reveal_strlit("user:");
    let ta = scope_text(a);
    let tb = scope_text(b);
    assert(ta[0] == tb[0]);
    match (a, b) {
        (SkillScope::Space(x), SkillScope::Space(y)) => {
            assert(ta.skip(6) =~= x.text());
            assert(tb.skip(6) =~= y.text());
            crate::ident::lemma_uuid_text_injective(x.0, y.0);
        },
        (SkillScope::User(x), SkillScope::User(y)) => {
            assert(ta.skip(5) =~= x.text());
            assert(tb.skip(5) =~= y.text());
            crate::ident::lemma_uuid_text_injective(x.0, y.0);
        },
        _ => {},
    }
}

/// Grants are found under a subject's text just where they are of that subject.
pub proof fn law_subject_text_names_one_subject(a: SubjectView, b: SubjectView)
    requires
        subject_text(a) == subject_text(b),
    ensures
        a == b,
{
    reveal_strlit("tool:");
    reveal_strlit("feature:");
    let ta = subject_text(a);
    let tb = subject_text(b);
    assert(ta[0] == tb[0]);
    match (a, b) {
        (SubjectView::Tool(x), SubjectView::Tool(y)) => {
            assert(ta.skip(5) =~= x);
            assert(tb.skip(5) =~= y);
        },
        (SubjectView::Feature(x), SubjectView::Feature(y)) => {
            assert(ta.skip(8) =~= x);
            assert(tb.skip(8) =~= y);
        },
        (SubjectView::Tool(_), SubjectView::Feature(_)) => {
            assert(ta[0] == 't' && tb[0] == 'f');
        },
        (SubjectView::Feature(_), SubjectView::Tool(_)) => {
            assert(ta[0] == 'f' && tb[0] == 't');
        },
    }
}

/// A search finds no more than its limit, or one where the limit is zero, and
/// only what matches.
pub proof fn law_search_is_bounded(
    root: Seq<u8>,
    rows: Seq<SealedView>,
    from: int,
    found: Seq<MemoryView>,
    query: Seq<char>,
    limit: int,
    m: spec_fn(Seq<u8>) -> Result<MemoryView, ContractErrorView>,
)
    requires
        found.len() == 0 || found.len() < limit,
        forall|i: int| 0 <= i < found.len() ==> memory_matches(#[trigger] found[i].content, query),
    ensures
        found_from(root, rows, from, found, query, limit, m) matches Ok(all) ==> {
            &&& all.len() <= limit || all.len() <= 1
            &&& forall|i: int|
                0 <= i < all.len() ==> memory_matches(#[trigger] all[i].content, query)
        },
    decreases rows.len() - from,
{
    if 0 <= from < rows.len() {
        match row_read(root, "memory"@, rows[from], m) {
            Err(_) => {},
            Ok(rec) => {
                if !memory_matches(rec.content, query) {
                    law_search_is_bounded(root, rows, from + 1, found, query, limit, m);
                } else if found.len() + 1 < limit {
                    law_search_is_bounded(root, rows, from + 1, found.push(rec), query, limit, m);
                }
            },
        }
    }
}

/// A search finds a memory just where the query, in lower case, stands somewhere in
/// its content, in lower case; so an empty query finds every memory.
pub proof fn law_memory_matches_where_the_query_stands(content: Seq<char>, query: Seq<char>)
    ensures
        memory_matches(content, query) <==> exists|at: int| #[trigger]
            stands_at(lowercase(content), lowercase(query), at),
{
    let (text, part) = (lowercase(content), lowercase(query));
    if part.len() == 0 {
        assert(stands_at(text, part, 0));
    }
    if contains_text(text, part) {
        let i = choose|i: int|
            0 <= i && i + part.len() <= text.len() && #[trigger] text.subrange(i, i + part.len())
                == part;
        assert forall|k: int| 0 <= k < part.len() implies #[trigger] text[i + k] == part[k] by {
            assert(text.subrange(i, i + part.len())[k] == text[i + k]);
        }
        assert(stands_at(text, part, i));
    }
    if exists|at: int| #[trigger] stands_at(text, part, at) {
        let at = choose|at: int| #[trigger] stands_at(text, part, at);
        assert forall|k: int| 0 <= k < part.len() implies text.subrange(at, at + part.len())[k]
            == part[k] by {
            assert(text[at + k] == part[k]);
        }
        assert(text.subrange(at, at + part.len()) =~= part);
    }
}

/// How many memories a search may find: its limit, and one where the limit is zero.
pub open spec fn room(limit: int) -> int {
    if limit > 1 {
        limit
    } else {
        1
    }
}

/// A search over rows that can be read is complete: it finds all records that match,
/// in the order of the rows, or as many of the first of them as the limit allows.
pub proof fn law_search_finds_every_match(
    root: Seq<u8>,
    rows: Seq<SealedView>,
    records: Seq<MemoryView>,
    query: Seq<char>,
    limit: int,
    m: spec_fn(Seq<u8>) -> Result<MemoryView, ContractErrorView>,
)
    requires
        rows.len() == records.len(),
        forall|i: int|
            0 <= i < rows.len() ==> row_read(root, "memory"@, #[trigger] rows[i], m) == Ok::<
                MemoryView,
                ContractErrorView,
            >(records[i]),
    ensures
        ({
            let hits = records.filter(|r: MemoryView| memory_matches(r.content, query));
            found_from(root, rows, 0, Seq::empty(), query, limit, m) == Ok::<
                Seq<MemoryView>,
                ContractErrorView,
            >(
                if hits.len() <= room(limit) {
                    hits
                } else {
                    hits.take(room(limit))
                },
            )
        }),
{
    let hit = |r: MemoryView| memory_matches(r.content, query);
    reveal(Seq::filter);
    assert(records.take(0).filter(hit) =~= Seq::empty());
    lemma_search_from(root, rows, records, rows.len() as int, 0, query, limit, m);
    assert(records.take(records.len() as int) =~= records);
    let hits = records.filter(hit);
    assert(hits.take(hits.len() as int) =~= hits);
}

/// A search that has found less than it may when it comes to a row that cannot be
/// read fails with the error of that row.
pub proof fn law_search_fails_at_an_unreadable_row(
    root: Seq<u8>,
    rows: Seq<SealedView>,
    records: Seq<MemoryView>,
    query: Seq<char>,
    limit: int,
    m: spec_fn(Seq<u8>) -> Result<MemoryView, ContractErrorView>,
    k: int,
)
    requires
        0 <= k < rows.len(),
        k == records.len(),
        forall|i: int|
            0 <= i < k ==> row_read(root, "memory"@, #[trigger] rows[i], m) == Ok::<
                MemoryView,
                ContractErrorView,
            >(records[i]),
        row_read(root, "memory"@, rows[k], m) is Err,
        records.filter(|r: MemoryView| memory_matches(r.content, query)).len() < room(limit),
    ensures
        found_from(root, rows, 0, Seq::empty(), query, limit, m) == Err::<
            Seq<MemoryView>,
            ContractErrorView,
        >(row_read(root, "memory"@, rows[k], m)->Err_0),
{
    let hit = |r: MemoryView| memory_matches(r.content, query);
    reveal(Seq::filter);
    assert(records.take(0).filter(hit) =~= Seq::empty());
    lemma_search_from(root, rows, records, k, 0, query, limit, m);
    assert(records.take(k) =~= records);
}

/// A search that starts at a row goes on to row `k` with all matches before it, or
/// ends where it has found as many as it may.
proof fn lemma_search_from(
    root: Seq<u8>,
    rows: Seq<SealedView>,
    records: Seq<MemoryView>,
    k: int,
    from: int,
    query: Seq<char>,
    limit: int,
    m: spec_fn(Seq<u8>) -> Result<MemoryView, ContractErrorView>,
)
    requires
        0 <= from <= k <= rows.len(),
        k <= records.len(),
        forall|i: int|
            0 <= i < k ==> row_read(root, "memory"@, #[trigger] rows[i], m) == Ok::<
                MemoryView,
                ContractErrorView,
            >(records[i]),
        records.take(from).filter(|r: MemoryView| memory_matches(r.content, query)).len() < room(
            limit,
        ),
    ensures
        ({
            let hit = |r: MemoryView| memory_matches(r.content, query);
            let found = records.take(from).filter(hit);
            let hits = records.take(k).filter(hit);
            found_from(root, rows, from, found, query, limit, m) == (if hits.len() < room(limit) {
                found_from(root, rows, k, hits, query, limit, m)
            } else {
                Ok(hits.take(room(limit)))
            })
        }),
    decreases k - from,
{
    let hit = |r: MemoryView| memory_matches(r.content, query);
    let found = records.take(from).filter(hit);
    let hits = records.take(k).filter(hit);
    if from < k {
        reveal(Seq::filter);
        let next = records.take(from + 1);
        assert(next.drop_last() =~= records.take(from));
        assert(next.last() == records[from]);
        assert(row_read(root, "memory"@, rows[from], m) == Ok::<MemoryView, ContractErrorView>(
            records[from],
        ));
        if hit(records[from]) {
            assert(next.filter(hit) == found.push(records[from]));
            if found.len() + 1 >= limit {
                lemma_filter_take(records, hit, from + 1, k);
                assert(found.push(records[from]).len() == room(limit));
                assert(hits.take(room(limit)) =~= found.push(records[from]));
            } else {
                lemma_search_from(root, rows, records, k, from + 1, query, limit, m);
            }
        } else {
            assert(next.filter(hit) == found);
            lemma_search_from(root, rows, records, k, from + 1, query, limit, m);
        }
    }
}

/// What a filter keeps of a longer prefix begins with what it keeps of a shorter one.
proof fn lemma_filter_take(
    records: Seq<MemoryView>,
    hit: spec_fn(MemoryView) -> bool,
    i: int,
    k: int,
)
    requires
        0 <= i <= k <= records.len(),
    ensures
        records.take(i).filter(hit).len() <= records.take(k).filter(hit).len(),
        records.take(k).filter(hit).take(records.take(i).filter(hit).len() as int)
            == records.take(i).filter(hit),
    decreases k - i,
{
    let kept = records.take(i).filter(hit);
    if i == k {
        assert(kept.take(kept.len() as int) =~= kept);
    } else {
        lemma_filter_take(records, hit, i, k - 1);
        reveal(Seq::filter);
        assert(records.take(k).drop_last() =~= records.take(k - 1));
        let shorter = records.take(k - 1).filter(hit);
        assert(records.take(k).filter(hit).take(kept.len() as int) =~= shorter.take(
            kept.len() as int,
        ));
    }
}

/// Whether a row of an audit log links to the hash before it and hashes to its event
/// printed again.
pub open spec fn row_is_sound(
    root: Seq<u8>,
    row: AuditRowView,
    prev: Seq<char>,
    m: spec_fn(Seq<u8>) -> Result<Seq<u8>, ContractErrorView>,
) -> bool {
    &&& row.prev_hash == prev
    &&& unsealed(root, "audit"@, row.event_id, row.enc, row.nonce) matches Some(payload) && (
    m(payload) matches Ok(json) && row.hash == sha256_text(json))
}

/// A log passes for intact just where every row of it is sound: the first links to
/// nothing, and each other to the hash of the one before it.
pub proof fn law_intact_log_is_sound_throughout(
    root: Seq<u8>,
    rows: Seq<AuditRowView>,
    m: spec_fn(Seq<u8>) -> Result<Seq<u8>, ContractErrorView>,
)
    ensures
        chain_verdict(root, rows, m) == Ok::<bool, ContractErrorView>(true) <==> (forall|i: int|
            0 <= i < rows.len() ==> row_is_sound(
                root,
                #[trigger] rows[i],
                if i == 0 {
                    Seq::empty()
                } else {
                    rows[i - 1].hash
                },
                m,
            )),
{
    lemma_sound_from(root, rows, 0, Seq::empty(), m);
}

proof fn lemma_sound_from(
    root: Seq<u8>,
    rows: Seq<AuditRowView>,
    from: int,
    prev: Seq<char>,
    m: spec_fn(Seq<u8>) -> Result<Seq<u8>, ContractErrorView>,
)
    requires
        0 <= from <= rows.len(),
    ensures
        chain_from(root, rows, from, prev, m) == Ok::<bool, ContractErrorView>(true) <==> (forall|
            i: int,
        |
            from <= i < rows.len() ==> row_is_sound(
                root,
                #[trigger] rows[i],
                if i == from {
                    prev
                } else {
                    rows[i - 1].hash
                },
                m,
            )),
    decreases rows.len() - from,
{
    if from < rows.len() {
        lemma_sound_from(root, rows, from + 1, rows[from].hash, m);
        let all = forall|i: int|
            from <= i < rows.len() ==> row_is_sound(
                root,
                #[trigger] rows[i],
                if i == from {
                    prev
                } else {
                    rows[i - 1].hash
                },
                m,
            );
        let rest = forall|i: int|
            from + 1 <= i < rows.len() ==> row_is_sound(
                root,
                #[trigger] rows[i],
                if i == from + 1 {
                    rows[from].hash
                } else {
                    rows[i - 1].hash
                },
                m,
            );
        assert(all == (row_is_sound(root, rows[from], prev, m) && rest)) by {
            if all {
                assert(row_is_sound(root, rows[from], prev, m));
            }
            if row_is_sound(root, rows[from], prev, m) && rest {
                assert forall|i: int| from <= i < rows.len() implies row_is_sound(
                    root,
                    #[trigger] rows[i],
                    if i == from {
                        prev
                    } else {
                        rows[i - 1].hash
                    },
                    m,
                ) by {}
            }
        }
    }
}

/// Rows are read one for one and in order, or else the first that cannot be read decides.
pub proof fn law_rows_are_read_one_for_one<V>(
    root: Seq<u8>,
    collection: Seq<char>,
    rows: Seq<SealedView>,
    m: spec_fn(Seq<u8>) -> Result<V, ContractErrorView>,
    k: int,
)
    ensures
        rows_read(root, collection, rows, m) matches Ok(records) ==> records.len() == rows.len()
            && (forall|i: int|
            0 <= i < rows.len() ==> row_read(root, collection, #[trigger] rows[i], m) == Ok::<
                V,
                ContractErrorView,
            >(records[i])),
        0 <= k < rows.len() && row_read(root, collection, rows[k], m) is Err && (forall|i: int|
            0 <= i < k ==> row_read(root, collection, #[trigger] rows[i], m) is Ok) ==> rows_read(
            root,
            collection,
            rows,
            m,
        ) == Err::<Seq<V>, ContractErrorView>(row_read(root, collection, rows[k], m)->Err_0),
        (forall|i: int|
            0 <= i < rows.len() ==> row_read(root, collection, #[trigger] rows[i], m) is Ok)
            ==> rows_read(root, collection, rows, m) is Ok,
    decreases rows.len(),
{
    if rows.len() > 0 {
        let d = rows.drop_last();
        law_rows_are_read_one_for_one(root, collection, d, m, k);
        assert(forall|i: int| 0 <= i < d.len() ==> d[i] == #[trigger] rows[i]);
        assert(forall|i: int| 0 <= i < d.len() ==> #[trigger] d[i] == rows[i]);
        assert(rows[rows.len() - 1] == rows.last());
    }
}

/// A row of the audit log is that of its event: found under the event and its session,
/// linked as the event is, with the hash of the event's JSON, and opening to that JSON.
/// Linking an event changes nothing else of it.
pub proof fn law_row_tells_of_its_event(
    root: Seq<u8>,
    row: AuditRowView,
    event: AuditView,
    json: Seq<u8>,
    prev: Seq<char>,
)
    requires
        is_row_of(root, row, event, json),
    ensures
        row.event_id == event.event_id.text(),
        event.session_id matches Some(s) ==> row.session_id == Some(s.text()),
        event.session_id is None ==> row.session_id is None,
        row.prev_hash == event.prev_hash,
        row.hash == hex_text(sha256(json)),
        unsealed(root, "audit"@, row.event_id, row.enc, row.nonce) == Some(json),
        linked(event, Some(prev)).prev_hash == prev,
        (AuditView { prev_hash: event.prev_hash, ..linked(event, Some(prev)) }) == event,
        linked(event, None).prev_hash.len() == 0,
{
}

/// A payload is bound to its record: it opens with the key of the record's own collection
/// and identifier, and with the identifier as additional data. A nonce of another length
/// than twelve bytes opens nothing.
pub proof fn law_payload_is_bound_to_its_record(
    root: Seq<u8>,
    collection: Seq<char>,
    id: Seq<char>,
    enc: Seq<u8>,
    nonce: Seq<u8>,
)
    ensures
        nonce.len() == 12 ==> unsealed(root, collection, id, enc, nonce)
            == gcm_opened(
            hkdf_sha256(root, record_info(collection, encode_utf8(id))),
            nonce,
            enc,
            encode_utf8(id),
        ),
        nonce.len() != 12 ==> unsealed(root, collection, id, enc, nonce) is None,
{
}

} // verus!
