//! The encrypted store, the keystore, and the stores kept in memory.

use mahi::agent::turn::Fresh;
use mahi::contracts::data::{
    AccessLevel, Artifact, AuditActor, AuditEvent, AuditEventType, AuditOutcome, Checkpoint,
    Conversation, MemoryKind, MemoryRecord, Message, MessageRole, PermissionGrant,
    PermissionSubject, PermissionTier, Setting, Skill, SkillScope, TaskItem, TaskStatus,
};
use mahi::contracts::error::ContractError;
use mahi::contracts::testkit::in_memory_datastore;
use mahi::contracts::types::ComputeMode;
use mahi::data::crypto::{
    decrypt, derive_key, encrypt, encrypt_with, record_key, sha256_hex,
};
use mahi::data::keystore::{FileKeystore, PlatformKeystore};
use mahi::data::store::{
    conversation_columns, grant_columns, memory_columns, message_columns, next_sequence,
    scope_key, serialization_error, skill_columns, subject_key, AuditRow, SealedRow,
    SqliteBackend,
};
use mahi::ident::{Timestamp, Uuid};
use mahi::json::Json;

const ROOT: [u8; 32] = [5u8; 32];

fn at(secs: i64) -> Timestamp {
    Timestamp { secs, nanos: 0 }
}

fn memory(id: u128, content: &str) -> MemoryRecord {
    MemoryRecord {
        id: Uuid(id),
        space_id: None,
        kind: MemoryKind::Fact,
        content: content.to_string(),
        embedding_ref: None,
        source_message_id: None,
        created_at: at(1),
        updated_at: at(1),
        user_visible: true,
        user_confirmed: false,
    }
}

fn event(id: u128, session: Option<u128>) -> AuditEvent {
    AuditEvent {
        event_id: Uuid(id),
        device_id: Uuid(99),
        session_id: session.map(Uuid),
        event_type: AuditEventType::ToolCall,
        actor: AuditActor::Agent,
        resource_ref: Some("echo".to_string()),
        outcome: AuditOutcome::Allowed,
        metadata: Json::Null,
        timestamp: at(id as i64),
        prev_hash: String::new(),
    }
}

/// A stand-in for the printed form of an event, which holds the link.
fn print_event(e: AuditEvent) -> Result<Vec<u8>, ContractError> {
    Ok(format!("{}|{}", e.event_id.to_text(), e.prev_hash).into_bytes())
}

fn same(payload: Vec<u8>) -> Result<Vec<u8>, ContractError> {
    Ok(payload)
}

fn grow(backend: &SqliteBackend, n: u128) -> Vec<AuditRow> {
    let mut rows: Vec<AuditRow> = Vec::new();
    for i in 0..n {
        let last = rows.last().map(|r| r.hash.clone());
        rows.push(backend.append(event(i + 1, Some(7)), &last, print_event).expect("appended"));
    }
    rows
}

fn print_json(e: AuditEvent) -> Result<Vec<u8>, ContractError> {
    let mut fields = serde_json::Map::new();
    fields.insert("event_id".to_string(), e.event_id.to_text().into());
    fields.insert("resource_ref".to_string(), e.resource_ref.into());
    fields.insert("metadata".to_string(), e.metadata.to_text().into());
    fields.insert("secs".to_string(), e.timestamp.secs.into());
    fields.insert("nanos".to_string(), e.timestamp.nanos.into());
    fields.insert("prev_hash".to_string(), e.prev_hash.into());
    Ok(serde_json::Value::Object(fields).to_string().into_bytes())
}

fn read_json(payload: Vec<u8>) -> Result<AuditEvent, ContractError> {
    let v: serde_json::Value =
        serde_json::from_slice(&payload).map_err(|e| serialization_error(&e.to_string()))?;
    let text = |key: &str| v[key].as_str().unwrap_or_default().to_string();
    Ok(AuditEvent {
        event_id: Uuid::parse_str(&text("event_id")).expect("an identifier"),
        device_id: Uuid(0),
        session_id: None,
        event_type: AuditEventType::ToolCall,
        actor: AuditActor::Agent,
        resource_ref: v["resource_ref"].as_str().map(str::to_string),
        outcome: AuditOutcome::Allowed,
        metadata: Json::parse(&text("metadata")).expect("JSON"),
        timestamp: Timestamp {
            secs: v["secs"].as_i64().expect("seconds"),
            nanos: v["nanos"].as_u64().expect("nanoseconds") as u32,
        },
        prev_hash: text("prev_hash"),
    })
}

#[test]
fn audit_chain_is_tamper_evident() {
    let backend = SqliteBackend::new([7u8; 32]);
    let mut rows: Vec<AuditRow> = Vec::new();
    for i in 0..5 {
        let ev = AuditEvent {
            event_id: Uuid::new_v4(),
            device_id: Uuid(0),
            session_id: None,
            event_type: AuditEventType::ToolCall,
            actor: AuditActor::Agent,
            resource_ref: Some(format!("tool-{i}")),
            outcome: AuditOutcome::Allowed,
            metadata: Json::parse(&format!("{{\"i\":{i}}}")).expect("JSON"),
            timestamp: Fresh::draw().at,
            prev_hash: String::new(),
        };
        let last = rows.last().map(|r| r.hash.clone());
        rows.push(backend.append(ev, &last, print_json).expect("append"));
    }
    let reprint = |payload: Vec<u8>| read_json(payload).and_then(print_json);
    assert!(backend.verify_chain(&rows, reprint).expect("verify"));

    let sealed: Vec<SealedRow> = rows
        .iter()
        .map(|r| SealedRow {
            id: r.event_id.clone(),
            enc: r.enc.clone(),
            nonce: r.nonce.clone(),
        })
        .collect();
    let events = backend.read_all("audit", &sealed, read_json).expect("query");
    assert_eq!(events.len(), 5);
    // Each event carries the previous event's hash as prev_hash (genesis = "").
    assert_eq!(events[0].prev_hash, "");
    assert!(!events[1].prev_hash.is_empty());
    for i in 0..5 {
        assert_eq!(events[i].resource_ref, Some(format!("tool-{i}")));
        if i > 0 {
            assert_eq!(events[i].prev_hash, rows[i - 1].hash);
        }
    }
    for i in 0..5 {
        let kept = rows[i].hash.clone();
        rows[i].hash = "deadbeef".to_string();
        assert!(!backend.verify_chain(&rows, reprint).expect("verify"));
        rows[i].hash = kept;
        let kept = rows[i].prev_hash.clone();
        rows[i].prev_hash = "deadbeef".to_string();
        assert!(!backend.verify_chain(&rows, reprint).expect("verify"));
        rows[i].prev_hash = kept;
    }
}

#[test]
fn changed_audit_rows_are_found_out() {
    let backend = SqliteBackend::new(ROOT);
    let rows = grow(&backend, 3);
    assert_eq!(rows[0].prev_hash, "");
    assert_eq!(rows[1].prev_hash, rows[0].hash);
    assert_eq!(rows[0].session_id.as_deref(), Some("00000000-0000-0000-0000-000000000007"));
    assert!(backend.verify_chain(&rows, same).unwrap());
    assert!(backend.verify_chain(&Vec::new(), same).unwrap());

    let mut changed = grow(&backend, 3);
    changed[1].hash = "deadbeef".to_string();
    assert!(!backend.verify_chain(&changed, same).unwrap());

    let mut relinked = grow(&backend, 3);
    relinked[2].prev_hash = "deadbeef".to_string();
    assert!(!backend.verify_chain(&relinked, same).unwrap());

    let mut removed = grow(&backend, 3);
    removed.remove(1);
    assert!(!backend.verify_chain(&removed, same).unwrap());

    let mut garbled = grow(&backend, 3);
    garbled[0].enc[0] ^= 1;
    let err = backend.verify_chain(&garbled, same).unwrap_err();
    assert!(err.to_text().contains("AEAD failure"), "got: {}", err.to_text());

    let mut swapped = grow(&backend, 2);
    let other = backend
        .seal("audit", &swapped[0].event_id, b"another event")
        .expect("sealed");
    swapped[0].enc = other.enc;
    swapped[0].nonce = other.nonce;
    assert!(!backend.verify_chain(&swapped, same).unwrap());
}

#[test]
fn printing_errors_are_handed_on() {
    let backend = SqliteBackend::new(ROOT);
    let failed = backend.append(event(1, None), &None, |_| Err(serialization_error("no")));
    assert!(failed.unwrap_err().to_text().contains("no"));
    let rows = grow(&backend, 1);
    let failed = backend.verify_chain(&rows, |_| Err(serialization_error("bad")));
    assert!(failed.unwrap_err().to_text().contains("bad"));
}

#[test]
fn conversation_and_message_round_trip() {
    let mut store = in_memory_datastore();
    let conv = Conversation::new(ComputeMode::OnDevice);
    let id = conv.id;
    store.conversations.upsert(conv);

    let seq = store.messages.next_sequence(id);
    assert_eq!(seq, 0);
    let msg = Message::text(id, MessageRole::User, "hello", ComputeMode::OnDevice, seq);
    store.messages.append(msg);

    let got = store.conversations.get(id).expect("present");
    assert_eq!(got.id, id);

    let msgs = store.messages.range(id, 10);
    assert_eq!(msgs.len(), 1);
    assert_eq!(msgs[0].text_content(), "hello");
    assert_eq!(store.messages.next_sequence(id), 1);

    let list = store.conversations.list(10);
    assert_eq!(list.len(), 1);
}

#[test]
fn a_limit_keeps_the_latest_messages() {
    let mut store = in_memory_datastore();
    let id = Uuid(4);
    for (number, text) in [(2, "third"), (0, "first"), (1, "second")] {
        store.messages.append(Message::text(
            id,
            MessageRole::User,
            text,
            ComputeMode::OnDevice,
            number,
        ));
    }
    let texts = |limit: usize| -> Vec<String> {
        store.messages.range(id, limit).iter().map(|m| m.text_content()).collect()
    };
    assert_eq!(texts(2), vec!["second", "third"]);
    assert_eq!(texts(1), vec!["third"]);
    assert_eq!(texts(3), vec!["first", "second", "third"]);
    assert!(texts(0).is_empty());
}

#[test]
fn sealed_rows_open_only_as_what_they_are() {
    let backend = SqliteBackend::new(ROOT);
    let row = backend.seal("conversations", "id-1", b"{\"title\":\"x\"}").expect("sealed");
    assert_eq!(row.nonce.len(), 12);
    assert_ne!(row.enc, b"{\"title\":\"x\"}".to_vec());
    let opened = backend.unseal("conversations", "id-1", &row.enc, &row.nonce).expect("opened");
    assert_eq!(opened, b"{\"title\":\"x\"}");
    // Another record, another collection or another root key does not open it.
    assert!(backend.unseal("conversations", "id-2", &row.enc, &row.nonce).is_err());
    assert!(backend.unseal("messages", "id-1", &row.enc, &row.nonce).is_err());
    let other = SqliteBackend::new([6u8; 32]);
    assert!(other.unseal("conversations", "id-1", &row.enc, &row.nonce).is_err());
    assert!(backend.unseal("conversations", "id-1", &row.enc, &[0u8; 11]).is_err());

    let rows = vec![row, backend.seal("conversations", "id-2", b"second").unwrap()];
    let all = backend.read_all("conversations", &rows, same).expect("both");
    assert_eq!(all.len(), 2);
    assert_eq!(all[1], b"second");
    let one = backend.read_one("conversations", &None, same).unwrap();
    assert!(one.is_none());
}

#[test]
fn memory_search_and_persistence_via_disk() {
    // The key is made, and its bytes are what the key file holds.
    let (keystore, written) = FileKeystore::load_or_create(&None);
    let key_file = written.expect("a new key is written");
    let backend = SqliteBackend::new(keystore.root_key());
    let id = Uuid::new_v4();
    let row = backend
        .seal("memory", &id.to_text(), b"The user prefers dark mode")
        .expect("upsert");
    let read = |payload: Vec<u8>| {
        let mut rec = memory(1, &String::from_utf8(payload).expect("text"));
        rec.user_confirmed = true;
        Ok(rec)
    };
    let rows = vec![row];
    let hits = backend.semantic_search("dark", &rows, read, 10).expect("search");
    assert_eq!(hits.len(), 1);
    let miss = backend.semantic_search("zzz", &rows, read, 10).expect("search");
    assert!(miss.is_empty());

    // Re-open: the key file persists, so the encrypted record decrypts again.
    let (again, rewritten) = FileKeystore::load_or_create(&Some(key_file));
    assert!(rewritten.is_none());
    let reopened = SqliteBackend::new(again.root_key());
    let row = rows.into_iter().next();
    let got = reopened.read_one("memory", &row, read).expect("get").expect("present");
    assert_eq!(got.content, "The user prefers dark mode");
}

#[test]
fn memories_are_searched_in_lower_case() {
    let backend = SqliteBackend::new(ROOT);
    let seal = |id: &str, content: &str| backend.seal("memory", id, content.as_bytes()).unwrap();
    let rows: Vec<SealedRow> = vec![
        seal("a", "Likes GREEN tea"),
        seal("b", "Drives a car"),
        seal("c", "green fields"),
    ];
    let read = |payload: Vec<u8>| Ok(memory(1, &String::from_utf8(payload).unwrap()));
    let contents = |query: &str, limit: usize| -> Vec<String> {
        backend
            .semantic_search(query, &rows, read, limit)
            .unwrap()
            .into_iter()
            .map(|m| m.content)
            .collect()
    };
    assert_eq!(contents("Green", 10), vec!["Likes GREEN tea", "green fields"]);
    assert_eq!(contents("", 2), vec!["Likes GREEN tea", "Drives a car"]);
    assert_eq!(contents("green", 0), vec!["Likes GREEN tea"]);
    assert!(contents("purple", 10).is_empty());
}

#[test]
fn permission_grant_check_revoke() {
    let mut store = in_memory_datastore();
    let subject = PermissionSubject::Tool("shell_exec".to_string());
    assert!(store.permissions.check(&subject).is_none());

    let grant = PermissionGrant {
        grant_id: Uuid::new_v4(),
        subject: PermissionSubject::Tool("shell_exec".to_string()),
        scope: vec!["cwd".to_string()],
        tier: PermissionTier::AllowAlways,
        access_level: AccessLevel::Full,
        device_id: Uuid(0),
        prompt_text: "Allow shell?".to_string(),
        granted_at: Fresh::draw().at,
        expires_at: None,
        revoked_at: None,
    };
    let gid = grant.grant_id;
    store.permissions.grant(grant);
    assert!(store.permissions.check(&subject).is_some());

    store.permissions.revoke(gid);
    assert!(store.permissions.check(&subject).is_none());
}

#[test]
fn grants_stand_until_they_are_revoked() {
    let mut store = in_memory_datastore();
    let subject = || PermissionSubject::Tool("shell".to_string());
    let grant = |id: u128| PermissionGrant {
        grant_id: Uuid(id),
        subject: subject(),
        scope: vec!["/tmp".to_string()],
        tier: PermissionTier::AllowAlways,
        access_level: AccessLevel::Full,
        device_id: Uuid(1),
        prompt_text: "Allow?".to_string(),
        granted_at: at(1),
        expires_at: None,
        revoked_at: None,
    };
    assert!(store.permissions.check(&subject()).is_none());
    store.permissions.grant(grant(1));
    store.permissions.grant(grant(2));
    assert_eq!(store.permissions.check(&subject()).unwrap().grant_id, Uuid(1));
    store.permissions.revoke(Uuid(1));
    assert_eq!(store.permissions.check(&subject()).unwrap().grant_id, Uuid(2));
    store.permissions.revoke_at(Uuid(2), at(9));
    assert!(store.permissions.check(&subject()).is_none());
    assert!(store
        .permissions
        .check(&PermissionSubject::Feature("shell".to_string()))
        .is_none());
    let all = store.permissions.list();
    assert_eq!(all.len(), 2);
    assert_eq!(all[1].revoked_at, Some(at(9)));
    assert_eq!(grant_columns(&all[1]).2, 1);
    assert_eq!(grant_columns(&grant(3)).1, "tool:shell");
    assert_eq!(grant_columns(&grant(3)).2, 0);
}

#[test]
fn digests_and_keys_are_those_of_the_algorithms() {
    assert_eq!(
        sha256_hex(b"abc"),
        "ba7816bf8f01cfea414140de5dae2223b00361a396177a9cb410ff61f20015ad"
    );
    assert_eq!(
        sha256_hex(b""),
        "e3b0c44298fc1c149afbf4c8996fb92427ae41e4649b934ca495991b7852b855"
    );
    // The key of a record is derived of the collection, a zero byte and its id.
    assert_eq!(record_key(&ROOT, "memory", b"id"), derive_key(&ROOT, b"memory\0id"));
    assert_ne!(record_key(&ROOT, "memory", b"id"), record_key(&ROOT, "skills", b"id"));
    assert_ne!(derive_key(&ROOT, b"x"), ROOT);
}

#[test]
fn sealed_payloads_open_only_under_the_same_key_and_data() {
    let key = [1u8; 32];
    let (ct, nonce) = encrypt(&key, b"hello", b"aad").expect("short enough");
    assert_eq!(ct.len(), 5 + 16);
    assert_eq!(decrypt(&key, &ct, &nonce, b"aad").expect("opens"), b"hello");
    assert!(decrypt(&[2u8; 32], &ct, &nonce, b"aad").is_err());
    assert!(decrypt(&key, &ct, &nonce, b"other").is_err());
    assert!(decrypt(&key, &ct, &nonce[..11], b"aad").is_err());
    assert!(decrypt(&key, &ct[..10], &nonce, b"aad").is_err());
    let (a, _) = encrypt_with(&key, [3u8; 12], b"hello", b"").unwrap();
    let (b, _) = encrypt_with(&key, [3u8; 12], b"hello", b"").unwrap();
    let (c, _) = encrypt_with(&key, [4u8; 12], b"hello", b"").unwrap();
    assert_eq!(a, b);
    assert_ne!(a, c);
}

#[test]
fn sealed_records_are_read_back_in_order() {
    let store = SqliteBackend::new(ROOT);
    let texts = ["first", "second", ""];
    let rows: Vec<SealedRow> = texts
        .iter()
        .enumerate()
        .map(|(i, t)| store.seal("settings", &format!("id-{i}"), t.as_bytes()).expect("sealed"))
        .collect();
    let read = |bytes: Vec<u8>| {
        String::from_utf8(bytes).map_err(|e| serialization_error(&e.to_string()))
    };
    assert_eq!(store.read_all("settings", &rows, read).expect("read"), texts);
    assert_eq!(
        store.read_one("settings", &rows.into_iter().next(), read).expect("read"),
        Some("first".to_string())
    );
    assert_eq!(store.read_one("settings", &None, read).expect("nothing to read"), None);
}

#[test]
fn times_fit_where_their_milliseconds_do() {
    assert!(at(0).fits_millis());
    assert!(at(-9_200_000_000_000_000).fits_millis());
    assert!(!at(i64::MAX).fits_millis());
    assert!(!at(i64::MIN).fits_millis());
    assert!(!Timestamp { secs: 0, nanos: 2_000_000_000 }.fits_millis());
    assert_eq!(Timestamp { secs: 2, nanos: 345_000_000 }.millis(), 2345);
}

#[test]
fn root_key_is_kept_or_made() {
    let held = FileKeystore::from_contents(&Some(vec![9u8; 32])).expect("thirty-two bytes");
    assert_eq!(held.root_key(), [9u8; 32]);
    assert!(FileKeystore::from_contents(&Some(vec![9u8; 31])).is_none());
    assert!(FileKeystore::from_contents(&None).is_none());
    let (kept, write) = FileKeystore::load_or_create(&Some(vec![9u8; 32]));
    assert_eq!(kept.root_key(), [9u8; 32]);
    assert!(write.is_none());
    let (fresh, write) = FileKeystore::load_or_create(&Some(vec![1u8]));
    assert_eq!(write.expect("to be written"), fresh.root_key().to_vec());
    assert_ne!(FileKeystore::ephemeral().root_key(), FileKeystore::ephemeral().root_key());
}

#[test]
fn columns_are_those_that_records_are_found_by() {
    assert_eq!(scope_key(&SkillScope::Global), "global");
    assert_eq!(
        scope_key(&SkillScope::Space(Uuid(1))),
        "space:00000000-0000-0000-0000-000000000001"
    );
    assert_eq!(
        scope_key(&SkillScope::User(Uuid(1))),
        "user:00000000-0000-0000-0000-000000000001"
    );
    assert_eq!(subject_key(&PermissionSubject::Feature("x".to_string())), "feature:x");
    assert_eq!(next_sequence(None), 0);
    assert_eq!(next_sequence(Some(4)), 5);
    let mut conv = Conversation::new(ComputeMode::OnDevice);
    conv.id = Uuid(2);
    conv.updated_at = Timestamp { secs: 3, nanos: 7_000_000 };
    assert_eq!(
        conversation_columns(&conv),
        ("00000000-0000-0000-0000-000000000002".to_string(), 3007)
    );
    let msg = Message::text(Uuid(2), MessageRole::User, "hi", ComputeMode::OnDevice, 6);
    assert_eq!(message_columns(&msg).2, 6);
    assert_eq!(memory_columns(&memory(1, "x")).1, None);
    let skill = Skill {
        id: Uuid(1),
        slug: "s".to_string(),
        scope: SkillScope::Global,
        source_markdown: String::new(),
        installed_by: Uuid(2),
        version: "1".to_string(),
        created_at: at(1),
        updated_at: at(1),
    };
    assert_eq!(skill_columns(&skill).1, "global");
}

#[test]
fn memory_stores_keep_one_record_for_each_identifier() {
    let mut store = in_memory_datastore();
    let mut older = Conversation::new(ComputeMode::OnDevice);
    older.id = Uuid(1);
    older.updated_at = at(10);
    let mut newer = Conversation::new(ComputeMode::Hosted);
    newer.id = Uuid(2);
    newer.updated_at = at(20);
    store.conversations.upsert(older.clone());
    store.conversations.upsert(newer);
    let listed: Vec<Uuid> = store.conversations.list(10).iter().map(|c| c.id).collect();
    assert_eq!(listed, vec![Uuid(2), Uuid(1)], "newest first");
    assert_eq!(store.conversations.list(1).len(), 1);
    older.updated_at = at(30);
    store.conversations.upsert(older);
    assert_eq!(store.conversations.list(10)[0].id, Uuid(1));
    assert_eq!(store.conversations.list(10).len(), 2);
    store.conversations.delete(Uuid(1));
    assert!(store.conversations.get(Uuid(1)).is_none());
    assert!(store.conversations.get(Uuid(2)).is_some());

    store.memory.upsert(memory(1, "Green tea"));
    store.memory.upsert(MemoryRecord { space_id: Some(Uuid(8)), ..memory(2, "green car") });
    assert_eq!(store.memory.semantic_search("GREEN", None, 5).len(), 2);
    assert_eq!(store.memory.semantic_search("green", Some(Uuid(8)), 5).len(), 1);
    assert_eq!(store.memory.semantic_search("", None, 1).len(), 1);

    let task = TaskItem {
        task_id: Uuid(4),
        origin_device: Uuid(1),
        assigned_device: None,
        status: TaskStatus::Pending,
        summary: "do".to_string(),
        capabilities_required: vec![],
        created_at: at(1),
        updated_at: at(1),
        expires_at: None,
    };
    store.tasks.upsert(task);
    assert_eq!(store.tasks.list(5).len(), 1);
    assert_eq!(store.tasks.list(0).len(), 0);

    let artifact = Artifact {
        id: Uuid(5),
        conversation_id: None,
        kind: "html".to_string(),
        content_type: "text/html".to_string(),
        bytes: vec![1, 2],
        created_at: at(1),
    };
    store.artifacts.write(artifact);
    assert_eq!(store.artifacts.read(Uuid(5)).unwrap().bytes, vec![1, 2]);
    assert!(store.artifacts.read(Uuid(6)).is_none());

    let setting = |v: u64| Setting {
        key: "theme".to_string(),
        value: Json::natural(v),
        updated_at: at(1),
    };
    assert!(store.settings.get("theme").is_none());
    store.settings.set(setting(1));
    store.settings.set(setting(2));
    assert_eq!(store.settings.get("theme").unwrap().value.as_u64(), Some(2));
    assert!(store.settings.get("other").is_none());

    let checkpoint = |id: u128, conv: u128, secs: i64| Checkpoint {
        id: Uuid(id),
        conversation_id: Uuid(conv),
        captured_at: at(secs),
        mode_at_capture: ComputeMode::MacLan,
        state: Json::Null,
    };
    store.checkpoints.write(checkpoint(1, 1, 5));
    store.checkpoints.write(checkpoint(2, 1, 9));
    store.checkpoints.write(checkpoint(3, 1, 7));
    store.checkpoints.write(checkpoint(4, 2, 99));
    assert_eq!(store.checkpoints.latest(Uuid(1)).unwrap().id, Uuid(2));
    assert!(store.checkpoints.latest(Uuid(3)).is_none());
}

#[test]
fn memory_messages_come_by_their_numbers() {
    let mut store = in_memory_datastore();
    let conv = Uuid(1);
    assert_eq!(store.messages.next_sequence(conv), 0);
    for (seq, c) in [(2, 1), (0, 1), (7, 2), (1, 1)] {
        store.messages.append(Message::text(
            Uuid(c),
            MessageRole::User,
            "m",
            ComputeMode::OnDevice,
            seq,
        ));
    }
    let seqs: Vec<i64> = store.messages.range(conv, 10).iter().map(|m| m.sequence_num).collect();
    assert_eq!(seqs, vec![0, 1, 2]);
    assert_eq!(store.messages.range(conv, 2).len(), 2);
    assert_eq!(store.messages.next_sequence(conv), 3);

    store.audit.append(event(1, Some(1)));
    store.audit.append(event(2, Some(2)));
    assert_eq!(store.audit.query(Some(Uuid(2)), 5).len(), 1);
    assert_eq!(store.audit.query(None, 5).len(), 2);
    assert_eq!(store.audit.query(None, 1)[0].event_id, Uuid(1));
}

#[test]
fn skills_are_listed_by_scope() {
    let mut store = in_memory_datastore();
    for (id, scope) in [(1, SkillScope::Global), (2, SkillScope::User(Uuid(3)))] {
        store.skills.upsert(Skill {
            id: Uuid(id),
            slug: "s".to_string(),
            scope,
            source_markdown: String::new(),
            installed_by: Uuid(2),
            version: "1".to_string(),
            created_at: at(1),
            updated_at: at(1),
        });
    }
    assert_eq!(store.skills.list_by_scope(SkillScope::Global).len(), 1);
    assert_eq!(store.skills.list_by_scope(SkillScope::User(Uuid(3)))[0].id, Uuid(2));
    assert!(store.skills.list_by_scope(SkillScope::Space(Uuid(3))).is_empty());
}
