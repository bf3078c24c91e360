//! The smaller rules: error texts, tool results, rounds, texts, paths, tables.

use mahi::agent::approval::ApprovalRegistry;
use mahi::agent::context::{compact, message_cost};
use mahi::agent::engine::{title_from_text, MahiEngine};
use mahi::agent::round::{Round, RoundOutcome};
use mahi::agent::tool_call::{
    build_denied_output, build_error_output, parse_args, screenshot_image_block,
    tool_result_message, truncate_for_summary,
};
use mahi::agent::turn::Fresh;
use mahi::contracts::agent::AgentEvent;
use mahi::contracts::compute::{FinishReason, InferenceChunk, ToolCallDelta};
use mahi::contracts::connectivity::ChannelId;
use mahi::contracts::data::{ContentBlock, Conversation, Message, MessageRole};
use mahi::contracts::error::{
    ConnectivityError, ContractError, InferenceError, PermissionError, StoreError, ToolError,
};
use mahi::contracts::types::ComputeMode;
use mahi::ident::{Timestamp, Uuid};
use mahi::json::Json;
use mahi::paths::{join_path, split_extension};
use mahi::text::{
    decode_hex, first_nonblank_line, pad, parse_u64, shorten, split_text, strip_prefix,
    text_contains, to_ascii_lowercase, trim_text,
};

fn j(text: &str) -> Json {
    Json::parse(text).expect("valid JSON")
}

fn message(text: &str) -> Message {
    Message::text(Uuid(1), MessageRole::User, text, ComputeMode::OnDevice, 0)
}

#[test]
fn every_error_has_its_text() {
    let mode = ComputeMode::MacLan;
    let texts = [
        (
            ContractError::Inference(InferenceError::NoCapableProvider),
            "inference error: no provider can handle the request",
        ),
        (
            ContractError::Inference(InferenceError::PinViolation { requested: mode }),
            "inference error: pin violation: requested mode MacLan is unavailable",
        ),
        (
            ContractError::Inference(InferenceError::Provider {
                message: "busy".to_string(),
                retryable: true,
            }),
            "inference error: provider error: busy (retryable=true)",
        ),
        (
            ContractError::Inference(InferenceError::ThermalThrottle),
            "inference error: compute resource is thermally throttled",
        ),
        (
            ContractError::Tool(ToolError::NotFound { tool_id: "t".to_string() }),
            "tool error: tool not found: t",
        ),
        (
            ContractError::Tool(ToolError::UnavailableInMode { tool_id: "t".to_string(), mode }),
            "tool error: tool t unavailable in mode MacLan",
        ),
        (
            ContractError::Tool(ToolError::SchemaValidation { message: "no".to_string() }),
            "tool error: input schema validation failed: no",
        ),
        (ContractError::Tool(ToolError::SandboxViolation), "tool error: sandbox violation"),
        (
            ContractError::Tool(ToolError::Execution { message: "no".to_string() }),
            "tool error: tool execution failed: no",
        ),
        (
            ContractError::Store(StoreError::NotFound { id: Uuid(0xab) }),
            "store error: record not found: 00000000-0000-0000-0000-0000000000ab",
        ),
        (
            ContractError::Store(StoreError::Backend { message: "no".to_string() }),
            "store error: storage backend error: no",
        ),
        (
            ContractError::Store(StoreError::Encryption { message: "no".to_string() }),
            "store error: encryption error: no",
        ),
        (
            ContractError::Store(StoreError::Serialization { message: "no".to_string() }),
            "store error: serialization error: no",
        ),
        (
            ContractError::Connectivity(ConnectivityError::PeerUnreachable { peer_id: Uuid(1) }),
            "connectivity error: peer unreachable: 00000000-0000-0000-0000-000000000001",
        ),
        (
            ContractError::Connectivity(ConnectivityError::ChannelClosed {
                channel: ChannelId::Control,
            }),
            "connectivity error: channel Control is not open",
        ),
        (
            ContractError::Connectivity(ConnectivityError::Transport {
                message: "no".to_string(),
            }),
            "connectivity error: transport error: no",
        ),
        (
            ContractError::Permission(PermissionError::Denied {
                subject: "shell".to_string(),
                scope: vec!["a\"b".to_string(), "c".to_string()],
            }),
            "permission error: permission denied for shell in scope [\"a\\\"b\", \"c\"]",
        ),
        (
            ContractError::Permission(PermissionError::HardRuleBlocked {
                rule_name: "r".to_string(),
            }),
            "permission error: blocked by hard rule: r",
        ),
        (
            ContractError::Permission(PermissionError::Backend { message: "no".to_string() }),
            "permission error: backend error: no",
        ),
        (ContractError::Cancelled, "operation cancelled"),
        (ContractError::other("plain".to_string()), "plain"),
    ];
    for (error, text) in texts {
        assert_eq!(error.to_text(), text);
    }
}

#[test]
fn screenshots_are_attached_for_models_that_see() {
    let at = Timestamp { secs: 7, nanos: 0 };
    let shot = || j("{\"image_hex\":\"48656C6c6f\",\"width\":2}");
    let seen = tool_result_message(
        "c1",
        shot(),
        Some(Uuid(9)),
        true,
        Uuid(1),
        ComputeMode::MacLan,
        Uuid(2),
        at,
    );
    assert_eq!(seen.content.len(), 2);
    assert_eq!(seen.approval_refs, vec![Uuid(9)]);
    match &seen.content[0] {
        ContentBlock::ToolResult { call_id, output } => {
            assert_eq!(call_id, "c1");
            assert_eq!(
                output.to_text(),
                "{\"note\":\"screenshot captured; image attached for vision models\",\"width\":2}"
            );
        }
        _ => panic!("a result comes first"),
    }
    match &seen.content[1] {
        ContentBlock::Image { media_type, data } => {
            assert_eq!(media_type, "image/png");
            assert_eq!(data, "SGVsbG8=");
        }
        _ => panic!("the image comes second"),
    }
    let blind = tool_result_message(
        "c1",
        shot(),
        None,
        false,
        Uuid(1),
        ComputeMode::MacLan,
        Uuid(2),
        at,
    );
    assert_eq!(blind.content.len(), 1);
    assert!(blind.approval_refs.is_empty());
}

#[test]
fn last_entry_under_a_key_counts() {
    let text = |n: &str| Json::Str(n.to_string());
    let object = Json::object(vec![
        ("a".to_string(), text("first")),
        ("b".to_string(), text("only")),
        ("a".to_string(), text("second")),
        ("c".to_string(), Json::object(vec![
            ("d".to_string(), Json::Null),
            ("d".to_string(), Json::Bool(true)),
        ])),
        ("a".to_string(), text("third")),
    ]);
    assert_eq!(object.to_text(), "{\"a\":\"third\",\"b\":\"only\",\"c\":{\"d\":true}}");
    assert_eq!(object.at("a").str_or_empty(), "third");
    let changed = j("{\"note\":\"old\",\"width\":2}").with("note", text("new"));
    assert_eq!(changed.to_text(), "{\"note\":\"new\",\"width\":2}");
    assert_eq!(changed.without("note").to_text(), "{\"width\":2}");
}

#[test]
fn fresh_identifiers_are_of_version_four() {
    let conversation = Conversation::new(ComputeMode::OnDevice);
    let message =
        Message::text(conversation.id, MessageRole::User, "hi", ComputeMode::OnDevice, 0);
    let mut approvals: ApprovalRegistry<u8> = ApprovalRegistry::new();
    let approval = approvals.register(1);
    for id in [conversation.id, message.id, approval] {
        let digits = id.to_text();
        assert_eq!(&digits[14..15], "4");
        assert!(["8", "9", "a", "b"].contains(&&digits[19..20]));
    }
    assert!(conversation.created_at.nanos < 1_000_000_000);
    assert!(conversation.created_at.secs > 0);
    assert_eq!(approvals.resolve(approval).unwrap(), 1);
}

#[test]
fn only_digits_make_a_screenshot() {
    assert!(screenshot_image_block(&j("{\"image_hex\":\"4g\"}")).is_none());
    assert!(screenshot_image_block(&j("{\"image_hex\":\"486\"}")).is_none());
    assert!(screenshot_image_block(&j("{\"image_hex\":\"\"}")).is_none());
    assert!(screenshot_image_block(&j("{\"image_hex\":7}")).is_none());
    assert!(screenshot_image_block(&j("[1]")).is_none());
    assert_eq!(
        screenshot_image_block(&j("{\"image_hex\":\"ff00\"}")),
        Some(("image/png".to_string(), "/wA=".to_string()))
    );
    assert_eq!(decode_hex("00fF"), Some(vec![0, 255]));
    assert_eq!(decode_hex(""), Some(vec![]));
    assert_eq!(decode_hex("0"), None);
    assert_eq!(decode_hex("é"), None);
}

#[test]
fn arguments_are_parsed_or_kept_as_text() {
    assert_eq!(parse_args("  ").to_text(), "{}");
    assert_eq!(parse_args(" {\"b\": 1, \"a\": [true, null]} ").to_text(), "{\"a\":[true,null],\"b\":1}");
    assert_eq!(parse_args("not json").to_text(), "\"not json\"");
    assert_eq!(build_error_output("no").to_text(), "{\"error\":\"no\"}");
    assert_eq!(
        build_denied_output().to_text(),
        "{\"denied\":true,\"message\":\"the user denied this action\"}"
    );
    assert_eq!(truncate_for_summary("abc", 3), "abc");
    assert_eq!(truncate_for_summary("abcd", 3), "abc\u{2026}");
}

#[test]
fn rounds_gather_text_and_calls() {
    let call = |id: &str, tool: &str, args: &str| InferenceChunk {
        delta: None,
        tool_call_delta: Some(ToolCallDelta {
            call_id: id.to_string(),
            tool_id: tool.to_string(),
            args_delta: args.to_string(),
        }),
        thinking_delta: None,
        finish_reason: None,
        active_mode: ComputeMode::Hosted,
        latency_hint_ms: None,
    };
    let mut round = Round::new();
    assert_eq!(round.outcome(FinishReason::ToolCall), RoundOutcome::Finished(FinishReason::Stop));
    let events = round.add_chunk(
        ComputeMode::OnDevice,
        InferenceChunk::text("hi ", ComputeMode::Hosted),
    );
    assert_eq!(events.len(), 2);
    assert!(matches!(
        events[0],
        AgentEvent::ModeHandoff { from: ComputeMode::OnDevice, to: ComputeMode::Hosted }
    ));
    assert!(matches!(&events[1], AgentEvent::TextDelta { text } if text == "hi "));
    round.add_chunk(
        ComputeMode::Hosted,
        InferenceChunk::text("there", ComputeMode::Hosted),
    );
    round.add_chunk(ComputeMode::Hosted, call("a", "read", "{\"p\":"));
    round.add_chunk(ComputeMode::Hosted, call("b", "list", ""));
    round.add_chunk(ComputeMode::Hosted, call("a", "other", "1}"));
    assert_eq!(round.text, "hi there");
    assert_eq!(round.calls.len(), 2);
    assert_eq!(round.calls[0].tool_id, "read");
    assert_eq!(round.calls[0].args_raw, "{\"p\":1}");
    assert_eq!(round.calls[1].call_id, "b");
    assert_eq!(round.outcome(FinishReason::ToolCall), RoundOutcome::ToolCalls);
    assert_eq!(round.outcome(FinishReason::Cancelled), RoundOutcome::Cancelled);
    assert_eq!(
        round.outcome(FinishReason::MaxTokens),
        RoundOutcome::Finished(FinishReason::MaxTokens)
    );
}

#[test]
fn messages_cost_the_bytes_of_their_content() {
    // [{"type":"text","text":"héllo"}]
    assert_eq!(message_cost(&message("h\u{e9}llo")), 33);
    let history = || vec![message("one"), message("two"), message("three")];
    let kept = |budget: usize| compact(Vec::new(), history(), budget).len();
    let costs: Vec<usize> = history().iter().map(message_cost).collect();
    assert_eq!(kept(0), 1);
    assert_eq!(kept(costs[2] + costs[1]), 2);
    assert_eq!(kept(costs[2] + costs[1] + costs[0] - 1), 2);
    assert_eq!(kept(costs[2] + costs[1] + costs[0]), 3);
}

#[test]
fn texts_are_cut_and_compared() {
    assert_eq!(trim_text(" \u{a0}\ta b\n"), "a b");
    assert_eq!(shorten("abcdef", 3), "abc\u{2026}");
    assert_eq!(shorten("abc", 3), "abc");
    assert_eq!(first_nonblank_line("\n  \r\n  x y \nz"), Some("x y".to_string()));
    assert_eq!(first_nonblank_line(" \n "), None);
    assert_eq!(split_text("a|b||", '|'), ["a", "b", "", ""]);
    assert_eq!(to_ascii_lowercase("YeS\u{c9}"), "yes\u{c9}");
    assert_eq!(pad("ab", 4), "ab  ");
    assert_eq!(pad("abcde", 4), "abcde");
    assert_eq!(strip_prefix("/spawn x", "/spawn"), Some(" x".to_string()));
    assert_eq!(strip_prefix("/spaw", "/spawn"), None);
    assert!(text_contains("abcabd", "abd"));
    assert!(!text_contains("abc", "abcd"));
    assert_eq!(parse_u64("18446744073709551615"), Some(u64::MAX));
    assert_eq!(parse_u64("18446744073709551616"), None);
    assert_eq!(parse_u64("+7"), Some(7));
    assert_eq!(parse_u64("-7"), None);
    assert_eq!(parse_u64(""), None);
}

#[test]
fn fresh_identifiers_are_random_ones_of_version_four() {
    let fresh = Fresh::draw();
    for id in [fresh.first, fresh.second, fresh.third, Uuid::new_v4()] {
        let text = id.to_text();
        assert_eq!(&text[14..15], "4");
        assert!(matches!(&text[19..20], "8" | "9" | "a" | "b"));
        assert_eq!(Uuid::parse_str(&text), Ok(id));
    }
    assert_ne!(fresh.first, fresh.second);
    assert_ne!(fresh.second, fresh.third);
    assert!(fresh.at.fits_millis());
    assert!(fresh.at.nanos < 1_000_000_000);
}

#[test]
fn twenty_five_characters_are_white_space() {
    let blank: Vec<u32> = (0..=0x10ffffu32)
        .filter_map(char::from_u32)
        .filter(|c| trim_text(&c.to_string()).is_empty())
        .map(u32::from)
        .collect();
    let mut listed: Vec<u32> = (0x9..=0xd).collect();
    listed.extend([0x20, 0x85, 0xa0, 0x1680]);
    listed.extend(0x2000..=0x200a);
    listed.extend([0x2028, 0x2029, 0x202f, 0x205f, 0x3000]);
    assert_eq!(blank, listed);
}

#[test]
fn titles_are_short_lines() {
    let long = "word ".repeat(20);
    let texts = ["", " \n ", "one\ntwo", "\r\n  first line  \r\nsecond", long.as_str(), "a\rb"];
    for text in texts {
        let title = title_from_text(text);
        assert!(!title.is_empty());
        assert!(!title.contains('\n'));
        assert!(title.chars().count() <= 49);
        assert_eq!(title_from_text(&title), title);
    }
    assert_eq!(title_from_text(" \n "), "New conversation");
    assert_eq!(title_from_text("\r\n  first line  \r\nsecond"), "first line");
}

#[test]
fn turns_begin_with_a_message_and_a_title() {
    let engine = MahiEngine::new(Uuid(7));
    let conversation = Conversation::new(ComputeMode::Hosted);
    let id = conversation.id;
    let begun = engine
        .run_turn(id, Some(conversation.clone()), "plan a trip\nplease".to_string(), 3)
        .expect("the conversation is there");
    assert_eq!(begun.user_message.text_content(), "plan a trip\nplease");
    assert_eq!(begun.user_message.sequence_num, 3);
    assert_eq!(begun.user_message.mode, ComputeMode::Hosted);
    let titled = begun.titled.expect("it had no title");
    assert_eq!(titled.title.as_deref(), Some("plan a trip"));
    assert!(!begun.runner.is_done());
    let again = engine.run_turn(id, Some(titled), "and a hotel".to_string(), 4).unwrap();
    assert!(again.titled.is_none(), "a title is kept");
    let missing = engine.run_turn(id, None, "hello".to_string(), 0).err().unwrap();
    assert!(matches!(missing, ContractError::Store(StoreError::NotFound { id: m }) if m == id));
}

#[test]
fn paths_are_joined_and_split() {
    assert_eq!(join_path("/a/b", "c"), "/a/b/c");
    assert_eq!(join_path("/a/b/", "c"), "/a/b/c");
    assert_eq!(
        split_extension("m.tar.gz"),
        Some(("m.tar".to_string(), "gz".to_string()))
    );
    assert_eq!(split_extension(".hidden"), None);
    assert_eq!(split_extension("plain"), None);
}
