//! Tool calls: arguments, approval summaries, audit events and result messages.

use crate::agent::round::{CallView, PendingToolCall};
use crate::contracts::data::{
    AuditActor, AuditEvent, AuditEventType, AuditOutcome, AuditView, BlockView, ContentBlock,
    Message, MessageRole, MessageView,
};
use crate::contracts::tooling::{ToolDescriptor, ToolDescriptorView};
use crate::contracts::types::ComputeMode;
use crate::ident::{Timestamp, Uuid};
use crate::json::{
    entry, entry_views, json_parsed, lemma_obj_at, lemma_obj_of_four, lemma_obj_of_two, obj, Json,
    JsonView,
};
use crate::model::views;
use crate::text::{
    char_is_whitespace, decode_hex, hex_bytes, is_hex, lemma_blank, shorten, shortened, stands_at,
    str_eq, trim, trim_text,
};
use vstd::prelude::*;
use vstd::utf8::encode_utf8;

verus! {

/// The arguments that a raw text stands for: an empty object where it is blank,
/// the value that it spells, or the text itself where it is no JSON.
pub open spec fn parsed_args(raw: Seq<char>) -> JsonView {
    if trim(raw).len() == 0 {
        obj(Seq::empty())
    } else {
        match json_parsed(trim(raw)) {
            Ok(v) => v,
            Err(_) => JsonView::Str(raw),
        }
    }
}

/// The arguments that a raw text stands for.
pub fn parse_args(raw: &str) -> (r: Json)
    ensures
        r@ == parsed_args(raw@),
{
    let trimmed = trim_text(raw);
    if trimmed.as_str().is_empty() {
        let es: Vec<(String, Json)> = Vec::new();
        assert(entry_views(es@) =~= Seq::empty());
        return Json::object(es);
    }
    args_from(Json::parse(trimmed.as_str()), raw)
}

/// The arguments, given what parsing a text that is not blank came to.
pub fn args_from(parsed: Result<Json, String>, raw: &str) -> (r: Json)
    ensures
        r@ == (match parsed {
            Ok(v) => v@,
            Err(_) => JsonView::Str(raw@),
        }),
{
    match parsed {
        Ok(v) => v,
        Err(_) => Json::string(raw),
    }
}

/// The most characters of the arguments that a summary shows.
pub const SUMMARY_ARGS_CHARS: usize = 200;

/// A text cut for a summary.
pub fn truncate_for_summary(s: &str, max_chars: usize) -> (r: String)
    ensures
        r@ == shortened(s@, max_chars as nat),
{
    shorten(s, max_chars)
}

/// The first tool with the given identifier, at or after `from`.
pub open spec fn tool_position(
    tools: Seq<ToolDescriptorView>,
    id: Seq<char>,
    from: int,
) -> Option<int>
    decreases tools.len() - from,
{
    if from >= tools.len() {
        None
    } else if tools[from].id == id {
        Some(from)
    } else {
        tool_position(tools, id, from + 1)
    }
}

/// The first tool with the given identifier.
pub fn find_tool(tools: &Vec<ToolDescriptor>, id: &str) -> (r: Option<usize>)
    ensures
        tool_position(views(tools@), id@, 0) == (match r {
            Some(i) => Some(i as int),
            None => None,
        }),
        r matches Some(i) ==> i < tools.len() && tools@[i as int].id@ == id@,
{
    let mut i: usize = 0;
    while i < tools.len()
        invariant
            i <= tools.len(),
            tool_position(views(tools@), id@, 0) == tool_position(views(tools@), id@, i as int),
        decreases tools.len() - i,
    {
        if str_eq(tools[i].id.as_str(), id) {
            return Some(i);
        }
        i += 1;
    }
    None
}

/// The summary that asks for approval of a call.
pub open spec fn approval_summary(tool: ToolDescriptorView, args_raw: Seq<char>) -> Seq<char> {
    "Run tool '"@ + tool.display_name + "' ("@ + tool.id + ") with args "@ + shortened(
        args_raw,
        SUMMARY_ARGS_CHARS as nat,
    )
}

/// The summary that asks for approval of a call.
pub fn build_approval_summary(tool: &ToolDescriptor, args_raw: &str) -> (r: String)
    ensures
        r@ == approval_summary(tool@, args_raw@),
{
    let mut s = "Run tool '".to_owned();
    s.append(tool.display_name.as_str());
    s.append("' (");
    s.append(tool.id.as_str());
    s.append(") with args ");
    s.append(truncate_for_summary(args_raw, SUMMARY_ARGS_CHARS).as_str());
    s
}

/// The message for a tool that does not exist.
pub open spec fn unknown_tool_text(tool_id: Seq<char>) -> Seq<char> {
    "model requested unknown tool '"@ + tool_id + "'"@
}

/// The message for a tool that does not exist.
pub fn build_unknown_tool_text(tool_id: &str) -> (r: String)
    ensures
        r@ == unknown_tool_text(tool_id@),
{
    let mut s = "model requested unknown tool '".to_owned();
    s.append(tool_id);
    s.append("'");
    s
}

/// The tool output that reports an error to the model.
pub open spec fn error_output(message: Seq<char>) -> JsonView {
    obj(seq![("error"@, JsonView::Str(message))])
}

/// The tool output that reports an error to the model.
pub fn build_error_output(message: &str) -> (r: Json)
    ensures
        r@ == error_output(message@),
{
    let es = vec![entry("error", Json::string(message))];
    assert(entry_views(es@) =~= seq![("error"@, JsonView::Str(message@))]);
    Json::object(es)
}

/// The tool output that reports a denial to the model.
pub open spec fn denied_output() -> JsonView {
    obj(
        seq![
            ("denied"@, JsonView::Bool(true)),
            ("message"@, JsonView::Str("the user denied this action"@)),
        ],
    )
}

/// The tool output that reports a denial to the model.
pub fn build_denied_output() -> (r: Json)
    ensures
        r@ == denied_output(),
{
    let es = vec![
        entry("denied", Json::Bool(true)),
        entry("message", Json::string("the user denied this action")),
    ];
    assert(entry_views(es@) =~= seq![
        ("denied"@, JsonView::Bool(true)),
        ("message"@, JsonView::Str("the user denied this action"@)),
    ]);
    Json::object(es)
}

/// An optional identifier as JSON.
pub open spec fn id_json(id: Option<Uuid>) -> JsonView {
    match id {
        Some(u) => JsonView::Str(u.text()),
        None => JsonView::Null,
    }
}

/// The audit event of a tool call.
pub open spec fn audit_view(
    call: CallView,
    outcome: AuditOutcome,
    approval: Option<Uuid>,
    conversation_id: Uuid,
    device_id: Uuid,
    trace_id: Uuid,
    event_id: Uuid,
    at: Timestamp,
) -> AuditView {
    AuditView {
        event_id,
        device_id,
        session_id: Some(conversation_id),
        event_type: AuditEventType::ToolCall,
        actor: AuditActor::Agent,
        resource_ref: Some(call.tool_id),
        outcome,
        metadata: obj(
            seq![
                ("call_id"@, JsonView::Str(call.call_id)),
                ("args"@, parsed_args(call.args_raw)),
                ("trace_id"@, JsonView::Str(trace_id.text())),
                ("approval_id"@, id_json(approval)),
            ],
        ),
        timestamp: at,
        prev_hash: Seq::empty(),
    }
}

/// The audit event of a tool call.
pub fn audit_tool_call(
    call: &PendingToolCall,
    outcome: AuditOutcome,
    approval: Option<Uuid>,
    conversation_id: Uuid,
    device_id: Uuid,
    trace_id: Uuid,
    event_id: Uuid,
    at: Timestamp,
) -> (r: AuditEvent)
    ensures
        r@ == audit_view(
            call@,
            outcome,
            approval,
            conversation_id,
            device_id,
            trace_id,
            event_id,
            at,
        ),
{
    let approval_json = match approval {
        Some(u) => Json::Str(u.to_text()),
        None => Json::Null,
    };
    let es = vec![
        entry("call_id", Json::string(call.call_id.as_str())),
        entry("args", parse_args(call.args_raw.as_str())),
        entry("trace_id", Json::Str(trace_id.to_text())),
        entry("approval_id", approval_json),
    ];
    assert(entry_views(es@) =~= seq![
        ("call_id"@, JsonView::Str(call@.call_id)),
        ("args"@, parsed_args(call@.args_raw)),
        ("trace_id"@, JsonView::Str(trace_id.text())),
        ("approval_id"@, id_json(approval)),
    ]);
    AuditEvent {
        event_id,
        device_id,
        session_id: Some(conversation_id),
        event_type: AuditEventType::ToolCall,
        actor: AuditActor::Agent,
        resource_ref: Some(call.tool_id.clone()),
        outcome,
        metadata: Json::object(es),
        timestamp: at,
        prev_hash: String::new(),
    }
}

/// The standard base64 digit for a value below sixty-four.
pub open spec fn base64_digit(n: int) -> char {
    if n < 26 {
        ('A' as int + n) as char
    } else if n < 52 {
        ('a' as int + (n - 26)) as char
    } else if n < 62 {
        ('0' as int + (n - 52)) as char
    } else if n == 62 {
        '+'
    } else {
        '/'
    }
}

/// The byte at `i`, zero beyond the end.
pub open spec fn byte_or_zero(s: Seq<u8>, i: int) -> int {
    if i < s.len() {
        s[i] as int
    } else {
        0
    }
}

/// The character at position `i` of the standard base64 text of `s`: each three
/// bytes give four digits, and a short last group is padded.
pub open spec fn base64_char(s: Seq<u8>, i: int) -> char {
    let g = 3 * (i / 4);
    let p = i % 4;
    let bits = byte_or_zero(s, g) * 65536 + byte_or_zero(s, g + 1) * 256 + byte_or_zero(s, g + 2);
    if (p == 2 && g + 1 >= s.len()) || (p == 3 && g + 2 >= s.len()) {
        '='
    } else if p == 0 {
        base64_digit(bits / 262144)
    } else if p == 1 {
        base64_digit((bits / 4096) % 64)
    } else if p == 2 {
        base64_digit((bits / 64) % 64)
    } else {
        base64_digit(bits % 64)
    }
}

/// The standard base64 text, with padding, of a run of bytes.
pub open spec fn base64_text(s: Seq<u8>) -> Seq<char> {
    Seq::new((4 * ((s.len() + 2) / 3)) as nat, |i: int| base64_char(s, i))
}

/// `base64::engine::general_purpose::STANDARD.encode`: the standard alphabet
/// with padding. The length of the text has to be representable.
#[verifier::external_body]
fn encode_base64(bytes: &Vec<u8>) -> (r: String)
    requires
        4 * ((bytes@.len() + 2) / 3) <= usize::MAX,
    ensures
        r@ == base64_text(bytes@),
{
    base64::Engine::encode(&base64::engine::general_purpose::STANDARD, bytes)
}

/// The hexadecimal screenshot in a tool output, where it has one.
pub open spec fn screenshot_hex(output: JsonView) -> Option<Seq<char>> {
    match output.at("image_hex"@) {
        JsonView::Str(s) => if s.len() > 0 {
            Some(s)
        } else {
            None
        },
        _ => None,
    }
}

/// The image block for a screenshot, where its digits spell any bytes.
pub open spec fn screenshot_block(output: JsonView) -> Option<BlockView> {
    match screenshot_hex(output) {
        Some(hex) => {
            let digits = encode_utf8(hex);
            if is_hex(digits) && digits.len() > 0 {
                Some(
                    BlockView::Image {
                        media_type: "image/png"@,
                        data: base64_text(hex_bytes(digits)),
                    },
                )
            } else {
                None
            }
        },
        None => None,
    }
}

/// The output as the model sees it: without the bytes of a screenshot.
pub open spec fn visible_output(output: JsonView) -> JsonView {
    if screenshot_hex(output) is Some {
        output.without("image_hex"@).with(
            "note"@,
            JsonView::Str("screenshot captured; image attached for vision models"@),
        )
    } else {
        output
    }
}

/// The blocks of a tool-result message: the output, and for a model that can
/// see, the screenshot.
pub open spec fn result_blocks(call_id: Seq<char>, output: JsonView, vision: bool) -> Seq<
    BlockView,
> {
    let result = BlockView::ToolResult { call_id, output: visible_output(output) };
    match screenshot_block(output) {
        Some(image) => if vision {
            seq![result, image]
        } else {
            seq![result]
        },
        None => seq![result],
    }
}

/// The image block for a screenshot, as its media type and its base64 text.
pub fn screenshot_image_block(output: &Json) -> (r: Option<(String, String)>)
    ensures
        screenshot_block(output@) == (match r {
            Some((media_type, data)) => Some(
                BlockView::Image { media_type: media_type@, data: data@ },
            ),
            None => None,
        }),
{
    let hex = match output.at("image_hex").as_str() {
        Some(s) => s,
        None => {
            return None;
        },
    };
    if hex.as_str().is_empty() {
        return None;
    }
    match decode_hex(hex.as_str()) {
        Some(bytes) => {
            if bytes.len() == 0 {
                return None;
            }
            Some(("image/png".to_owned(), encode_base64(&bytes)))
        },
        None => None,
    }
}

/// The tool-result message that feeds the next round.
pub open spec fn result_view(
    call_id: Seq<char>,
    output: JsonView,
    approval: Option<Uuid>,
    vision: bool,
    conversation_id: Uuid,
    mode: ComputeMode,
    id: Uuid,
    at: Timestamp,
) -> MessageView {
    MessageView {
        id,
        conversation_id,
        role: MessageRole::Tool,
        content: result_blocks(call_id, output, vision),
        model_id: None,
        mode,
        created_at: at,
        sequence_num: 0,
        approval_refs: match approval {
            Some(u) => seq![u],
            None => Seq::empty(),
        },
    }
}

/// The tool-result message that feeds the next round. The bytes of a screenshot
/// never go into its text.
pub fn tool_result_message(
    call_id: &str,
    output: Json,
    approval: Option<Uuid>,
    vision: bool,
    conversation_id: Uuid,
    mode: ComputeMode,
    id: Uuid,
    at: Timestamp,
) -> (r: Message)
    ensures
        r@ == result_view(
            call_id@,
            output@,
            approval,
            vision,
            conversation_id,
            mode,
            id,
            at,
        ),
{
    let ghost ov = output@;
    let has_image = match output.at("image_hex").as_str() {
        Some(s) => !s.as_str().is_empty(),
        None => false,
    };
    let image = if has_image && vision {
        screenshot_image_block(&output)
    } else {
        None
    };
    let shown = if has_image {
        output.without("image_hex").with(
            "note",
            Json::string("screenshot captured; image attached for vision models"),
        )
    } else {
        output
    };
    assert(shown@ == visible_output(ov));
    let mut content: Vec<ContentBlock> = Vec::new();
    content.push(ContentBlock::ToolResult { call_id: call_id.to_owned(), output: shown });
    match image {
        Some((media_type, data)) => {
            content.push(ContentBlock::Image { media_type, data });
        },
        None => {},
    }
    assert(views(content@) =~= result_blocks(call_id@, ov, vision));
    let mut approval_refs: Vec<Uuid> = Vec::new();
    match approval {
        Some(u) => {
            approval_refs.push(u);
        },
        None => {},
    }
    assert(approval_refs@ =~= (match approval {
        Some(u) => seq![u],
        None => Seq::empty(),
    }));
    Message {
        id,
        conversation_id,
        role: MessageRole::Tool,
        content,
        model_id: None,
        mode,
        created_at: at,
        sequence_num: 0,
        approval_refs,
    }
}

/// The bytes of a screenshot never reach the text of a tool result.
pub proof fn law_screenshot_bytes_are_stripped(output: JsonView)
    requires
        screenshot_hex(output) is Some,
    ensures
        visible_output(output).at("image_hex"@) == JsonView::Null,
        visible_output(output).at("note"@) is Str,
{
    reveal_strlit("image_hex");
    reveal_strlit("note");
    assert("image_hex"@.len() != "note"@.len());
}

/// A model that cannot see gets no image.
pub proof fn law_no_image_without_vision(call_id: Seq<char>, output: JsonView, i: int)
    requires
        0 <= i < result_blocks(call_id, output, false).len(),
    ensures
        !(result_blocks(call_id, output, false)[i] is Image),
{
}

/// The arguments of a call that has none are an object without members; those that
/// spell a JSON value are that value, whatever white space stands around it; others
/// are handed on as they are, as a text.
pub proof fn law_arguments_are_never_lost(raw: Seq<char>)
    ensures
        (forall|i: int| 0 <= i < raw.len() ==> char_is_whitespace(#[trigger] raw[i])) ==> (forall|
            key: Seq<char>,
        | #[trigger] parsed_args(raw).at(key) == JsonView::Null) && parsed_args(raw) is Object,
        (exists|i: int| 0 <= i < raw.len() && !char_is_whitespace(#[trigger] raw[i])) ==> {
            &&& json_parsed(trim(raw)) matches Ok(v) ==> parsed_args(raw) == v
            &&& json_parsed(trim(raw)) is Err ==> parsed_args(raw) == JsonView::Str(raw)
        },
{
    lemma_blank(raw);
    if trim(raw).len() == 0 {
        assert forall|key: Seq<char>| #[trigger] parsed_args(raw).at(key) == JsonView::Null by {}
    }
}

/// A tool is found where there is one with the identifier, and it is the first such
/// tool.
pub proof fn law_tool_is_found_by_its_identifier(tools: Seq<ToolDescriptorView>, id: Seq<char>)
    ensures
        match tool_position(tools, id, 0) {
            Some(k) => 0 <= k < tools.len() && tools[k].id == id && (forall|i: int|
                0 <= i < k ==> (#[trigger] tools[i]).id != id),
            None => forall|i: int| 0 <= i < tools.len() ==> (#[trigger] tools[i]).id != id,
        },
{
    lemma_tool_position(tools, id, 0);
}

proof fn lemma_tool_position(tools: Seq<ToolDescriptorView>, id: Seq<char>, from: int)
    requires
        0 <= from <= tools.len(),
    ensures
        match tool_position(tools, id, from) {
            Some(k) => from <= k < tools.len() && tools[k].id == id && (forall|i: int|
                from <= i < k ==> (#[trigger] tools[i]).id != id),
            None => forall|i: int| from <= i < tools.len() ==> (#[trigger] tools[i]).id != id,
        },
    decreases tools.len() - from,
{
    if from < tools.len() && tools[from].id != id {
        lemma_tool_position(tools, id, from + 1);
    }
}

/// Whoever decides on a call is shown the tool's name, its identifier, and its
/// arguments: all of them where they have at most two hundred characters, and else
/// the first two hundred.
pub proof fn law_approval_shows_the_tool_and_its_arguments(
    tool: ToolDescriptorView,
    args_raw: Seq<char>,
)
    ensures
        ({
            let shown = approval_summary(tool, args_raw);
            let name_at: int = 10;
            let id_at: int = name_at + tool.display_name.len() + 3;
            let args_at: int = id_at + tool.id.len() + 12;
            &&& stands_at(shown, tool.display_name, name_at)
            &&& stands_at(shown, tool.id, id_at)
            &&& args_raw.len() <= 200 ==> stands_at(shown, args_raw, args_at) && shown.len()
                == args_at + args_raw.len()
            &&& args_raw.len() > 200 ==> stands_at(shown, args_raw.take(200), args_at)
                && shown.last() == '\u{2026}' && shown.len() == args_at + 201
        }),
{
    reveal_strlit("Run tool '");
    reveal_strlit("' (");
    reveal_strlit(") with args ");
}

/// The model is told of an error in the error's own words.
pub proof fn law_error_output_tells_the_message(message: Seq<char>)
    ensures
        error_output(message).at("error"@) == JsonView::Str(message),
{
    lemma_obj_at(seq![("error"@, JsonView::Str(message))], 0);
}

/// The model is told that a call was denied.
pub proof fn law_denial_is_told()
    ensures
        denied_output().at("denied"@) == JsonView::Bool(true),
        denied_output().at("message"@) == JsonView::Str("the user denied this action"@),
{
    reveal_strlit("denied");
    reveal_strlit("message");
    assert("denied"@.len() != "message"@.len());
    lemma_obj_of_two(
        ("denied"@, JsonView::Bool(true)),
        ("message"@, JsonView::Str("the user denied this action"@)),
    );
}

/// The message for a tool that does not exist names the tool.
pub proof fn law_unknown_tool_is_named(tool_id: Seq<char>)
    ensures
        stands_at(unknown_tool_text(tool_id), "model requested unknown tool '"@, 0),
        stands_at(unknown_tool_text(tool_id), tool_id, 30),
        unknown_tool_text(tool_id).len() == 31 + tool_id.len(),
{
    reveal_strlit("model requested unknown tool '");
    reveal_strlit("'");
}

/// The audit event of a call names the call, its tool, its arguments, the approval,
/// the conversation, the device and the trace, and says what became of it.
pub proof fn law_audit_event_tells_of_the_call(
    call: CallView,
    outcome: AuditOutcome,
    approval: Option<Uuid>,
    conversation_id: Uuid,
    device_id: Uuid,
    trace_id: Uuid,
    event_id: Uuid,
    at: Timestamp,
)
    ensures
        ({
            let e = audit_view(
                call,
                outcome,
                approval,
                conversation_id,
                device_id,
                trace_id,
                event_id,
                at,
            );
            &&& e.event_id == event_id && e.device_id == device_id && e.timestamp == at
            &&& e.session_id == Some(conversation_id)
            &&& e.outcome == outcome
            &&& e.event_type == AuditEventType::ToolCall && e.actor == AuditActor::Agent
            &&& e.resource_ref == Some(call.tool_id)
            &&& e.metadata.at("call_id"@) == JsonView::Str(call.call_id)
            &&& e.metadata.at("args"@) == parsed_args(call.args_raw)
            &&& e.metadata.at("trace_id"@) == JsonView::Str(trace_id.text())
            &&& approval matches Some(u) ==> e.metadata.at("approval_id"@) == JsonView::Str(
                u.text(),
            )
            &&& approval is None ==> e.metadata.at("approval_id"@) == JsonView::Null
        }),
{
    reveal_strlit("call_id");
    reveal_strlit("args");
    reveal_strlit("trace_id");
    reveal_strlit("approval_id");
    assert("call_id"@.len() == 7 && "args"@.len() == 4 && "trace_id"@.len() == 8
        && "approval_id"@.len() == 11);
    lemma_obj_of_four(
        ("call_id"@, JsonView::Str(call.call_id)),
        ("args"@, parsed_args(call.args_raw)),
        ("trace_id"@, JsonView::Str(trace_id.text())),
        ("approval_id"@, id_json(approval)),
    );
}

/// A tool result answers its call with the output of the tool. Only the bytes of a
/// screenshot are left out of it, and a note put in their place; all its other
/// members stay. To a model that can see, the picture follows.
pub proof fn law_result_carries_the_output(
    call_id: Seq<char>,
    output: JsonView,
    approval: Option<Uuid>,
    vision: bool,
    conversation_id: Uuid,
    mode: ComputeMode,
    id: Uuid,
    at: Timestamp,
)
    ensures
        ({
            let m = result_view(call_id, output, approval, vision, conversation_id, mode, id, at);
            let pictured = output.at("image_hex"@) matches JsonView::Str(hex) && hex.len() > 0;
            &&& m.role == MessageRole::Tool && m.conversation_id == conversation_id && m.id == id
            &&& m.mode == mode && m.created_at == at
            &&& approval matches Some(u) ==> m.approval_refs == seq![u]
            &&& approval is None ==> m.approval_refs.len() == 0
            &&& m.content.len() > 0
            &&& m.content[0] matches BlockView::ToolResult { call_id: answered, output: told }
                && answered == call_id && (if pictured {
                forall|key: Seq<char>|
                    key != "image_hex"@ && key != "note"@ ==> #[trigger] told.at(key) == output.at(
                        key,
                    )
            } else {
                told == output
            })
            &&& m.content.len() == (if pictured && vision && is_hex(
                encode_utf8(output.at("image_hex"@)->Str_0),
            ) && encode_utf8(output.at("image_hex"@)->Str_0).len() > 0 {
                2int
            } else {
                1int
            })
            &&& m.content.len() == 2 ==> m.content[1] == (BlockView::Image {
                media_type: "image/png"@,
                data: base64_text(hex_bytes(encode_utf8(output.at("image_hex"@)->Str_0))),
            })
        }),
{
    if screenshot_hex(output) is Some {
        let told = visible_output(output);
        assert forall|key: Seq<char>| key != "image_hex"@ && key != "note"@ implies #[trigger] told.at(
            key,
        ) == output.at(key) by {}
    }
}

} // verus!
