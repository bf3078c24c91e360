//! The command line: what is typed, and what is written on the terminal.

use crate::contracts::agent::{AgentEvent, AgentEventView};
use crate::contracts::error::{ContractError, ContractErrorView};
use crate::contracts::tooling::{
    ToolDescriptor, ToolDescriptorView, ToolEvent, ToolEventView,
};
use crate::json::json_text;
use crate::model::{
    lemma_pick_filter, lemma_pick_take, lemma_same_filter, lemma_views_push, opt, outcome, pick,
    views,
};
use crate::text::{
    after_prefix, ascii_lowercase, ascii_small, decimal, is_one_line, is_trimmed, law_padding_adds_only_spaces,
    lemma_trim, on_one_line, pad, padded, shorten, shortened, split_at, split_text, stands_at,
    str_eq, strip_prefix, to_ascii_lowercase, trim, trim_text, u64_text, unbreak,
};
use vstd::prelude::*;

verus! {

/// What a typed line asks for.
#[derive(Debug)]
pub enum Command {
    /// Nothing was typed.
    Nothing,
    Quit,
    Help,
    NewConversation,
    ListTools,
    /// Subagents, one for each goal.
    Spawn(Vec<String>),
    /// Subagents, without a goal.
    SpawnUsage,
    /// A message to the agent.
    Chat(String),
}

/// [`Command`] as a mathematical value.
pub enum CommandView {
    Nothing,
    Quit,
    Help,
    NewConversation,
    ListTools,
    Spawn(Seq<Seq<char>>),
    SpawnUsage,
    Chat(Seq<char>),
}

impl View for Command {
    type V = CommandView;

    open spec fn view(&self) -> CommandView {
        match self {
            Command::Nothing => CommandView::Nothing,
            Command::Quit => CommandView::Quit,
            Command::Help => CommandView::Help,
            Command::NewConversation => CommandView::NewConversation,
            Command::ListTools => CommandView::ListTools,
            Command::Spawn(goals) => CommandView::Spawn(views(goals@)),
            Command::SpawnUsage => CommandView::SpawnUsage,
            Command::Chat(text) => CommandView::Chat(text@),
        }
    }
}

/// A goal, where it is not blank.
pub open spec fn goal_part(part: Seq<char>) -> Option<Seq<char>> {
    if trim(part).len() == 0 {
        None
    } else {
        Some(trim(part))
    }
}

/// The goals of a list separated by bars.
pub open spec fn goals_of(rest: Seq<char>) -> Seq<Seq<char>> {
    pick(split_at(rest, '|'), |p: Seq<char>| goal_part(p))
}

/// What a typed line asks for.
pub open spec fn command_of(line: Seq<char>) -> CommandView {
    let input = trim(line);
    if input.len() == 0 {
        CommandView::Nothing
    } else if input == "/quit"@ || input == "/exit"@ {
        CommandView::Quit
    } else if input == "/help"@ {
        CommandView::Help
    } else if input == "/new"@ {
        CommandView::NewConversation
    } else if input == "/tools"@ {
        CommandView::ListTools
    } else {
        match after_prefix(input, "/spawn "@) {
            Some(rest) => if goals_of(rest).len() == 0 {
                CommandView::SpawnUsage
            } else {
                CommandView::Spawn(goals_of(rest))
            },
            None => CommandView::Chat(input),
        }
    }
}

fn parse_goals(rest: &str) -> (r: Vec<String>)
    ensures
        views(r@) == goals_of(rest@),
{
    let parts = split_text(rest, '|');
    let ghost all = split_at(rest@, '|');
    let ghost f = |p: Seq<char>| goal_part(p);
    let mut out: Vec<String> = Vec::new();
    let mut i: usize = 0;
    assert(all.take(0) =~= Seq::empty());
    assert(views(out@) =~= pick(all.take(0), f));
    while i < parts.len()
        invariant
            i <= parts.len(),
            all == views(parts@),
            f == (|p: Seq<char>| goal_part(p)),
            views(out@) == pick(all.take(i as int), f),
        decreases parts.len() - i,
    {
        proof {
            lemma_pick_take(all, f, i as int);
        }
        let goal = trim_text(parts[i].as_str());
        if !goal.as_str().is_empty() {
            proof {
                lemma_views_push(out@, goal);
            }
            out.push(goal);
        }
        i += 1;
    }
    assert(all.take(all.len() as int) =~= all);
    out
}

/// What a typed line asks for.
pub fn parse_command(line: &str) -> (r: Command)
    ensures
        r@ == command_of(line@),
{
    let input = trim_text(line);
    let text = input.as_str();
    if text.is_empty() {
        return Command::Nothing;
    }
    if str_eq(text, "/quit") || str_eq(text, "/exit") {
        return Command::Quit;
    }
    if str_eq(text, "/help") {
        return Command::Help;
    }
    if str_eq(text, "/new") {
        return Command::NewConversation;
    }
    if str_eq(text, "/tools") {
        return Command::ListTools;
    }
    match strip_prefix(text, "/spawn ") {
        Some(rest) => {
            let goals = parse_goals(rest.as_str());
            if goals.len() == 0 {
                Command::SpawnUsage
            } else {
                Command::Spawn(goals)
            }
        },
        None => Command::Chat(input),
    }
}

/// Every goal of a spawn is a text that is not blank, and there is one at least.
pub proof fn law_spawned_goals_are_not_blank(line: Seq<char>)
    ensures
        command_of(line) matches CommandView::Spawn(goals) ==> {
            &&& goals.len() > 0
            &&& forall|i: int| 0 <= i < goals.len() ==> (#[trigger] goals[i]).len() > 0
        },
{
    if let Some(rest) = after_prefix(trim(line), "/spawn "@) {
        let goals = goals_of(rest);
        assert forall|i: int| 0 <= i < goals.len() implies (#[trigger] goals[i]).len() > 0 by {
            lemma_goals(split_at(rest, '|'), i);
        }
    }
}

proof fn lemma_goals(parts: Seq<Seq<char>>, i: int)
    requires
        0 <= i < pick(parts, |p: Seq<char>| goal_part(p)).len(),
    ensures
        pick(parts, |p: Seq<char>| goal_part(p))[i].len() > 0,
    decreases parts.len(),
{
    if parts.len() > 0 {
        if i < pick(parts.drop_last(), |p: Seq<char>| goal_part(p)).len() {
            lemma_goals(parts.drop_last(), i);
        }
    }
}

/// The list of commands.
pub const HELP_TEXT: &'static str = "commands:\n  /new            start a fresh conversation\n  /tools          list available tools\n  /spawn a | b    run parallel subagents\n  /quit           exit\n";

/// How subagents are asked for.
pub const SPAWN_USAGE: &'static str = "usage: /spawn goal one | goal two\n";

/// The greatest number of characters of a text that is cut short.
pub const BRIEF_MAX: usize = 200;

/// A text without surrounding blanks, cut short where it is long.
pub open spec fn brief_spec(s: Seq<char>) -> Seq<char> {
    shortened(trim(s), BRIEF_MAX as nat)
}

/// A text without surrounding blanks, cut short where it is long.
pub fn brief(s: &str) -> (r: String)
    ensures
        r@ == brief_spec(s@),
{
    shorten(trim_text(s).as_str(), BRIEF_MAX)
}

/// Whether an answer approves.
pub open spec fn approves(line: Seq<char>) -> bool {
    ascii_lowercase(trim(line)) == "y"@ || ascii_lowercase(trim(line)) == "yes"@
}

/// Whether an answer approves.
pub fn is_approval(line: &str) -> (r: bool)
    ensures
        r == approves(line@),
{
    let answer = to_ascii_lowercase(trim_text(line).as_str());
    str_eq(answer.as_str(), "y") || str_eq(answer.as_str(), "yes")
}

/// What is written after an answer.
pub fn approval_prompt(approved: bool) -> (r: &'static str)
    ensures
        r@ == (if approved {
            "mahi > "@
        } else {
            "(denied) mahi > "@
        }),
{
    if approved {
        "mahi > "
    } else {
        "(denied) mahi > "
    }
}

/// The line of a tool in the list of tools.
pub open spec fn tool_line_spec(d: ToolDescriptorView) -> Seq<char> {
    "  "@ + padded(d.id, 16) + " "@ + d.display_name + (if d.requires_approval {
        " (needs approval)"@
    } else {
        ""@
    }) + "\n"@
}

/// The line of a tool in the list of tools.
pub fn tool_line(d: &ToolDescriptor) -> (r: String)
    ensures
        r@ == tool_line_spec(d@),
{
    let mut out = "  ".to_owned();
    out.append(pad(d.id.as_str(), 16).as_str());
    out.append(" ");
    out.append(d.display_name.as_str());
    out.append(
        if d.requires_approval {
            " (needs approval)"
        } else {
            ""
        },
    );
    out.append("\n");
    out
}

/// What is written when subagents are started.
pub fn spawning_line(n: usize) -> (r: String)
    ensures
        r@ == "spawning "@ + decimal(n as nat) + " subagents\u{2026}\n"@,
{
    let mut out = "spawning ".to_owned();
    out.append(u64_text(n as u64).as_str());
    out.append(" subagents\u{2026}\n");
    out
}

/// The line of a subagent's summary, counted from one.
pub fn subagent_line(i: usize, summary: &str) -> (r: String)
    requires
        i < usize::MAX,
    ensures
        r@ == "  subagent "@ + decimal((i + 1) as nat) + ": "@ + brief_spec(summary@) + "\n"@,
{
    let mut out = "  subagent ".to_owned();
    out.append(u64_text((i + 1) as u64).as_str());
    out.append(": ");
    out.append(brief(summary).as_str());
    out.append("\n");
    out
}

/// What a tool's event says, on one line and cut short where it is long.
pub open spec fn said(text: Seq<char>) -> Seq<char> {
    brief_spec(on_one_line(text))
}

/// The line of a tool's event; none for a piece of its output.
pub open spec fn tool_event_line(event: ToolEventView) -> Option<Seq<char>> {
    match event {
        ToolEventView::Result { output, .. } => Some(
            "\n  \u{2b91} tool result: "@ + said(json_text(output)) + "\n"@,
        ),
        ToolEventView::Error { message, .. } => Some(
            "\n  \u{2b91} tool error: "@ + said(message) + "\n"@,
        ),
        ToolEventView::Citation { url, .. } => Some(
            "\n  \u{2b91} source: "@ + said(url) + "\n"@,
        ),
        ToolEventView::ApprovalRequired { summary, .. } => Some(
            "\n  \u{2b91} "@ + said(summary) + "\n"@,
        ),
        ToolEventView::Cancelled => Some("\n  \u{2b91} tool cancelled\n"@),
        ToolEventView::Chunk { .. } => None,
    }
}

/// A tool's event is written as one line of its own, of at most two hundred and
/// eighteen characters.
pub proof fn law_tool_event_is_a_short_line(event: ToolEventView)
    ensures
        tool_event_line(event) matches Some(text) ==> {
            &&& 2 <= text.len() <= BRIEF_MAX + 20
            &&& text[0] == '\n'
            &&& text.last() == '\n'
            &&& is_one_line(text.subrange(1, text.len() - 1))
        },
{
    reveal_strlit("\n  \u{2b91} tool result: ");
    reveal_strlit("\n  \u{2b91} tool error: ");
    reveal_strlit("\n  \u{2b91} source: ");
    reveal_strlit("\n  \u{2b91} ");
    reveal_strlit("\n  \u{2b91} tool cancelled\n");
    reveal_strlit("\n");
    match event {
        ToolEventView::Result { output, .. } => lemma_said(json_text(output)),
        ToolEventView::Error { message, .. } => lemma_said(message),
        ToolEventView::Citation { url, .. } => lemma_said(url),
        ToolEventView::ApprovalRequired { summary, .. } => lemma_said(summary),
        _ => {},
    }
}

proof fn lemma_said(text: Seq<char>)
    ensures
        said(text).len() <= BRIEF_MAX + 1,
        is_one_line(said(text)),
{
    assert(is_one_line(on_one_line(text)));
    lemma_trim(on_one_line(text));
}

fn say(text: &str) -> (r: String)
    ensures
        r@ == said(text@),
{
    brief(unbreak(text).as_str())
}

fn line_of(lead: &str, text: &str) -> (r: String)
    ensures
        r@ == lead@ + text@ + "\n"@,
{
    let mut out = lead.to_owned();
    out.append(text);
    out.append("\n");
    out
}

/// The line of a tool's event; none for a piece of its output.
pub fn render_tool_event(event: &ToolEvent) -> (r: Option<String>)
    ensures
        opt(r) == tool_event_line(event@),
{
    match event {
        ToolEvent::Result { output, .. } => Some(
            line_of("\n  \u{2b91} tool result: ", say(output.to_text().as_str()).as_str()),
        ),
        ToolEvent::Error { message, .. } => Some(
            line_of("\n  \u{2b91} tool error: ", say(message.as_str()).as_str()),
        ),
        ToolEvent::Citation { url, .. } => Some(
            line_of("\n  \u{2b91} source: ", say(url.as_str()).as_str()),
        ),
        ToolEvent::ApprovalRequired { summary, .. } => Some(
            line_of("\n  \u{2b91} ", say(summary.as_str()).as_str()),
        ),
        ToolEvent::Cancelled => Some("\n  \u{2b91} tool cancelled\n".to_owned()),
        ToolEvent::Chunk { .. } => None,
    }
}

/// What is written of an item of a turn's stream.
pub open spec fn written(item: Result<AgentEventView, ContractErrorView>) -> Option<Seq<char>> {
    match item {
        Ok(AgentEventView::TextDelta { text }) => Some(text),
        Ok(AgentEventView::Tool { event }) => tool_event_line(event),
        Ok(AgentEventView::ApprovalRequired { summary, .. }) => Some(
            "\n[approval] "@ + summary + "\napprove? [y/N] "@,
        ),
        Ok(AgentEventView::TurnFinished { .. }) => Some("\n"@),
        Ok(AgentEventView::Error { message }) => Some("\n[error] "@ + message + "\n"@),
        Ok(AgentEventView::TurnStarted { .. }) => None,
        Ok(AgentEventView::ModeHandoff { .. }) => None,
        Err(e) => Some("\n[stream error] "@ + e.message() + "\n"@),
    }
}

/// What is written of an item of a turn's stream.
pub fn render_event(item: &Result<AgentEvent, ContractError>) -> (r: Option<String>)
    ensures
        opt(r) == written(outcome(*item)),
{
    match item {
        Ok(AgentEvent::TextDelta { text }) => Some(text.clone()),
        Ok(AgentEvent::Tool { event }) => render_tool_event(event),
        Ok(AgentEvent::ApprovalRequired { summary, .. }) => {
            let mut out = "\n[approval] ".to_owned();
            out.append(summary.as_str());
            out.append("\napprove? [y/N] ");
            Some(out)
        },
        Ok(AgentEvent::TurnFinished { .. }) => Some("\n".to_owned()),
        Ok(AgentEvent::Error { message }) => Some(line_of("\n[error] ", message.as_str())),
        Ok(AgentEvent::TurnStarted { .. }) => None,
        Ok(AgentEvent::ModeHandoff { .. }) => None,
        Err(e) => Some(line_of("\n[stream error] ", e.to_text().as_str())),
    }
}

/// What is typed and does not begin with a slash is said to the agent, without the white
/// space around it; a blank line asks for nothing.
pub proof fn law_typed_text_is_said(line: Seq<char>)
    ensures
        trim(line).len() == 0 ==> command_of(line) == CommandView::Nothing,
        trim(line).len() > 0 && trim(line)[0] != '/' ==> command_of(line) == CommandView::Chat(
            trim(line),
        ),
{
    reveal_strlit("/quit");
    reveal_strlit("/exit");
    reveal_strlit("/help");
    reveal_strlit("/new");
    reveal_strlit("/tools");
    reveal_strlit("/spawn ");
    let input = trim(line);
    if input.len() > 0 && input[0] != '/' {
        assert("/quit"@[0] == '/' && "/exit"@[0] == '/' && "/help"@[0] == '/' && "/new"@[0] == '/'
            && "/tools"@[0] == '/' && "/spawn "@[0] == '/');
        if let Some(rest) = after_prefix(input, "/spawn "@) {
            assert(input.take(7)[0] == "/spawn "@[0]);
        }
    }
}

/// The goals of a spawn are all that stand between the bars and are not blank, in order,
/// each without the white space around it.
pub proof fn law_every_goal_is_spawned(rest: Seq<char>)
    ensures
        ({
            let said = split_at(rest, '|').filter(|p: Seq<char>| trim(p).len() > 0);
            goals_of(rest) == Seq::new(said.len(), |i: int| trim(said[i]))
        }),
{
    let f = |p: Seq<char>| goal_part(p);
    let said_part = |p: Seq<char>| trim(p).len() > 0;
    let parts = split_at(rest, '|');
    lemma_pick_filter(parts, f);
    lemma_same_filter(parts, |p: Seq<char>| f(p) is Some, said_part);
    let said = parts.filter(said_part);
    assert forall|i: int| 0 <= i < said.len() implies f(#[trigger] said[i]) == Some(
        trim(said[i]),
    ) by {
        parts.lemma_filter_pred(said_part, i);
    }
    assert(goals_of(rest) =~= Seq::new(said.len(), |i: int| trim(said[i])));
}

/// The list of tools names each tool by its identifier and its name, and marks just those
/// that need approval.
pub proof fn law_tool_line_names_the_tool(d: ToolDescriptorView)
    ensures
        ({
            let line = tool_line_spec(d);
            let name_at: int = 3 + (if d.id.len() >= 16 {
                d.id.len() as int
            } else {
                16
            });
            &&& stands_at(line, d.id, 2)
            &&& stands_at(line, d.display_name, name_at)
            &&& line.len() == name_at + d.display_name.len() + (if d.requires_approval {
                18int
            } else {
                1int
            })
            &&& d.requires_approval ==> stands_at(
                line,
                " (needs approval)"@,
                name_at + d.display_name.len(),
            )
        }),
{
    reveal_strlit("  ");
    reveal_strlit(" ");
    reveal_strlit(" (needs approval)");
    reveal_strlit("");
    reveal_strlit("\n");
    law_padding_adds_only_spaces(d.id, 16);
    let line = tool_line_spec(d);
    assert forall|k: int| 0 <= k < d.id.len() implies #[trigger] line[2 + k] == d.id[k] by {
        assert(padded(d.id, 16)[0 + k] == d.id[k]);
    }
}

/// What a turn says is written as it comes: text word for word, and errors and what needs
/// approval with their own words.
pub proof fn law_what_is_said_is_written(item: Result<AgentEventView, ContractErrorView>)
    ensures
        match item {
            Ok(AgentEventView::TextDelta { text }) => written(item) == Some(text),
            Ok(AgentEventView::Error { message }) => written(item) matches Some(line) && stands_at(
                line,
                message,
                9,
            ),
            Ok(AgentEventView::ApprovalRequired { summary, .. }) => written(item) matches Some(
                line,
            ) && stands_at(line, summary, 12),
            Err(e) => written(item) matches Some(line) && stands_at(line, e.message(), 16),
            _ => true,
        },
{
    reveal_strlit("\n[error] ");
    reveal_strlit("\n[approval] ");
    reveal_strlit("\n[stream error] ");
}

/// What a tool tells is written: its result, its error, its source or what it asks for, each
/// without white space around it, on one line and cut behind two hundred characters.
pub proof fn law_what_a_tool_tells_is_written(event: ToolEventView)
    ensures
        ({
            let told = match event {
                ToolEventView::Result { output, .. } => Some(json_text(output)),
                ToolEventView::Error { message, .. } => Some(message),
                ToolEventView::Citation { url, .. } => Some(url),
                ToolEventView::ApprovalRequired { summary, .. } => Some(summary),
                _ => None,
            };
            &&& event is Chunk <==> tool_event_line(event) is None
            &&& told matches Some(text) ==> (is_one_line(text) && !text.contains('\r')
                && is_trimmed(text) && text.len() <= 200 ==> (tool_event_line(event) matches Some(
                line,
            ) && stands_at(line, text, line.len() - 1 - text.len())))
        }),
{
    let told = match event {
        ToolEventView::Result { output, .. } => Some(json_text(output)),
        ToolEventView::Error { message, .. } => Some(message),
        ToolEventView::Citation { url, .. } => Some(url),
        ToolEventView::ApprovalRequired { summary, .. } => Some(summary),
        _ => None,
    };
    if let Some(text) = told {
        if is_one_line(text) && !text.contains('\r') && is_trimmed(text) && text.len() <= 200 {
            assert(on_one_line(text) =~= text);
            lemma_trim(text);
            assert(said(text) == text);
            reveal_strlit("\n");
        }
    }
}

/// Only a yes approves: the letter alone or the word, in capitals or not. Anything else, and
/// nothing, does not.
pub proof fn law_only_a_yes_approves(line: Seq<char>)
    ensures
        approves(line) ==> trim(line).len() == 1 || trim(line).len() == 3,
        trim(line).len() == 1 ==> (approves(line) <==> trim(line)[0] == 'y' || trim(line)[0]
            == 'Y'),
        approves(line) && trim(line).len() == 3 ==> (trim(line)[0] == 'y' || trim(line)[0] == 'Y')
            && (trim(line)[1] == 'e' || trim(line)[1] == 'E') && (trim(line)[2] == 's' || trim(
            line,
        )[2] == 'S'),
{
    reveal_strlit("y");
    reveal_strlit("yes");
    let t = trim(line);
    let low = ascii_lowercase(t);
    assert(low.len() == t.len());
    assert("y"@.len() == 1 && "yes"@.len() == 3);
    if t.len() == 1 {
        assert(low[0] == ascii_small(t[0]));
        if t[0] == 'y' || t[0] == 'Y' {
            assert(low =~= "y"@);
        }
    }
    if approves(line) && t.len() == 3 {
        assert(low[0] == "yes"@[0] && low[1] == "yes"@[1] && low[2] == "yes"@[2]);
        assert(low[0] == ascii_small(t[0]) && low[1] == ascii_small(t[1]) && low[2] == ascii_small(
            t[2],
        ));
    }
}

} // verus!
