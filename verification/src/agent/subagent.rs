//! Subagents: what becomes of the turns that work on a list of goals.

use crate::contracts::agent::{AgentEvent, AgentEventView};
use crate::contracts::data::{concat_all, Message, MessageRole, MessageView};
use crate::contracts::error::{ContractError, ContractErrorView};
use crate::contracts::types::ComputeMode;
use crate::model::{lemma_pick_take, pick, views};
use vstd::prelude::*;

verus! {

/// The mode in which subagents run: they get the full local toolset.
pub fn subagent_mode() -> (r: ComputeMode)
    ensures
        r == ComputeMode::MacLan,
{
    ComputeMode::MacLan
}

/// The text of the last assistant message among the first `n`.
pub open spec fn last_assistant_text(history: Seq<MessageView>, n: int) -> Option<Seq<char>>
    decreases n,
{
    if n <= 0 {
        None
    } else if history[n - 1].role == MessageRole::Assistant {
        Some(history[n - 1].text_content())
    } else {
        last_assistant_text(history, n - 1)
    }
}

/// The text of an event that streams text.
pub open spec fn streamed_part(e: AgentEventView) -> Option<Seq<char>> {
    match e {
        AgentEventView::TextDelta { text } => Some(text),
        _ => None,
    }
}

/// The text that a list of events streamed.
pub open spec fn streamed_text(events: Seq<AgentEventView>) -> Seq<char> {
    concat_all(pick(events, |e: AgentEventView| streamed_part(e)))
}

/// The summary of a subagent: the text of its last stored assistant message, or
/// what it streamed where it stored none.
pub open spec fn summary_spec(history: Seq<MessageView>, streamed: Seq<char>) -> Seq<char> {
    match last_assistant_text(history, history.len() as int) {
        Some(text) => text,
        None => streamed,
    }
}

/// The text that a list of events streamed.
pub fn collect_streamed(events: &Vec<AgentEvent>) -> (r: String)
    ensures
        r@ == streamed_text(views(events@)),
{
    let mut out = String::new();
    let mut i: usize = 0;
    let ghost es = views(events@);
    let ghost f = |e: AgentEventView| streamed_part(e);
    assert(es.take(0) =~= Seq::empty());
    while i < events.len()
        invariant
            i <= events.len(),
            es == views(events@),
            f == (|e: AgentEventView| streamed_part(e)),
            out@ == concat_all(pick(es.take(i as int), f)),
        decreases events.len() - i,
    {
        proof {
            lemma_pick_take(es, f, i as int);
            let before = pick(es.take(i as int), f);
            if let AgentEventView::TextDelta { text } = es[i as int] {
                assert(before.push(text).drop_last() =~= before);
            }
        }
        match &events[i] {
            AgentEvent::TextDelta { text } => {
                out.append(text.as_str());
            },
            _ => {},
        }
        i += 1;
    }
    assert(es.take(es.len() as int) =~= es);
    out
}

/// The summary of a subagent.
pub fn subagent_summary(history: &Vec<Message>, streamed: String) -> (r: String)
    ensures
        r@ == summary_spec(views(history@), streamed@),
{
    let mut n: usize = history.len();
    while n > 0
        invariant
            n <= history.len(),
            last_assistant_text(views(history@), history@.len() as int) == last_assistant_text(
                views(history@),
                n as int,
            ),
        decreases n,
    {
        if history[n - 1].role == MessageRole::Assistant {
            return history[n - 1].text_content();
        }
        n -= 1;
    }
    streamed
}

/// The first error among the first `n` results.
pub open spec fn first_error(
    results: Seq<Result<String, ContractError>>,
    n: int,
) -> Option<ContractErrorView>
    decreases n,
{
    if n <= 0 {
        None
    } else {
        match first_error(results, n - 1) {
            Some(e) => Some(e),
            None => match results[n - 1] {
                Err(e) => Some(e@),
                Ok(_) => None,
            },
        }
    }
}

/// The summaries of all subagents in the order of their goals, or the first
/// error.
pub fn collect_summaries(results: Vec<Result<String, ContractError>>) -> (r: Result<
    Vec<String>,
    ContractError,
>)
    ensures
        match r {
            Ok(v) => v@.len() == results@.len() && (forall|i: int|
                0 <= i < v@.len() ==> results@[i] == Ok::<String, ContractError>(#[trigger] v@[i])),
            Err(e) => first_error(results@, results@.len() as int) == Some(e@),
        },
        r is Ok <==> first_error(results@, results@.len() as int) is None,
{
    let ghost all = results@;
    let mut out: Vec<String> = Vec::new();
    for item in it: results.into_iter()
        invariant
            it.seq() == all,
            out@.len() == it.index(),
            first_error(all, it.index() as int) is None,
            forall|i: int|
                0 <= i < out@.len() ==> all[i] == Ok::<String, ContractError>(#[trigger] out@[i]),
    {
        assert(item == all[it.index() as int]);
        match item {
            Ok(s) => {
                out.push(s);
            },
            Err(e) => {
                proof {
                    lemma_first_error_stays(all, it.index() + 1, all.len() as int);
                }
                return Err(e);
            },
        }
    }
    Ok(out)
}

/// An error that has been found stays the first one.
proof fn lemma_first_error_stays(results: Seq<Result<String, ContractError>>, k: int, n: int)
    requires
        0 <= k <= n,
        first_error(results, k) is Some,
    ensures
        first_error(results, n) == first_error(results, k),
    decreases n - k,
{
    if k < n {
        lemma_first_error_stays(results, k, n - 1);
    }
}

/// The summary of a subagent is the whole text of the last assistant message that it
/// stored; where it stored none it is what it streamed.
pub proof fn law_summary_is_the_last_answer(history: Seq<MessageView>, streamed: Seq<char>, i: int)
    ensures
        0 <= i < history.len() && history[i].role == MessageRole::Assistant && (forall|j: int|
            i < j < history.len() ==> (#[trigger] history[j]).role != MessageRole::Assistant)
            ==> summary_spec(history, streamed) == history[i].text_content(),
        (forall|j: int|
            0 <= j < history.len() ==> (#[trigger] history[j]).role != MessageRole::Assistant)
            ==> summary_spec(history, streamed) == streamed,
{
    lemma_last_assistant(history, history.len() as int, i);
}

proof fn lemma_last_assistant(history: Seq<MessageView>, n: int, i: int)
    requires
        0 <= n <= history.len(),
    ensures
        0 <= i < n && history[i].role == MessageRole::Assistant && (forall|j: int|
            i < j < n ==> (#[trigger] history[j]).role != MessageRole::Assistant)
            ==> last_assistant_text(history, n) == Some(history[i].text_content()),
        (forall|j: int| 0 <= j < n ==> (#[trigger] history[j]).role != MessageRole::Assistant)
            ==> last_assistant_text(history, n) is None,
    decreases n,
{
    if n > 0 {
        lemma_last_assistant(history, n - 1, i);
    }
}

/// Every piece of text that an event streams is in the streamed text, in order; other
/// events add nothing.
pub proof fn law_every_streamed_piece_counts(events: Seq<AgentEventView>, e: AgentEventView)
    ensures
        streamed_text(Seq::empty()) == Seq::<char>::empty(),
        streamed_text(events.push(e)) == (match e {
            AgentEventView::TextDelta { text } => streamed_text(events) + text,
            _ => streamed_text(events),
        }),
{
    let f = |e: AgentEventView| streamed_part(e);
    assert(events.push(e).drop_last() =~= events);
    if let AgentEventView::TextDelta { text } = e {
        let texts = pick(events, f);
        assert(pick(events.push(e), f) == texts.push(text));
        assert(texts.push(text).drop_last() =~= texts);
    }
}

/// The error that counts is the first one; there is none just where every subagent came to
/// its end.
pub proof fn law_first_error_counts(results: Seq<Result<String, ContractError>>, i: int)
    ensures
        0 <= i < results.len() && results[i] is Err && (forall|j: int|
            0 <= j < i ==> #[trigger] results[j] is Ok) ==> first_error(
            results,
            results.len() as int,
        ) == Some(results[i]->Err_0@),
        (forall|j: int| 0 <= j < results.len() ==> #[trigger] results[j] is Ok) ==> first_error(
            results,
            results.len() as int,
        ) is None,
{
    lemma_first_error(results, results.len() as int, i);
}

proof fn lemma_first_error(results: Seq<Result<String, ContractError>>, n: int, i: int)
    requires
        0 <= n <= results.len(),
    ensures
        0 <= i < n && results[i] is Err && (forall|j: int| 0 <= j < i ==> #[trigger] results[j] is Ok)
            ==> first_error(results, n) == Some(results[i]->Err_0@),
        (forall|j: int| 0 <= j < n ==> #[trigger] results[j] is Ok) ==> first_error(results, n)
            is None,
    decreases n,
{
    if n > 0 {
        lemma_first_error(results, n - 1, i);
    }
}

} // verus!
