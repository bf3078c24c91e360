//! The provider on the device itself: canned or echoed replies, fully offline.

use crate::contracts::compute::{
    CanHandleResult, ChunkView, FinishReason, InferenceChunk, InferenceRequest, RequestView,
};
use crate::contracts::data::{concat_all, MessageRole, MessageView};
use crate::contracts::types::{
    CapabilitySet, ComputeMode, LimitationLabel, LimitationView, ModelDescriptor,
    ModelDescriptorView, ModelSource, ModelSourceView, PerfProfile,
};
use crate::model::{lemma_views_push, opt, views};
use crate::text::{chars_of, string_of};
use vstd::prelude::*;

verus! {

/// The default canned reply.
pub const DEFAULT_REPLY: &'static str = "Hello from Mahi. This is the on-device model.";

/// Where the first space at or after `from` stands; the length where there is none.
pub open spec fn next_space(s: Seq<char>, from: int) -> int
    decreases s.len() - from,
{
    if from >= s.len() {
        s.len() as int
    } else if s[from] == ' ' {
        from
    } else {
        next_space(s, from + 1)
    }
}

/// The next space lies at or after the start and within the text.
pub proof fn lemma_next_space(s: Seq<char>, from: int)
    requires
        0 <= from <= s.len(),
    ensures
        from <= next_space(s, from) <= s.len(),
    decreases s.len() - from,
{
    if from < s.len() && s[from] != ' ' {
        lemma_next_space(s, from + 1);
    }
}

/// The words of a text from a position on, each with the space behind it.
pub open spec fn words_from(s: Seq<char>, from: int) -> Seq<Seq<char>>
    decreases s.len() + 1 - from,
{
    if from < 0 || from >= s.len() {
        Seq::empty()
    } else {
        proof {
            lemma_next_space(s, from);
        }
        let end = next_space(s, from);
        if end == s.len() {
            seq![s.subrange(from, end)]
        } else {
            seq![s.subrange(from, end + 1)] + words_from(s, end + 1)
        }
    }
}

/// The words of a text, each with the space behind it.
pub open spec fn words(s: Seq<char>) -> Seq<Seq<char>> {
    words_from(s, 0)
}

/// The words of a text, each with the space behind it.
pub fn split_words(s: &str) -> (r: Vec<String>)
    ensures
        views(r@) == words(s@),
{
    let chars = chars_of(s);
    let mut out: Vec<String> = Vec::new();
    let mut from: usize = 0;
    assert(views(out@) =~= Seq::<Seq<char>>::empty());
    assert(views(out@) + words_from(s@, 0) =~= words(s@));
    while from < chars.len()
        invariant
            from <= chars.len(),
            chars@ == s@,
            views(out@) + words_from(s@, from as int) == words(s@),
        decreases chars.len() - from,
    {
        let mut end: usize = from;
        while end < chars.len() && chars[end] != ' '
            invariant
                from <= end <= chars.len(),
                chars@ == s@,
                next_space(s@, from as int) == next_space(s@, end as int),
            decreases chars.len() - end,
        {
            end += 1;
        }
        let stop: usize = if end == chars.len() {
            end
        } else {
            end + 1
        };
        let ghost before = out@;
        let word = string_of(vstd::slice::slice_subrange(chars.as_slice(), from, stop));
        let ghost wv = word;
        out.push(word);
        proof {
            lemma_views_push(before, wv);
            let rest = words_from(s@, stop as int);
            assert(words_from(s@, from as int) =~= seq![wv@] + rest);
            assert(views(out@) + rest =~= views(before) + (seq![wv@] + rest));
        }
        from = stop;
    }
    assert(views(out@) + words_from(s@, from as int) =~= views(out@));
    out
}

/// The concatenation of a text and a sequence of texts.
proof fn lemma_concat_front(x: Seq<char>, s: Seq<Seq<char>>)
    ensures
        concat_all(seq![x] + s) == x + concat_all(s),
    decreases s.len(),
{
    let all = seq![x] + s;
    if s.len() == 0 {
        assert(all.drop_last() =~= s);
        assert(concat_all(s) =~= Seq::empty());
        assert(concat_all(all) =~= x + concat_all(s));
    } else {
        assert(all.drop_last() =~= seq![x] + s.drop_last());
        lemma_concat_front(x, s.drop_last());
        assert(concat_all(all) =~= x + concat_all(s));
    }
}

proof fn lemma_words_from(s: Seq<char>, from: int)
    requires
        0 <= from <= s.len(),
    ensures
        concat_all(words_from(s, from)) == s.skip(from),
    decreases s.len() - from,
{
    if from >= s.len() {
        assert(s.skip(from) =~= Seq::empty());
    } else {
        lemma_next_space(s, from);
        let end = next_space(s, from);
        if end == s.len() {
            lemma_concat_front(s.subrange(from, end), Seq::empty());
            assert(seq![s.subrange(from, end)] + Seq::<Seq<char>>::empty() =~= seq![
                s.subrange(from, end),
            ]);
            assert(concat_all(words_from(s, from)) =~= s.skip(from));
        } else {
            lemma_words_from(s, end + 1);
            lemma_concat_front(s.subrange(from, end + 1), words_from(s, end + 1));
            assert(concat_all(words_from(s, from)) =~= s.skip(from));
        }
    }
}

/// The words of a text, put together, are the text.
pub proof fn law_words_add_up(s: Seq<char>)
    ensures
        concat_all(words(s)) == s,
{
    lemma_words_from(s, 0);
    assert(s.skip(0) =~= s);
}

/// The text of the last user message of a list; empty where there is none.
pub open spec fn last_user_text(messages: Seq<MessageView>) -> Seq<char>
    decreases messages.len(),
{
    if messages.len() == 0 {
        Seq::empty()
    } else if messages.last().role == MessageRole::User {
        messages.last().text_content()
    } else {
        last_user_text(messages.drop_last())
    }
}

/// The text of the last user message of a request; empty where there is none.
pub open spec fn last_text(req: RequestView) -> Seq<char> {
    last_user_text(req.messages)
}

/// The reply that echoes a request.
pub fn echo_reply(req: &InferenceRequest) -> (r: String)
    ensures
        r@ == "You said: "@ + last_text(req@),
{
    let ghost all = req@.messages;
    let mut n: usize = req.messages.len();
    assert(all.take(all.len() as int) =~= all);
    while n > 0
        invariant
            n <= req.messages.len(),
            all == views(req.messages@),
            last_user_text(all) == last_user_text(all.take(n as int)),
        decreases n,
    {
        n -= 1;
        assert(all.take(n + 1).last() == req.messages@[n as int]@);
        assert(all.take(n + 1).drop_last() =~= all.take(n as int));
        if req.messages[n].role == MessageRole::User {
            return "You said: ".to_owned().concat(req.messages[n].text_content().as_str());
        }
    }
    let r = "You said: ".to_owned();
    assert(r@ =~= "You said: "@ + last_text(req@));
    r
}

/// The provider on the device itself.
pub struct OnDeviceProvider {
    /// A fixed reply; without one the last user message is echoed.
    reply: Option<String>,
}

impl OnDeviceProvider {
    /// The fixed reply.
    pub closed spec fn fixed(&self) -> Option<Seq<char>> {
        opt(self.reply)
    }

    /// Provider with the default canned reply.
    pub fn new() -> (r: OnDeviceProvider)
        ensures
            r.fixed() == Some(DEFAULT_REPLY@),
    {
        OnDeviceProvider::canned(DEFAULT_REPLY)
    }

    /// Provider with a fixed reply.
    pub fn canned(reply: &str) -> (r: OnDeviceProvider)
        ensures
            r.fixed() == Some(reply@),
    {
        OnDeviceProvider { reply: Some(reply.to_owned()) }
    }

    /// Provider that echoes the user's last message.
    pub fn echo() -> (r: OnDeviceProvider)
        ensures
            r.fixed() is None,
    {
        OnDeviceProvider { reply: None }
    }

    /// What the model offers.
    pub open spec fn offer() -> CapabilitySet {
        CapabilitySet {
            vision: false,
            tool_calling: false,
            min_context_window: 4096,
            code_gen: false,
            thinking: false,
        }
    }

    /// Static description of the model.
    pub fn descriptor(&self) -> (r: ModelDescriptor)
        ensures
            r@ == (ModelDescriptorView {
                id: "mahi-on-device-v0"@,
                display_name: "Mahi On-Device (mode A)"@,
                context_window: 4096,
                capabilities: OnDeviceProvider::offer(),
                limitations: seq![
                    LimitationView::NoLocalRepo,
                    LimitationView::NoComplexCodeGen,
                    LimitationView::MaxContextWindow(4096),
                ],
                size_bytes: None,
                quantization: None,
                source: ModelSourceView::OnDevice,
                perf_profile: PerfProfile { ttft_ms: 25, milli_tok_per_sec: 40_000 },
            }),
    {
        let limitations = vec![
            LimitationLabel::NoLocalRepo,
            LimitationLabel::NoComplexCodeGen,
            LimitationLabel::MaxContextWindow(4096),
        ];
        assert(views(limitations@) =~= seq![
            LimitationView::NoLocalRepo,
            LimitationView::NoComplexCodeGen,
            LimitationView::MaxContextWindow(4096),
        ]);
        ModelDescriptor {
            id: "mahi-on-device-v0".to_owned(),
            display_name: "Mahi On-Device (mode A)".to_owned(),
            context_window: 4096,
            capabilities: CapabilitySet {
                vision: false,
                tool_calling: false,
                min_context_window: 4096,
                code_gen: false,
                thinking: false,
            },
            limitations,
            size_bytes: None,
            quantization: None,
            source: ModelSource::OnDevice,
            perf_profile: PerfProfile { ttft_ms: 25, milli_tok_per_sec: 40_000 },
        }
    }

    /// Whether the model can serve a request. Where it cannot, the paired Mac may.
    pub fn can_handle(&self, req: &InferenceRequest) -> (r: CanHandleResult)
        ensures
            r == CanHandleResult::against_spec(
                req.required_caps,
                OnDeviceProvider::offer(),
                Some(ComputeMode::MacLan),
            ),
    {
        let offered = self.descriptor().capabilities;
        CanHandleResult::against(&req.required_caps, &offered, Some(ComputeMode::MacLan))
    }

    /// The stream that answers a request word by word.
    pub fn generate(&self, req: &InferenceRequest) -> (r: WordStream)
        ensures
            r@ == (WordsView {
                words: words(
                    match self.fixed() {
                        Some(reply) => reply,
                        None => "You said: "@ + last_text(req@),
                    },
                ),
                next: 0,
                done: false,
            }),
    {
        let reply = match &self.reply {
            Some(r) => r.clone(),
            None => echo_reply(req),
        };
        WordStream { words: split_words(reply.as_str()), next: 0, done: false }
    }
}

/// A reply that streams word by word.
pub struct WordStream {
    words: Vec<String>,
    next: usize,
    done: bool,
}

/// [`WordStream`] as a mathematical value.
pub struct WordsView {
    pub words: Seq<Seq<char>>,
    pub next: nat,
    pub done: bool,
}

impl View for WordStream {
    type V = WordsView;

    closed spec fn view(&self) -> WordsView {
        WordsView { words: views(self.words@), next: self.next as nat, done: self.done }
    }
}

impl WordsView {
    /// The stream after the next item, and the item: a word, or the end; the end
    /// at once where the stream is cancelled.
    pub open spec fn advance(self, cancelled: bool) -> (WordsView, Option<ChunkView>) {
        if self.done {
            (self, None)
        } else if cancelled {
            (
                WordsView { done: true, ..self },
                Some(ChunkView::finish(FinishReason::Cancelled, ComputeMode::OnDevice)),
            )
        } else if self.next < self.words.len() {
            (
                WordsView { next: self.next + 1, ..self },
                Some(ChunkView::text(self.words[self.next as int], ComputeMode::OnDevice)),
            )
        } else {
            (
                WordsView { done: true, ..self },
                Some(ChunkView::finish(FinishReason::Stop, ComputeMode::OnDevice)),
            )
        }
    }
}

impl WordStream {
    /// The next chunk; none once the stream is over.
    pub fn next(&mut self, cancelled: bool) -> (r: Option<InferenceChunk>)
        ensures
            (final(self)@, opt(r)) == old(self)@.advance(cancelled),
    {
        if self.done {
            return None;
        }
        if cancelled {
            self.done = true;
            return Some(InferenceChunk::finish(FinishReason::Cancelled, ComputeMode::OnDevice));
        }
        if self.next < self.words.len() {
            let chunk = InferenceChunk::text(
                self.words[self.next].as_str(),
                ComputeMode::OnDevice,
            );
            self.next = self.next + 1;
            Some(chunk)
        } else {
            self.done = true;
            Some(InferenceChunk::finish(FinishReason::Stop, ComputeMode::OnDevice))
        }
    }
}

/// The echo is of the last message that the user wrote, whatever follows it.
pub proof fn law_echo_is_of_the_last_user_message(messages: Seq<MessageView>, i: int)
    ensures
        0 <= i < messages.len() && messages[i].role == MessageRole::User && (forall|j: int|
            i < j < messages.len() ==> (#[trigger] messages[j]).role != MessageRole::User)
            ==> last_user_text(messages) == messages[i].text_content(),
        (forall|j: int|
            0 <= j < messages.len() ==> (#[trigger] messages[j]).role != MessageRole::User)
            ==> last_user_text(messages).len() == 0,
    decreases messages.len(),
{
    if messages.len() > 0 {
        let d = messages.drop_last();
        law_echo_is_of_the_last_user_message(d, i);
        assert(forall|j: int| 0 <= j < d.len() ==> d[j] == #[trigger] messages[j]);
        assert(forall|j: int| 0 <= j < d.len() ==> #[trigger] d[j] == messages[j]);
        assert(messages[messages.len() - 1] == messages.last());
    }
}

/// A stream that is not cancelled yields its words one after the other and then its end; a
/// cancelled one ends at once, and one that has ended yields nothing.
pub proof fn law_words_are_streamed_in_order(w: WordsView, cancelled: bool)
    ensures
        ({
            let (after, item) = w.advance(cancelled);
            &&& after.words == w.words
            &&& w.done ==> after == w && item is None
            &&& !w.done && cancelled ==> after.done && (item matches Some(c) && c.delta is None
                && c.finish_reason == Some(FinishReason::Cancelled))
            &&& !w.done && !cancelled && w.next < w.words.len() ==> !after.done && after.next
                == w.next + 1 && (item matches Some(c) && c.delta == Some(w.words[w.next as int])
                && c.finish_reason is None)
            &&& !w.done && !cancelled && w.next >= w.words.len() ==> after.done && (
            item matches Some(c) && c.delta is None && c.finish_reason == Some(FinishReason::Stop))
        }),
{
}

/// Every word but the last ends with the space behind it, and no word holds another space.
pub proof fn law_words_end_at_spaces(s: Seq<char>)
    ensures
        forall|i: int, k: int|
            0 <= i < words(s).len() && 0 <= k < words(s)[i].len() - 1 ==> #[trigger] words(s)[i][k]
                != ' ',
        forall|i: int|
            0 <= i < words(s).len() ==> (#[trigger] words(s)[i]).len() > 0 && (i < words(s).len()
                - 1 ==> words(s)[i].last() == ' '),
{
    lemma_words_end(s, 0);
}

proof fn lemma_words_end(s: Seq<char>, from: int)
    requires
        0 <= from <= s.len(),
    ensures
        forall|i: int, k: int|
            0 <= i < words_from(s, from).len() && 0 <= k < words_from(s, from)[i].len() - 1
                ==> #[trigger] words_from(s, from)[i][k] != ' ',
        forall|i: int|
            0 <= i < words_from(s, from).len() ==> (#[trigger] words_from(s, from)[i]).len() > 0
                && (i < words_from(s, from).len() - 1 ==> words_from(s, from)[i].last() == ' '),
    decreases s.len() - from,
{
    if from < s.len() {
        lemma_next_space(s, from);
        lemma_no_space_before(s, from);
        let end = next_space(s, from);
        if end < s.len() {
            lemma_words_end(s, end + 1);
            let rest = words_from(s, end + 1);
            let all = words_from(s, from);
            assert(all =~= seq![s.subrange(from, end + 1)] + rest);
            assert forall|i: int, k: int|
                0 <= i < all.len() && 0 <= k < all[i].len() - 1 implies #[trigger] all[i][k]
                != ' ' by {
                if i == 0 {
                    assert(all[0][k] == s[from + k]);
                } else {
                    assert(all[i] == rest[i - 1]);
                    assert(rest[i - 1][k] != ' ');
                }
            }
            assert forall|i: int| 0 <= i < all.len() implies (#[trigger] all[i]).len() > 0 && (i
                < all.len() - 1 ==> all[i].last() == ' ') by {
                if i > 0 {
                    assert(all[i] == rest[i - 1]);
                }
            }
        }
    }
}

proof fn lemma_no_space_before(s: Seq<char>, from: int)
    requires
        0 <= from <= s.len(),
    ensures
        forall|i: int| from <= i < next_space(s, from) ==> #[trigger] s[i] != ' ',
        next_space(s, from) < s.len() ==> s[next_space(s, from)] == ' ',
    decreases s.len() - from,
{
    if from < s.len() && s[from] != ' ' {
        lemma_no_space_before(s, from + 1);
    }
}

} // verus!
