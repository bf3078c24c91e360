//! The state behind the app's engine: the models, and which of them answers.

use crate::agent::context::{system_prompt, DEFAULT_SYSTEM_PROMPT};
use crate::agent::engine::with_prompt;
use crate::compute::hosted::anthropic::AnthropicProvider;
use crate::compute::hosted::openai::{OpenAiCompatProvider, ProviderView};
use crate::compute::local::catalog::{
    catalog_spec, entry_in, find_entry, model_catalog, CatalogEntry, EntryView,
};
use crate::compute::local::download::{DownloadState, DownloadStatus, ProgressView, StatusView};
use crate::contracts::agent::{AgentEvent, AgentEventView};
use crate::contracts::data::{
    concat_all, Conversation, ConversationView, Message, MessageRole, MessageView,
};
use crate::contracts::error::{ContractError, ContractErrorView};
use crate::contracts::types::ComputeMode;
use crate::ident::{uuid_parsed, Uuid};
use crate::model::{clone_opt_string, lemma_pick_take, opt, outcomes, pick, views};
use crate::text::{char_is_whitespace, lemma_blank, stands_at, str_eq, trim, trim_text};
use vstd::prelude::*;

verus! {

/// An error that the app is shown.
#[derive(Debug)]
pub enum MahiError {
    Engine(String),
}

impl View for MahiError {
    type V = Seq<char>;

    open spec fn view(&self) -> Seq<char> {
        match self {
            MahiError::Engine(message) => message@,
        }
    }
}

impl MahiError {
    /// The error with a message.
    pub fn engine(message: &str) -> (r: MahiError)
        ensures
            r@ == message@,
    {
        MahiError::Engine(message.to_owned())
    }

    /// The error that shows the message of another.
    pub fn of(e: &ContractError) -> (r: MahiError)
        ensures
            r@ == e@.message(),
    {
        MahiError::Engine(e.to_text())
    }

    /// The message.
    pub fn to_text(&self) -> (r: String)
        ensures
            r@ == self@,
    {
        match self {
            MahiError::Engine(message) => message.clone(),
        }
    }
}

/// The identifier that the app hands over as a text.
pub fn parse_id(text: &str) -> (r: Result<Uuid, MahiError>)
    ensures
        match r {
            Ok(id) => uuid_parsed(text@) == Ok::<u128, Seq<char>>(id.0),
            Err(e) => uuid_parsed(text@) == Err::<u128, Seq<char>>(e@),
        },
        forall|id: Uuid| text@ == #[trigger] id.text() ==> r == Ok::<Uuid, MahiError>(id),
{
    match Uuid::parse_str(text) {
        Ok(id) => Ok(id),
        Err(e) => Err(MahiError::Engine(e)),
    }
}

/// A conversation as it is listed.
#[derive(Debug)]
pub struct ConversationSummary {
    pub id: String,
    pub title: String,
    pub mode: String,
}

/// [`ConversationSummary`] as a mathematical value.
pub struct SummaryView {
    pub id: Seq<char>,
    pub title: Seq<char>,
    pub mode: Seq<char>,
}

impl View for ConversationSummary {
    type V = SummaryView;

    open spec fn view(&self) -> SummaryView {
        SummaryView { id: self.id@, title: self.title@, mode: self.mode@ }
    }
}

/// The reply of a whole turn.
#[derive(Debug)]
pub struct AssistantReply {
    pub text: String,
}

/// A stored message, flattened.
#[derive(Debug)]
pub struct MessageSummary {
    pub id: String,
    pub role: String,
    pub text: String,
    pub sequence_num: i64,
}

/// [`MessageSummary`] as a mathematical value.
pub struct MessageSummaryView {
    pub id: Seq<char>,
    pub role: Seq<char>,
    pub text: Seq<char>,
    pub sequence_num: i64,
}

impl View for MessageSummary {
    type V = MessageSummaryView;

    open spec fn view(&self) -> MessageSummaryView {
        MessageSummaryView {
            id: self.id@,
            role: self.role@,
            text: self.text@,
            sequence_num: self.sequence_num,
        }
    }
}

/// How a conversation is listed.
pub open spec fn listed(c: ConversationView) -> SummaryView {
    SummaryView {
        id: c.id.text(),
        title: match c.title {
            Some(t) => t,
            None => "New conversation"@,
        },
        mode: c.mode_at_creation.name_spec(),
    }
}

/// Lists conversations.
pub fn list_conversations(convs: &Vec<Conversation>) -> (r: Vec<ConversationSummary>)
    ensures
        views(r@) == views(convs@).map_values(|c: ConversationView| listed(c)),
{
    let mut out: Vec<ConversationSummary> = Vec::new();
    let mut i: usize = 0;
    while i < convs.len()
        invariant
            i <= convs.len(),
            out.len() == i,
            forall|j: int| 0 <= j < i ==> (#[trigger] out@[j])@ == listed(convs@[j]@),
        decreases convs.len() - i,
    {
        let c = &convs[i];
        let title = match &c.title {
            Some(t) => t.clone(),
            None => "New conversation".to_owned(),
        };
        out.push(
            ConversationSummary {
                id: c.id.to_text(),
                title,
                mode: c.mode_at_creation.name().to_owned(),
            },
        );
        i += 1;
    }
    assert(views(out@) =~= views(convs@).map_values(|c: ConversationView| listed(c)));
    out
}

/// The name of a role, in lower case.
pub open spec fn role_text(role: MessageRole) -> Seq<char> {
    match role {
        MessageRole::User => "user"@,
        MessageRole::Assistant => "assistant"@,
        MessageRole::Tool => "tool"@,
        MessageRole::System => "system"@,
    }
}

fn role_str(role: MessageRole) -> (r: String)
    ensures
        r@ == role_text(role),
{
    match role {
        MessageRole::User => "user".to_owned(),
        MessageRole::Assistant => "assistant".to_owned(),
        MessageRole::Tool => "tool".to_owned(),
        MessageRole::System => "system".to_owned(),
    }
}

/// How a message is shown in the transcript.
pub open spec fn shown(m: MessageView) -> MessageSummaryView {
    MessageSummaryView {
        id: m.id.text(),
        role: role_text(m.role),
        text: m.text_content(),
        sequence_num: m.sequence_num,
    }
}

/// The transcript of a conversation.
pub fn history(msgs: &Vec<Message>) -> (r: Vec<MessageSummary>)
    ensures
        views(r@) == views(msgs@).map_values(|m: MessageView| shown(m)),
{
    let mut out: Vec<MessageSummary> = Vec::new();
    let mut i: usize = 0;
    while i < msgs.len()
        invariant
            i <= msgs.len(),
            out.len() == i,
            forall|j: int| 0 <= j < i ==> (#[trigger] out@[j])@ == shown(msgs@[j]@),
        decreases msgs.len() - i,
    {
        let m = &msgs[i];
        out.push(
            MessageSummary {
                id: m.id.to_text(),
                role: role_str(m.role),
                text: m.text_content(),
                sequence_num: m.sequence_num,
            },
        );
        i += 1;
    }
    assert(views(out@) =~= views(msgs@).map_values(|m: MessageView| shown(m)));
    out
}

/// The text that an item of a turn's stream adds to the reply.
pub open spec fn reply_part(item: Result<AgentEventView, ContractErrorView>) -> Option<Seq<char>> {
    match item {
        Ok(AgentEventView::TextDelta { text }) => Some(text),
        _ => None,
    }
}

/// The reply of a whole turn: its text, one piece after the other.
pub fn collect_reply(items: &Vec<Result<AgentEvent, ContractError>>) -> (r: AssistantReply)
    ensures
        r.text@ == concat_all(
            pick(
                outcomes(items@),
                |e: Result<AgentEventView, ContractErrorView>| reply_part(e),
            ),
        ),
{
    let ghost all = outcomes(items@);
    let ghost f = |e: Result<AgentEventView, ContractErrorView>| reply_part(e);
    let mut text = String::new();
    let mut i: usize = 0;
    assert(all.take(0) =~= Seq::empty());
    while i < items.len()
        invariant
            i <= items.len(),
            all == outcomes(items@),
            f == (|e: Result<AgentEventView, ContractErrorView>| reply_part(e)),
            text@ == concat_all(pick(all.take(i as int), f)),
        decreases items.len() - i,
    {
        proof {
            lemma_pick_take(all, f, i as int);
            let before = pick(all.take(i as int), f);
            if let Some(part) = reply_part(all[i as int]) {
                assert(before.push(part).drop_last() =~= before);
            }
        }
        match &items[i] {
            Ok(AgentEvent::TextDelta { text: part }) => {
                text.append(part.as_str());
            },
            _ => {},
        }
        i += 1;
    }
    assert(all.take(all.len() as int) =~= all);
    AssistantReply { text }
}

/// The state of a model of the catalog on this machine.
#[derive(Clone, Copy, Debug, PartialEq, Eq, Structural)]
pub enum ModelStateFfi {
    NotInstalled,
    /// Its download is under way: how much of it has come, and of how much.
    Downloading { bytes_downloaded: u64, total_bytes: u64 },
    Installed,
    Active,
}

/// A model of the catalog, with its state.
#[derive(Debug)]
pub struct CatalogModelFfi {
    pub id: String,
    pub display_name: String,
    pub family: String,
    pub size_bytes: u64,
    pub quantization: String,
    pub context_window: u32,
    pub tool_calling: bool,
    pub description: String,
    pub state: ModelStateFfi,
}

/// [`CatalogModelFfi`] as a mathematical value.
pub struct CatalogModelView {
    pub id: Seq<char>,
    pub display_name: Seq<char>,
    pub family: Seq<char>,
    pub size_bytes: u64,
    pub quantization: Seq<char>,
    pub context_window: u32,
    pub tool_calling: bool,
    pub description: Seq<char>,
    pub state: ModelStateFfi,
}

impl View for CatalogModelFfi {
    type V = CatalogModelView;

    open spec fn view(&self) -> CatalogModelView {
        CatalogModelView {
            id: self.id@,
            display_name: self.display_name@,
            family: self.family@,
            size_bytes: self.size_bytes,
            quantization: self.quantization@,
            context_window: self.context_window,
            tool_calling: self.tool_calling,
            description: self.description@,
            state: self.state,
        }
    }
}

/// A download that was started, and how far it is.
pub struct DownloadEntry {
    pub model_id: String,
    pub progress: DownloadState,
}

/// [`DownloadEntry`] as a mathematical value.
pub struct DownloadView {
    pub model_id: Seq<char>,
    pub progress: ProgressView,
}

impl View for DownloadEntry {
    type V = DownloadView;

    open spec fn view(&self) -> DownloadView {
        DownloadView { model_id: self.model_id@, progress: self.progress@ }
    }
}

/// The download of a model: the last that was started.
pub open spec fn download_of(s: Seq<DownloadView>, id: Seq<char>) -> Option<ProgressView>
    decreases s.len(),
{
    if s.len() == 0 {
        None
    } else if s.last().model_id == id {
        Some(s.last().progress)
    } else {
        download_of(s.drop_last(), id)
    }
}

/// The state of a model whose download was started.
pub open spec fn state_of_download(p: ProgressView) -> ModelStateFfi {
    match p.status {
        StatusView::Downloading | StatusView::Idle => ModelStateFfi::Downloading {
            bytes_downloaded: p.downloaded,
            total_bytes: p.total,
        },
        StatusView::Completed => ModelStateFfi::Installed,
        StatusView::Failed(_) => ModelStateFfi::NotInstalled,
    }
}

/// The state of a model: that it answers comes before its download, and its
/// download before the file on disk.
pub open spec fn model_state(
    id: Seq<char>,
    active: Option<Seq<char>>,
    downloads: Seq<DownloadView>,
    installed: Seq<Seq<char>>,
) -> ModelStateFfi {
    if active == Some(id) {
        ModelStateFfi::Active
    } else {
        match download_of(downloads, id) {
            Some(p) => state_of_download(p),
            None => if installed.contains(id) {
                ModelStateFfi::Installed
            } else {
                ModelStateFfi::NotInstalled
            },
        }
    }
}

/// How a model of the catalog is shown.
pub open spec fn catalog_model(e: EntryView, state: ModelStateFfi) -> CatalogModelView {
    CatalogModelView {
        id: e.id,
        display_name: e.display_name,
        family: e.family,
        size_bytes: e.size_bytes,
        quantization: e.quantization,
        context_window: e.context_window,
        tool_calling: e.tool_calling,
        description: e.description,
        state,
    }
}

fn find_download(downloads: &Vec<DownloadEntry>, id: &str) -> (r: Option<ModelStateFfi>)
    ensures
        r == (match download_of(views(downloads@), id@) {
            Some(p) => Some(state_of_download(p)),
            None => None,
        }),
{
    let ghost all = views(downloads@);
    let mut i: usize = downloads.len();
    assert(all.take(all.len() as int) =~= all);
    while i > 0
        invariant
            i <= downloads.len(),
            all == views(downloads@),
            download_of(all, id@) == download_of(all.take(i as int), id@),
        decreases i,
    {
        i -= 1;
        proof {
            crate::model::lemma_views_take(downloads@, i as int);
        }
        let d = &downloads[i];
        if str_eq(d.model_id.as_str(), id) {
            let state = match d.progress.status() {
                DownloadStatus::Downloading | DownloadStatus::Idle => ModelStateFfi::Downloading {
                    bytes_downloaded: d.progress.bytes_downloaded(),
                    total_bytes: d.progress.total_bytes(),
                },
                DownloadStatus::Completed => ModelStateFfi::Installed,
                DownloadStatus::Failed(_) => ModelStateFfi::NotInstalled,
            };
            return Some(state);
        }
    }
    None
}

fn holds(list: &Vec<String>, s: &str) -> (r: bool)
    ensures
        r == views(list@).contains(s@),
{
    let mut i: usize = 0;
    while i < list.len()
        invariant
            i <= list.len(),
            forall|j: int| 0 <= j < i ==> views(list@)[j] != s@,
        decreases list.len() - i,
    {
        if str_eq(list[i].as_str(), s) {
            assert(views(list@)[i as int] == s@);
            return true;
        }
        i += 1;
    }
    false
}

/// The provider that answers.
#[derive(Debug)]
pub enum ProviderChoice {
    /// None is set up.
    Placeholder,
    /// The local model of an identifier.
    Local(String),
    /// A hosted one.
    Hosted(HostedConfigFfi),
}

/// [`ProviderChoice`] as a mathematical value.
pub enum ChoiceView {
    Placeholder,
    Local(Seq<char>),
    Hosted(HostedView),
}

impl View for ProviderChoice {
    type V = ChoiceView;

    open spec fn view(&self) -> ChoiceView {
        match self {
            ProviderChoice::Placeholder => ChoiceView::Placeholder,
            ProviderChoice::Local(id) => ChoiceView::Local(id@),
            ProviderChoice::Hosted(cfg) => ChoiceView::Hosted(cfg@),
        }
    }
}

/// What the runtime and the active model are doing.
#[derive(Debug)]
pub enum RuntimeStatusFfi {
    NoModel,
    PreparingRuntime,
    Starting { model_id: String },
    Running { model_id: String },
    Failed { message: String },
}

/// [`RuntimeStatusFfi`] as a mathematical value.
pub enum RuntimeView {
    NoModel,
    PreparingRuntime,
    Starting { model_id: Seq<char> },
    Running { model_id: Seq<char> },
    Failed { message: Seq<char> },
}

impl View for RuntimeStatusFfi {
    type V = RuntimeView;

    open spec fn view(&self) -> RuntimeView {
        match self {
            RuntimeStatusFfi::NoModel => RuntimeView::NoModel,
            RuntimeStatusFfi::PreparingRuntime => RuntimeView::PreparingRuntime,
            RuntimeStatusFfi::Starting { model_id } => RuntimeView::Starting {
                model_id: model_id@,
            },
            RuntimeStatusFfi::Running { model_id } => RuntimeView::Running { model_id: model_id@ },
            RuntimeStatusFfi::Failed { message } => RuntimeView::Failed { message: message@ },
        }
    }
}

impl Clone for RuntimeStatusFfi {
    fn clone(&self) -> (r: Self)
        ensures
            r@ == self@,
    {
        match self {
            RuntimeStatusFfi::NoModel => RuntimeStatusFfi::NoModel,
            RuntimeStatusFfi::PreparingRuntime => RuntimeStatusFfi::PreparingRuntime,
            RuntimeStatusFfi::Starting { model_id } => RuntimeStatusFfi::Starting {
                model_id: model_id.clone(),
            },
            RuntimeStatusFfi::Running { model_id } => RuntimeStatusFfi::Running {
                model_id: model_id.clone(),
            },
            RuntimeStatusFfi::Failed { message } => RuntimeStatusFfi::Failed {
                message: message.clone(),
            },
        }
    }
}

/// The configuration of a hosted provider.
#[derive(Debug)]
pub struct HostedConfigFfi {
    /// Which wire format it speaks.
    pub provider: String,
    pub api_key: String,
    pub model: String,
    pub base_url: Option<String>,
}

/// [`HostedConfigFfi`] as a mathematical value.
pub struct HostedView {
    pub provider: Seq<char>,
    pub api_key: Seq<char>,
    pub model: Seq<char>,
    pub base_url: Option<Seq<char>>,
}

impl View for HostedConfigFfi {
    type V = HostedView;

    open spec fn view(&self) -> HostedView {
        HostedView {
            provider: self.provider@,
            api_key: self.api_key@,
            model: self.model@,
            base_url: opt(self.base_url),
        }
    }
}

impl Clone for HostedConfigFfi {
    fn clone(&self) -> (r: Self)
        ensures
            r@ == self@,
    {
        HostedConfigFfi {
            provider: self.provider.clone(),
            api_key: self.api_key.clone(),
            model: self.model.clone(),
            base_url: clone_opt_string(&self.base_url),
        }
    }
}

/// A hosted provider of either wire format.
pub enum HostedProvider {
    Anthropic(AnthropicProvider),
    OpenAi(OpenAiCompatProvider),
}

/// Whether a provider is what a configuration asks for: the Messages API where
/// it is named, and otherwise the OpenAI format, at the given address or at
/// OpenAI's own.
pub open spec fn is_provider_of(p: HostedProvider, cfg: HostedView) -> bool {
    if cfg.provider == "anthropic"@ {
        p matches HostedProvider::Anthropic(a) && a.api_key@ == cfg.api_key && a.model@ == cfg.model
    } else {
        p matches HostedProvider::OpenAi(o) && o@ == (ProviderView {
            base_url: match cfg.base_url {
                Some(url) => url,
                None => "https://api.openai.com"@,
            },
            api_key: cfg.api_key,
            model: cfg.model,
            mode: ComputeMode::Hosted,
        })
    }
}

/// The provider that a configuration asks for.
pub fn hosted_provider(cfg: &HostedConfigFfi) -> (r: HostedProvider)
    ensures
        is_provider_of(r, cfg@),
{
    if str_eq(cfg.provider.as_str(), "anthropic") {
        HostedProvider::Anthropic(
            AnthropicProvider::with_model(cfg.api_key.as_str(), cfg.model.as_str()),
        )
    } else {
        let base = match &cfg.base_url {
            Some(url) => url.clone(),
            None => "https://api.openai.com".to_owned(),
        };
        HostedProvider::OpenAi(
            OpenAiCompatProvider::new(base.as_str(), cfg.api_key.as_str(), cfg.model.as_str()),
        )
    }
}

/// The error of a model that the catalog does not have.
pub open spec fn unknown_model(id: Seq<char>) -> Seq<char> {
    "unknown model `"@ + id + "`"@
}

/// The error of a model that was not downloaded.
pub open spec fn not_downloaded(id: Seq<char>) -> Seq<char> {
    "model `"@ + id + "` is not downloaded"@
}

/// The model of the catalog that a download is started of.
pub fn start_download(model_id: &str) -> (r: Result<CatalogEntry, MahiError>)
    ensures
        match entry_in(catalog_spec(), model_id@) {
            Some(e) => r matches Ok(entry) && entry@ == e,
            None => r matches Err(err) && err@ == unknown_model(model_id@),
        },
{
    match find_entry(model_id) {
        Some(e) => Ok(e),
        None => {
            let mut message = "unknown model `".to_owned();
            message.append(model_id);
            message.append("`");
            Err(MahiError::Engine(message))
        },
    }
}

/// The context window that a model is run with: what was asked for, within
/// bounds.
pub open spec fn clamped_context(asked: u32, window: u32) -> u32 {
    if asked < 512 {
        512
    } else if asked > window {
        window
    } else {
        asked
    }
}

/// The instructions that a goal sets: the goal on top of the default ones, or
/// none of its own where it is blank.
pub open spec fn goal_spec(goal: Seq<char>) -> Option<Seq<char>> {
    if trim(goal).len() == 0 {
        None
    } else {
        Some(DEFAULT_SYSTEM_PROMPT@ + "\n\n"@ + goal)
    }
}

/// The instructions that a goal sets: the goal on top of the default ones, or
/// none of its own where it is blank.
pub fn goal_of(goal: &str) -> (r: Option<String>)
    ensures
        opt(r) == goal_spec(goal@),
{
    if trim_text(goal).as_str().is_empty() {
        None
    } else {
        let mut prompt = DEFAULT_SYSTEM_PROMPT.to_owned();
        prompt.append("\n\n");
        prompt.append(goal);
        Some(prompt)
    }
}

/// A goal comes on top of the default instructions: every turn of a conversation
/// with a goal is told both, and one whose goal is blank the default alone.
pub proof fn law_goal_comes_on_top(c: ConversationView, goal: Seq<char>)
    ensures
        system_prompt(with_prompt(c, goal_spec(goal))) == (if trim(goal).len() == 0 {
            DEFAULT_SYSTEM_PROMPT@
        } else {
            DEFAULT_SYSTEM_PROMPT@ + "\n\n"@ + goal
        }),
{
    if trim(goal).len() > 0 {
        let prompt = DEFAULT_SYSTEM_PROMPT@ + "\n\n"@ + goal;
        lemma_blank(goal);
        lemma_blank(prompt);
        let i = choose|i: int| 0 <= i < goal.len() && !char_is_whitespace(#[trigger] goal[i]);
        assert(prompt[prompt.len() - goal.len() + i] == goal[i]);
    }
}

/// Every model of the catalog has a window of at least the least context.
pub proof fn lemma_catalog_windows(id: Seq<char>)
    ensures
        entry_in(catalog_spec(), id) matches Some(e) ==> e.context_window >= 512,
{
    let s = catalog_spec();
    lemma_entry_in(s, id, 0);
    assert forall|i: int| 0 <= i < s.len() implies (#[trigger] s[i]).context_window >= 512 by {}
}

/// A model that is found stands in the list.
proof fn lemma_entry_in(s: Seq<EntryView>, id: Seq<char>, from: int)
    requires
        0 <= from,
    ensures
        crate::compute::local::catalog::entry_position(s, id, from) matches Some(i) ==> from <= i
            < s.len(),
    decreases s.len() - from,
{
    if from < s.len() {
        lemma_entry_in(s, id, from + 1);
    }
}

/// The models behind the engine: the local one, the hosted configuration, what
/// is shown of the runtime, and who answers.
pub struct EngineState {
    local: Option<String>,
    hosted: Option<HostedConfigFfi>,
    status: RuntimeStatusFfi,
    provider: ProviderChoice,
}

/// [`EngineState`] as a mathematical value.
pub struct EngineView {
    pub local: Option<Seq<char>>,
    pub hosted: Option<HostedView>,
    pub status: RuntimeView,
    pub provider: ChoiceView,
}

impl View for EngineState {
    type V = EngineView;

    closed spec fn view(&self) -> EngineView {
        EngineView {
            local: opt(self.local),
            hosted: opt(self.hosted),
            status: self.status@,
            provider: self.provider@,
        }
    }
}

/// How a model is to be started: its file, its context window, and its entry.
#[derive(Debug)]
pub struct Activation {
    pub path: String,
    pub context: u32,
    pub entry: CatalogEntry,
}

impl EngineView {
    /// No model is set up.
    pub open spec fn initial() -> EngineView {
        EngineView {
            local: None,
            hosted: None,
            status: RuntimeView::NoModel,
            provider: ChoiceView::Placeholder,
        }
    }

    /// After a model was deleted: where it was the local one, nothing answers.
    pub open spec fn deleted(self, id: Seq<char>) -> EngineView {
        if self.local == Some(id) {
            EngineView {
                local: None,
                status: RuntimeView::NoModel,
                provider: ChoiceView::Placeholder,
                ..self
            }
        } else {
            self
        }
    }

    /// After a model was asked to start.
    pub open spec fn starting(self, id: Seq<char>) -> EngineView {
        EngineView { status: RuntimeView::Starting { model_id: id }, ..self }
    }

    /// After a start came to its end: the model answers, or the error is shown.
    pub open spec fn started(self, id: Seq<char>, error: Option<Seq<char>>) -> EngineView {
        match error {
            None => EngineView {
                local: Some(id),
                status: RuntimeView::Running { model_id: id },
                provider: ChoiceView::Local(id),
                ..self
            },
            Some(message) => EngineView { status: RuntimeView::Failed { message }, ..self },
        }
    }

    /// After a hosted provider was set, or cleared: without it the local model
    /// answers, where there is one.
    pub open spec fn configured(self, config: Option<HostedView>) -> EngineView {
        match config {
            Some(cfg) => EngineView {
                hosted: Some(cfg),
                status: RuntimeView::Running { model_id: cfg.model },
                provider: ChoiceView::Hosted(cfg),
                ..self
            },
            None => match self.local {
                Some(id) => EngineView {
                    hosted: None,
                    status: RuntimeView::Running { model_id: id },
                    provider: ChoiceView::Local(id),
                    ..self
                },
                None => EngineView {
                    hosted: None,
                    status: RuntimeView::NoModel,
                    provider: ChoiceView::Placeholder,
                    ..self
                },
            },
        }
    }
}

impl EngineState {
    /// No model is set up.
    pub fn new() -> (r: EngineState)
        ensures
            r@ == EngineView::initial(),
    {
        EngineState {
            local: None,
            hosted: None,
            status: RuntimeStatusFfi::NoModel,
            provider: ProviderChoice::Placeholder,
        }
    }

    /// Who answers.
    pub fn provider(&self) -> (r: &ProviderChoice)
        ensures
            r@ == self@.provider,
    {
        &self.provider
    }

    /// What the runtime and the active model are doing.
    pub fn runtime_status(&self) -> (r: RuntimeStatusFfi)
        ensures
            r@ == self@.status,
    {
        self.status.clone()
    }

    /// The catalog, with the state of each model.
    pub fn model_catalog(&self, installed: &Vec<String>, downloads: &Vec<DownloadEntry>) -> (r: Vec<
        CatalogModelFfi,
    >)
        ensures
            views(r@) == catalog_spec().map_values(
                |e: EntryView|
                    catalog_model(
                        e,
                        model_state(e.id, self@.local, views(downloads@), views(installed@)),
                    ),
            ),
    {
        let entries = model_catalog();
        let ghost all = catalog_spec();
        let ghost f = |e: EntryView|
            catalog_model(
                e,
                model_state(e.id, self@.local, views(downloads@), views(installed@)),
            );
        let mut out: Vec<CatalogModelFfi> = Vec::new();
        let mut i: usize = 0;
        while i < entries.len()
            invariant
                i <= entries.len(),
                all == views(entries@),
                f == (|e: EntryView|
                    catalog_model(
                        e,
                        model_state(e.id, self@.local, views(downloads@), views(installed@)),
                    )),
                out.len() == i,
                forall|j: int| 0 <= j < i ==> (#[trigger] out@[j])@ == f(all[j]),
            decreases entries.len() - i,
        {
            let e = &entries[i];
            let active = match &self.local {
                Some(id) => str_eq(id.as_str(), e.id.as_str()),
                None => false,
            };
            let state = if active {
                ModelStateFfi::Active
            } else {
                match find_download(downloads, e.id.as_str()) {
                    Some(state) => state,
                    None => if holds(installed, e.id.as_str()) {
                        ModelStateFfi::Installed
                    } else {
                        ModelStateFfi::NotInstalled
                    },
                }
            };
            out.push(
                CatalogModelFfi {
                    id: e.id.clone(),
                    display_name: e.display_name.clone(),
                    family: e.family.clone(),
                    size_bytes: e.size_bytes,
                    quantization: e.quantization.clone(),
                    context_window: e.context_window,
                    tool_calling: e.tool_calling,
                    description: e.description.clone(),
                    state,
                },
            );
            assert(all[i as int] == e@);
            i += 1;
        }
        assert(views(out@) =~= all.map_values(f));
        out
    }

    /// Takes note that a model is deleted. Returns whether it was the local one,
    /// whose server is to be stopped.
    pub fn delete_model(&mut self, model_id: &str) -> (r: bool)
        ensures
            final(self)@ == old(self)@.deleted(model_id@),
            r == (old(self)@.local == Some(model_id@)),
    {
        let active = match &self.local {
            Some(id) => str_eq(id.as_str(), model_id),
            None => false,
        };
        if active {
            self.local = None;
            self.provider = ProviderChoice::Placeholder;
            self.status = RuntimeStatusFfi::NoModel;
        }
        active
    }

    /// Begins to start a model, given where its file is and whether it is there.
    pub fn activate_model(
        &mut self,
        model_id: &str,
        context_tokens: u32,
        path: &str,
        is_file: bool,
    ) -> (r: Result<Activation, MahiError>)
        ensures
            match entry_in(catalog_spec(), model_id@) {
                None => final(self)@ == old(self)@ && (r matches Err(e) && e@ == unknown_model(
                    model_id@,
                )),
                Some(entry) => if !is_file {
                    final(self)@ == old(self)@ && (r matches Err(e) && e@ == not_downloaded(
                        model_id@,
                    ))
                } else {
                    final(self)@ == old(self)@.starting(model_id@) && (r matches Ok(a) && a.path@
                        == path@ && a.entry@ == entry && a.context == clamped_context(
                        context_tokens,
                        entry.context_window,
                    ))
                },
            },
    {
        let entry = match start_download(model_id) {
            Ok(e) => e,
            Err(e) => {
                return Err(e);
            },
        };
        if !is_file {
            let mut message = "model `".to_owned();
            message.append(model_id);
            message.append("` is not downloaded");
            return Err(MahiError::Engine(message));
        }
        let context: u32 = if context_tokens < 512 {
            512
        } else if context_tokens > entry.context_window {
            entry.context_window
        } else {
            context_tokens
        };
        self.status = RuntimeStatusFfi::Starting { model_id: model_id.to_owned() };
        Ok(Activation { path: path.to_owned(), context, entry })
    }

    /// Takes note of how a start ended: without an error, or with its message.
    pub fn activation_ended(&mut self, model_id: &str, error: Option<String>)
        ensures
            final(self)@ == old(self)@.started(model_id@, opt(error)),
    {
        match error {
            None => {
                self.local = Some(model_id.to_owned());
                self.provider = ProviderChoice::Local(model_id.to_owned());
                self.status = RuntimeStatusFfi::Running { model_id: model_id.to_owned() };
            },
            Some(message) => {
                self.status = RuntimeStatusFfi::Failed { message };
            },
        }
    }

    /// Sets a hosted provider, or clears it.
    pub fn set_hosted_config(&mut self, config: Option<HostedConfigFfi>)
        ensures
            final(self)@ == old(self)@.configured(opt(config)),
    {
        match config {
            Some(cfg) => {
                self.status = RuntimeStatusFfi::Running { model_id: cfg.model.clone() };
                self.provider = ProviderChoice::Hosted(cfg.clone());
                self.hosted = Some(cfg);
            },
            None => {
                self.hosted = None;
                let local = clone_opt_string(&self.local);
                match local {
                    Some(id) => {
                        self.status = RuntimeStatusFfi::Running { model_id: id.clone() };
                        self.provider = ProviderChoice::Local(id);
                    },
                    None => {
                        self.status = RuntimeStatusFfi::NoModel;
                        self.provider = ProviderChoice::Placeholder;
                    },
                }
            },
        }
    }
}

/// Clearing the hosted configuration brings back the local model, or the
/// placeholder where there is none; setting it in between leaves no trace.
pub proof fn law_clearing_hosted_brings_back_local(v: EngineView, cfg: HostedView)
    ensures
        v.configured(Some(cfg)).configured(None) == v.configured(None),
        v.configured(None).provider == (match v.local {
            Some(id) => ChoiceView::Local(id),
            None => ChoiceView::Placeholder,
        }),
{
}

/// A model that was deleted does not answer any more, and is not shown as
/// active.
pub proof fn law_deleted_model_does_not_answer(v: EngineView, id: Seq<char>)
    requires
        v.provider is Local ==> v.local == Some(v.provider->Local_0),
    ensures
        v.deleted(id).provider != ChoiceView::Local(id),
        v.deleted(id).local != Some(id),
{
}

/// A local model that answers is the local model: every operation keeps it so.
pub proof fn law_answering_model_is_the_local_one(
    v: EngineView,
    id: Seq<char>,
    error: Option<Seq<char>>,
    config: Option<HostedView>,
)
    requires
        v.provider is Local ==> v.local == Some(v.provider->Local_0),
    ensures
        ({
            let holds = |w: EngineView| w.provider is Local ==> w.local == Some(w.provider->Local_0);
            &&& holds(EngineView::initial())
            &&& holds(v.deleted(id))
            &&& holds(v.starting(id))
            &&& holds(v.started(id, error))
            &&& holds(v.configured(config))
        }),
{
}

/// The context window of a model that is started lies between the least one and
/// what the model was trained with.
pub proof fn law_context_is_within_bounds(asked: u32, id: Seq<char>)
    ensures
        entry_in(catalog_spec(), id) matches Some(e) ==> 512 <= clamped_context(
            asked,
            e.context_window,
        ) <= e.context_window,
{
    lemma_catalog_windows(id);
}

/// The file to read the tool servers from: the one named outright, unless the
/// name is blank, and otherwise the first candidate that is there.
pub open spec fn config_choice(
    explicit: Option<Seq<char>>,
    candidates: Seq<Seq<char>>,
    present: Seq<bool>,
    from: int,
) -> Option<Seq<char>>
    decreases candidates.len() - from,
{
    match explicit {
        Some(path) if trim(path).len() > 0 => Some(path),
        _ => if from < 0 || from >= candidates.len() || from >= present.len() {
            None
        } else if present[from] {
            Some(candidates[from])
        } else {
            config_choice(explicit, candidates, present, from + 1)
        },
    }
}

/// The file to read the tool servers from.
pub fn mcp_config_path(
    explicit: &Option<String>,
    candidates: &Vec<String>,
    present: &Vec<bool>,
) -> (r: Option<String>)
    ensures
        opt(r) == config_choice(opt(*explicit), views(candidates@), present@, 0),
{
    match explicit {
        Some(path) => {
            if !trim_text(path.as_str()).as_str().is_empty() {
                return Some(path.clone());
            }
        },
        None => {},
    }
    let mut i: usize = 0;
    while i < candidates.len() && i < present.len()
        invariant
            i <= candidates.len(),
            i <= present.len(),
            opt(*explicit) matches Some(p) ==> trim(p).len() == 0,
            config_choice(opt(*explicit), views(candidates@), present@, 0) == config_choice(
                opt(*explicit),
                views(candidates@),
                present@,
                i as int,
            ),
        decreases candidates.len() - i,
    {
        if present[i] {
            return Some(candidates[i].clone());
        }
        i += 1;
    }
    None
}

/// Where the tool servers are configured under a home directory, by itself.
pub fn own_mcp_config(home: &str) -> (r: String)
    ensures
        r@ == home@ + "/.config/mahi/mcp_servers.json"@,
{
    home.to_owned().concat("/.config/mahi/mcp_servers.json")
}

/// A listed conversation keeps its identifier and its title; a shown message keeps its
/// identifier, its number and its whole text.
pub proof fn law_lists_show_what_is_stored(c: ConversationView, m: MessageView)
    ensures
        listed(c).id == c.id.text(),
        c.title matches Some(t) ==> listed(c).title == t,
        shown(m).id == m.id.text(),
        shown(m).text == m.text_content(),
        shown(m).sequence_num == m.sequence_num,
{
}

/// The reply is made of all pieces of text that the turn streamed, in order.
pub proof fn law_reply_is_all_that_was_streamed(
    items: Seq<Result<AgentEventView, ContractErrorView>>,
    item: Result<AgentEventView, ContractErrorView>,
)
    ensures
        ({
            let f = |e: Result<AgentEventView, ContractErrorView>| reply_part(e);
            let piece = match item {
                Ok(AgentEventView::TextDelta { text }) => text,
                _ => Seq::empty(),
            };
            concat_all(pick(items.push(item), f)) == concat_all(pick(items, f)) + piece
        }),
{
    let f = |e: Result<AgentEventView, ContractErrorView>| reply_part(e);
    let before = pick(items, f);
    assert(items.push(item).drop_last() =~= items);
    match item {
        Ok(AgentEventView::TextDelta { text }) => {
            assert(before.push(text).drop_last() =~= before);
        },
        _ => {
            assert(concat_all(before) + Seq::<char>::empty() =~= concat_all(before));
        },
    }
}

/// The state of a model goes by the download of it that was started last, unless it is the
/// one that answers; without a download it goes by the file.
pub proof fn law_model_state_goes_by_the_last_download(
    id: Seq<char>,
    active: Option<Seq<char>>,
    downloads: Seq<DownloadView>,
    installed: Seq<Seq<char>>,
    i: int,
)
    ensures
        active == Some(id) ==> model_state(id, active, downloads, installed)
            == ModelStateFfi::Active,
        active != Some(id) && (forall|j: int|
            0 <= j < downloads.len() ==> (#[trigger] downloads[j]).model_id != id) ==> model_state(
            id,
            active,
            downloads,
            installed,
        ) == (if installed.contains(id) {
            ModelStateFfi::Installed
        } else {
            ModelStateFfi::NotInstalled
        }),
        active != Some(id) && 0 <= i < downloads.len() && downloads[i].model_id == id && (forall|
            j: int,
        |
            i < j < downloads.len() ==> (#[trigger] downloads[j]).model_id != id) ==> match downloads[i].progress.status {
            StatusView::Completed => model_state(id, active, downloads, installed)
                == ModelStateFfi::Installed,
            StatusView::Failed(_) => model_state(id, active, downloads, installed)
                == ModelStateFfi::NotInstalled,
            _ => model_state(id, active, downloads, installed) == (ModelStateFfi::Downloading {
                bytes_downloaded: downloads[i].progress.downloaded,
                total_bytes: downloads[i].progress.total,
            }),
        },
{
    lemma_download_of(downloads, id, i);
}

proof fn lemma_download_of(s: Seq<DownloadView>, id: Seq<char>, i: int)
    ensures
        (forall|j: int| 0 <= j < s.len() ==> (#[trigger] s[j]).model_id != id) ==> download_of(s, id)
            is None,
        0 <= i < s.len() && s[i].model_id == id && (forall|j: int|
            i < j < s.len() ==> (#[trigger] s[j]).model_id != id) ==> download_of(s, id) == Some(
            s[i].progress,
        ),
    decreases s.len(),
{
    if s.len() > 0 {
        let d = s.drop_last();
        lemma_download_of(d, id, i);
        assert(forall|j: int| 0 <= j < d.len() ==> d[j] == #[trigger] s[j]);
        assert(forall|j: int| 0 <= j < d.len() ==> #[trigger] d[j] == s[j]);
        assert(s[s.len() - 1] == s.last());
    }
}

/// A model that has started answers and is shown as running; one that failed to start
/// leaves who answers as it was, and its error is shown. A hosted provider that is set
/// answers at once.
pub proof fn law_started_model_answers(
    v: EngineView,
    id: Seq<char>,
    message: Seq<char>,
    cfg: HostedView,
)
    ensures
        ({
            let ran = v.starting(id).started(id, None);
            &&& ran.provider == ChoiceView::Local(id) && ran.local == Some(id)
            &&& ran.status == (RuntimeView::Running { model_id: id })
        }),
        ({
            let failed = v.starting(id).started(id, Some(message));
            &&& failed.provider == v.provider && failed.local == v.local && failed.hosted
                == v.hosted
            &&& failed.status == (RuntimeView::Failed { message })
        }),
        v.starting(id).status == (RuntimeView::Starting { model_id: id }),
        v.configured(Some(cfg)).provider == ChoiceView::Hosted(cfg),
        v.configured(Some(cfg)).hosted == Some(cfg),
        v.configured(Some(cfg)).local == v.local,
        v.configured(None).hosted is None,
        v.local != Some(id) ==> v.deleted(id) == v,
{
}

/// The context window is the one that was asked for wherever that lies within the bounds.
pub proof fn law_context_is_as_asked_within_bounds(asked: u32, window: u32)
    requires
        512 <= window,
    ensures
        512 <= asked <= window ==> clamped_context(asked, window) == asked,
        asked < 512 ==> clamped_context(asked, window) == 512,
        asked > window ==> clamped_context(asked, window) == window,
{
}

/// The tool servers are read from the file that is named outright, unless its name is
/// blank, and else from the first candidate that is there.
pub proof fn law_first_present_candidate_is_read(
    explicit: Option<Seq<char>>,
    candidates: Seq<Seq<char>>,
    present: Seq<bool>,
    i: int,
)
    requires
        candidates.len() == present.len(),
    ensures
        (explicit matches Some(path) && trim(path).len() > 0) ==> config_choice(
            explicit,
            candidates,
            present,
            0,
        ) == explicit,
        !(explicit matches Some(path) && trim(path).len() > 0) ==> {
            &&& 0 <= i < present.len() && present[i] && (forall|j: int|
                0 <= j < i ==> !#[trigger] present[j]) ==> config_choice(
                explicit,
                candidates,
                present,
                0,
            ) == Some(candidates[i])
            &&& (forall|j: int| 0 <= j < present.len() ==> !#[trigger] present[j]) ==> config_choice(
                explicit,
                candidates,
                present,
                0,
            ) is None
        },
{
    lemma_config_choice(explicit, candidates, present, 0, i);
}

proof fn lemma_config_choice(
    explicit: Option<Seq<char>>,
    candidates: Seq<Seq<char>>,
    present: Seq<bool>,
    from: int,
    i: int,
)
    requires
        candidates.len() == present.len(),
        0 <= from <= present.len(),
    ensures
        !(explicit matches Some(path) && trim(path).len() > 0) ==> {
            &&& from <= i < present.len() && present[i] && (forall|j: int|
                from <= j < i ==> !#[trigger] present[j]) ==> config_choice(
                explicit,
                candidates,
                present,
                from,
            ) == Some(candidates[i])
            &&& (forall|j: int| from <= j < present.len() ==> !#[trigger] present[j])
                ==> config_choice(explicit, candidates, present, from) is None
        },
    decreases present.len() - from,
{
    if from < present.len() {
        lemma_config_choice(explicit, candidates, present, from + 1, i);
    }
}

/// A model of the catalog is shown as what it is, in the state that it is in.
pub proof fn law_catalog_model_is_shown_as_it_is(e: EntryView, state: ModelStateFfi)
    ensures
        ({
            let shown = catalog_model(e, state);
            &&& shown.id == e.id && shown.display_name == e.display_name && shown.state == state
            &&& shown.size_bytes == e.size_bytes && shown.quantization == e.quantization
            &&& shown.context_window == e.context_window && shown.tool_calling == e.tool_calling
            &&& shown.family == e.family && shown.description == e.description
        }),
{
}

/// A hosted provider speaks the format that the configuration names, with its key and its
/// model, and talks to the address that it names, where it names one.
pub proof fn law_provider_is_as_configured(p: HostedProvider, cfg: HostedView)
    requires
        is_provider_of(p, cfg),
    ensures
        p is Anthropic <==> cfg.provider == "anthropic"@,
        p matches HostedProvider::Anthropic(a) ==> a.api_key@ == cfg.api_key && a.model@
            == cfg.model,
        p matches HostedProvider::OpenAi(o) ==> o@.api_key == cfg.api_key && o@.model == cfg.model
            && o@.mode == ComputeMode::Hosted && (cfg.base_url matches Some(url) ==> o@.base_url
            == url),
{
}

/// The errors on a model name the model.
pub proof fn law_errors_name_the_model(id: Seq<char>)
    ensures
        stands_at(unknown_model(id), id, 15),
        unknown_model(id).len() == id.len() + 16,
        stands_at(not_downloaded(id), id, 7),
{
    reveal_strlit("unknown model `");
    reveal_strlit("`");
    reveal_strlit("model `");
}

} // verus!
