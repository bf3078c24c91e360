//! Compute modes, capabilities and model descriptions.

use crate::model::{opt, views};
use vstd::prelude::*;

verus! {

/// The four compute modes an inference request can run in.
///
/// In order of preference: `MacLan`, `MacRemote`, `Hosted`; `OnDevice` is always
/// available and the private, offline default.
#[derive(Clone, Copy, Debug, PartialEq, Eq, Hash, Structural)]
pub enum ComputeMode {
    /// Small model on the device itself, fully offline.
    OnDevice,
    /// A paired Mac reached over the local network.
    MacLan,
    /// A paired Mac reached remotely over a secure tunnel.
    MacRemote,
    /// A hosted cloud model API.
    Hosted,
}

impl ComputeMode {
    /// Whether this mode requires any network at all.
    pub fn requires_network(&self) -> (r: bool)
        ensures
            r == (*self != ComputeMode::OnDevice),
    {
        match self {
            ComputeMode::OnDevice => false,
            _ => true,
        }
    }

    /// The mode's name.
    pub open spec fn name_spec(self) -> Seq<char> {
        match self {
            ComputeMode::OnDevice => "OnDevice"@,
            ComputeMode::MacLan => "MacLan"@,
            ComputeMode::MacRemote => "MacRemote"@,
            ComputeMode::Hosted => "Hosted"@,
        }
    }

    /// The mode's name.
    pub fn name(&self) -> (r: &'static str)
        ensures
            r@ == self.name_spec(),
    {
        match self {
            ComputeMode::OnDevice => "OnDevice",
            ComputeMode::MacLan => "MacLan",
            ComputeMode::MacRemote => "MacRemote",
            ComputeMode::Hosted => "Hosted",
        }
    }
}

/// A coarse description of what a model or a mode can do, used for routing.
#[derive(Clone, Copy, Debug, PartialEq, Eq, Structural)]
pub struct CapabilitySet {
    pub vision: bool,
    pub tool_calling: bool,
    /// Minimum usable context window, in tokens.
    pub min_context_window: u32,
    pub code_gen: bool,
    /// Extended reasoning before the visible answer.
    pub thinking: bool,
}

impl CapabilitySet {
    /// The empty capability set.
    pub open spec fn none_spec() -> CapabilitySet {
        CapabilitySet {
            vision: false,
            tool_calling: false,
            min_context_window: 0,
            code_gen: false,
            thinking: false,
        }
    }

    /// What `self` asks for and `other` lacks.
    pub open spec fn missing_spec(self, other: CapabilitySet) -> CapabilitySet {
        CapabilitySet {
            vision: self.vision && !other.vision,
            tool_calling: self.tool_calling && !other.tool_calling,
            min_context_window: if self.min_context_window > other.min_context_window {
                (self.min_context_window - other.min_context_window) as u32
            } else {
                0
            },
            code_gen: self.code_gen && !other.code_gen,
            thinking: self.thinking && !other.thinking,
        }
    }

    /// Whether `other` offers everything that `self` asks for.
    pub open spec fn satisfied_spec(self, other: CapabilitySet) -> bool {
        &&& self.vision ==> other.vision
        &&& self.tool_calling ==> other.tool_calling
        &&& self.code_gen ==> other.code_gen
        &&& self.thinking ==> other.thinking
        &&& other.min_context_window >= self.min_context_window
    }

    /// An empty capability set: nothing special required or available.
    pub fn none() -> (r: CapabilitySet)
        ensures
            r == CapabilitySet::none_spec(),
    {
        CapabilitySet {
            vision: false,
            tool_calling: false,
            min_context_window: 0,
            code_gen: false,
            thinking: false,
        }
    }

    /// The capabilities present in `self` but missing from `other`.
    pub fn missing_from(&self, other: &CapabilitySet) -> (r: CapabilitySet)
        ensures
            r == self.missing_spec(*other),
    {
        CapabilitySet {
            vision: self.vision && !other.vision,
            tool_calling: self.tool_calling && !other.tool_calling,
            min_context_window: self.min_context_window.saturating_sub(other.min_context_window),
            code_gen: self.code_gen && !other.code_gen,
            thinking: self.thinking && !other.thinking,
        }
    }

    /// Whether `other` satisfies everything `self` requires.
    pub fn satisfied_by(&self, other: &CapabilitySet) -> (r: bool)
        ensures
            r == self.satisfied_spec(*other),
    {
        (!self.vision || other.vision) && (!self.tool_calling || other.tool_calling) && (
        !self.code_gen || other.code_gen) && (!self.thinking || other.thinking)
            && other.min_context_window >= self.min_context_window
    }
}

impl Default for CapabilitySet {
    fn default() -> (r: Self)
        ensures
            r == CapabilitySet::none_spec(),
    {
        CapabilitySet::none()
    }
}

/// A requirement is satisfied exactly when nothing of it is missing.
pub proof fn law_satisfied_means_nothing_missing(req: CapabilitySet, offer: CapabilitySet)
    ensures
        req.satisfied_spec(offer) <==> req.missing_spec(offer) == CapabilitySet::none_spec(),
{
}

/// The empty requirement is satisfied by every offer.
pub proof fn law_empty_requirement_is_satisfied(offer: CapabilitySet)
    ensures
        CapabilitySet::none_spec().satisfied_spec(offer),
{
}

/// Satisfaction carries over from an offer to any larger one.
pub proof fn law_satisfaction_is_transitive(a: CapabilitySet, b: CapabilitySet, c: CapabilitySet)
    requires
        a.satisfied_spec(b),
        b.satisfied_spec(c),
    ensures
        a.satisfied_spec(c),
{
}

/// Where a model physically runs.
#[derive(Debug)]
pub enum ModelSource {
    OnDevice,
    MacLocal,
    MacRemote,
    Hosted { provider: String },
}

/// [`ModelSource`] as a mathematical value.
pub enum ModelSourceView {
    OnDevice,
    MacLocal,
    MacRemote,
    Hosted { provider: Seq<char> },
}

impl View for ModelSource {
    type V = ModelSourceView;

    open spec fn view(&self) -> ModelSourceView {
        match self {
            ModelSource::OnDevice => ModelSourceView::OnDevice,
            ModelSource::MacLocal => ModelSourceView::MacLocal,
            ModelSource::MacRemote => ModelSourceView::MacRemote,
            ModelSource::Hosted { provider } => ModelSourceView::Hosted { provider: provider@ },
        }
    }
}

impl Clone for ModelSource {
    fn clone(&self) -> (r: Self)
        ensures
            r@ == self@,
    {
        match self {
            ModelSource::OnDevice => ModelSource::OnDevice,
            ModelSource::MacLocal => ModelSource::MacLocal,
            ModelSource::MacRemote => ModelSource::MacRemote,
            ModelSource::Hosted { provider } => ModelSource::Hosted { provider: provider.clone() },
        }
    }
}

/// Measured performance profile of a model.
#[derive(Clone, Copy, Debug, PartialEq, Eq, Structural)]
pub struct PerfProfile {
    /// Time to the first token, in milliseconds.
    pub ttft_ms: u32,
    /// Thousandths of a token per second.
    pub milli_tok_per_sec: u32,
}

impl Default for PerfProfile {
    fn default() -> (r: Self)
        ensures
            r == (PerfProfile { ttft_ms: 0, milli_tok_per_sec: 0 }),
    {
        PerfProfile { ttft_ms: 0, milli_tok_per_sec: 0 }
    }
}

/// A user-facing label about a model's limits.
#[derive(Debug)]
pub enum LimitationLabel {
    NoLocalRepo,
    MaxImages(u8),
    MaxContextWindow(u32),
    NoComplexCodeGen,
    Custom(String),
}

/// [`LimitationLabel`] as a mathematical value.
pub enum LimitationView {
    NoLocalRepo,
    MaxImages(u8),
    MaxContextWindow(u32),
    NoComplexCodeGen,
    Custom(Seq<char>),
}

impl View for LimitationLabel {
    type V = LimitationView;

    open spec fn view(&self) -> LimitationView {
        match self {
            LimitationLabel::NoLocalRepo => LimitationView::NoLocalRepo,
            LimitationLabel::MaxImages(n) => LimitationView::MaxImages(*n),
            LimitationLabel::MaxContextWindow(n) => LimitationView::MaxContextWindow(*n),
            LimitationLabel::NoComplexCodeGen => LimitationView::NoComplexCodeGen,
            LimitationLabel::Custom(s) => LimitationView::Custom(s@),
        }
    }
}

impl Clone for LimitationLabel {
    fn clone(&self) -> (r: Self)
        ensures
            r@ == self@,
    {
        match self {
            LimitationLabel::NoLocalRepo => LimitationLabel::NoLocalRepo,
            LimitationLabel::MaxImages(n) => LimitationLabel::MaxImages(*n),
            LimitationLabel::MaxContextWindow(n) => LimitationLabel::MaxContextWindow(*n),
            LimitationLabel::NoComplexCodeGen => LimitationLabel::NoComplexCodeGen,
            LimitationLabel::Custom(s) => LimitationLabel::Custom(s.clone()),
        }
    }
}

/// A description of one model the system can route to.
#[derive(Debug)]
pub struct ModelDescriptor {
    pub id: String,
    pub display_name: String,
    pub context_window: u32,
    pub capabilities: CapabilitySet,
    pub limitations: Vec<LimitationLabel>,
    pub size_bytes: Option<u64>,
    pub quantization: Option<String>,
    pub source: ModelSource,
    pub perf_profile: PerfProfile,
}

/// [`ModelDescriptor`] as a mathematical value.
pub struct ModelDescriptorView {
    pub id: Seq<char>,
    pub display_name: Seq<char>,
    pub context_window: u32,
    pub capabilities: CapabilitySet,
    pub limitations: Seq<LimitationView>,
    pub size_bytes: Option<u64>,
    pub quantization: Option<Seq<char>>,
    pub source: ModelSourceView,
    pub perf_profile: PerfProfile,
}

impl View for ModelDescriptor {
    type V = ModelDescriptorView;

    open spec fn view(&self) -> ModelDescriptorView {
        ModelDescriptorView {
            id: self.id@,
            display_name: self.display_name@,
            context_window: self.context_window,
            capabilities: self.capabilities,
            limitations: views(self.limitations@),
            size_bytes: self.size_bytes,
            quantization: opt(self.quantization),
            source: self.source@,
            perf_profile: self.perf_profile,
        }
    }
}

fn clone_limitations(v: &Vec<LimitationLabel>) -> (r: Vec<LimitationLabel>)
    ensures
        views(r@) == views(v@),
{
    let mut out: Vec<LimitationLabel> = Vec::new();
    let mut i: usize = 0;
    while i < v.len()
        invariant
            i <= v.len(),
            out.len() == i,
            forall|j: int| 0 <= j < i ==> out@[j]@ == v@[j]@,
        decreases v.len() - i,
    {
        out.push(v[i].clone());
        i += 1;
    }
    assert(views(out@) =~= views(v@));
    out
}

impl Clone for ModelDescriptor {
    fn clone(&self) -> (r: Self)
        ensures
            r@ == self@,
    {
        ModelDescriptor {
            id: self.id.clone(),
            display_name: self.display_name.clone(),
            context_window: self.context_window,
            capabilities: self.capabilities,
            limitations: clone_limitations(&self.limitations),
            size_bytes: self.size_bytes,
            quantization: crate::model::clone_opt_string(&self.quantization),
            source: self.source.clone(),
            perf_profile: self.perf_profile,
        }
    }
}

/// Every mode has a name of its own.
pub proof fn law_modes_are_told_apart(a: ComputeMode, b: ComputeMode)
    requires
        a.name_spec() == b.name_spec(),
    ensures
        a == b,
{
    reveal_strlit("OnDevice");
    reveal_strlit("MacLan");
    reveal_strlit("MacRemote");
    reveal_strlit("Hosted");
    assert("OnDevice"@.len() == 8 && "MacRemote"@.len() == 9);
    assert("MacLan"@.len() == 6 && "MacLan"@[0] == 'M');
    assert("Hosted"@.len() == 6 && "Hosted"@[0] == 'H');
}

} // verus!
