//! The choice of a mode for each request.
//!
//! Unless a mode is pinned, a request goes to the most preferred registered
//! provider that can serve it. A pinned mode is never overridden: where its
//! provider is missing or cannot serve the request, that is an error.

use crate::compute::capability::{
    build_capability_snapshot, models_of, DeviceCapabilitySnapshot,
};
use crate::compute::modes::{preference_order, preferred, ModeTable};
use crate::contracts::compute::{CanHandleResult, ChunkView, InferenceChunk};
use crate::contracts::error::{ContractError, ContractErrorView, InferenceError, InferenceErrorView};
use crate::contracts::types::{
    CapabilitySet, ComputeMode, LimitationLabel, LimitationView, ModelDescriptor,
    ModelDescriptorView, ModelSource, ModelSourceView, PerfProfile,
};
use crate::ident::Uuid;
use crate::model::{outcome, views};
use vstd::prelude::*;

verus! {

/// Routes each request to the best available provider.
pub struct InferenceRouter<P> {
    providers: ModeTable<P>,
    pin: Option<ComputeMode>,
    /// The mode of the latest generation that has begun.
    last_active: Option<ComputeMode>,
}

/// Whether the provider of a mode is registered and answered that it can serve
/// the request.
pub open spec fn serves<P>(
    providers: ModeTable<P>,
    probes: ModeTable<CanHandleResult>,
    mode: ComputeMode,
) -> bool {
    providers.at(mode) is Some && (probes.at(mode) matches Some(p) && p.capable)
}

/// The most preferred mode, at or after a position of the order, that serves.
pub open spec fn first_serving<P>(
    providers: ModeTable<P>,
    probes: ModeTable<CanHandleResult>,
    from: int,
) -> Option<ComputeMode>
    decreases 4 - from,
{
    if from >= 4 {
        None
    } else if serves(providers, probes, preference_order()[from]) {
        Some(preference_order()[from])
    } else {
        first_serving(providers, probes, from + 1)
    }
}

/// The mode for a request, or why there is none.
pub open spec fn choice<P>(
    providers: ModeTable<P>,
    pin: Option<ComputeMode>,
    probes: ModeTable<CanHandleResult>,
) -> Result<ComputeMode, InferenceErrorView> {
    match pin {
        Some(pinned) => if serves(providers, probes, pinned) {
            Ok(pinned)
        } else {
            Err(InferenceErrorView::PinViolation { requested: pinned })
        },
        None => match first_serving(providers, probes, 0) {
            Some(mode) => Ok(mode),
            None => Err(InferenceErrorView::NoCapableProvider),
        },
    }
}

/// The most preferred registered mode, at or after a position of the order.
pub open spec fn first_registered<P>(providers: ModeTable<P>, from: int) -> Option<ComputeMode>
    decreases 4 - from,
{
    if from >= 4 {
        None
    } else if providers.at(preference_order()[from]) is Some {
        Some(preference_order()[from])
    } else {
        first_registered(providers, from + 1)
    }
}

/// The answer of a mode's provider, where it is registered and has answered.
pub open spec fn answer<P>(
    providers: ModeTable<P>,
    probes: ModeTable<CanHandleResult>,
    mode: ComputeMode,
) -> Option<CanHandleResult> {
    if providers.at(mode) is Some {
        probes.at(mode)
    } else {
        None
    }
}

/// The answer of the router: that of the most preferred provider that can serve
/// the request, else that of the most preferred one, else a plain refusal.
pub open spec fn routed_answer<P>(
    providers: ModeTable<P>,
    probes: ModeTable<CanHandleResult>,
    from: int,
    first_failure: Option<CanHandleResult>,
    required: CapabilitySet,
) -> CanHandleResult
    decreases 4 - from,
{
    if from >= 4 {
        match first_failure {
            Some(f) => f,
            None => refusal(required),
        }
    } else {
        match answer(providers, probes, preference_order()[from]) {
            Some(a) => if a.capable {
                a
            } else {
                routed_answer(
                    providers,
                    probes,
                    from + 1,
                    match first_failure {
                        Some(f) => Some(f),
                        None => Some(a),
                    },
                    required,
                )
            },
            None => routed_answer(providers, probes, from + 1, first_failure, required),
        }
    }
}

/// The answer where nobody can be asked.
pub open spec fn refusal(required: CapabilitySet) -> CanHandleResult {
    CanHandleResult { capable: false, missing_caps: required, escalation_hint: None }
}

impl<P> InferenceRouter<P> {
    /// The registered providers.
    pub closed spec fn providers(&self) -> ModeTable<P> {
        self.providers
    }

    /// The pinned mode.
    pub closed spec fn pin(&self) -> Option<ComputeMode> {
        self.pin
    }

    /// The mode of the latest generation that has begun.
    pub closed spec fn last_active(&self) -> Option<ComputeMode> {
        self.last_active
    }

    /// A builder without providers and without a pin.
    pub fn builder() -> (r: InferenceRouterBuilder<P>)
        ensures
            forall|m: ComputeMode| #[trigger] r.providers().at(m) is None,
            r.pinned() is None,
    {
        InferenceRouterBuilder { providers: ModeTable::new(), pin: None }
    }

    /// The currently pinned mode, if any.
    pub fn pinned_mode(&self) -> (r: Option<ComputeMode>)
        ensures
            r == self.pin(),
    {
        self.pin
    }

    /// The provider registered for a mode.
    pub fn provider(&self, mode: ComputeMode) -> (r: Option<&P>)
        ensures
            match r {
                Some(p) => self.providers().at(mode) == Some(*p),
                None => self.providers().at(mode) is None,
            },
    {
        self.providers.get(mode)
    }

    /// Modes with a registered provider, in order of preference.
    pub fn registered_modes(&self) -> (r: Vec<ComputeMode>)
        ensures
            r@ == preference_order().filter(|m: ComputeMode| self.providers().at(m) is Some),
    {
        let ghost keep = |m: ComputeMode| self.providers().at(m) is Some;
        let mut out: Vec<ComputeMode> = Vec::new();
        let mut i: usize = 0;
        assert(preference_order().take(0) =~= Seq::empty());
        proof {
            reveal(Seq::filter);
        }
        while i < 4
            invariant
                i <= 4,
                keep == (|m: ComputeMode| self.providers().at(m) is Some),
                out@ == preference_order().take(i as int).filter(keep),
            decreases 4 - i,
        {
            let mode = preferred(i);
            proof {
                reveal(Seq::filter);
                assert(preference_order().take(i + 1).drop_last() =~= preference_order().take(
                    i as int,
                ));
                assert(preference_order().take(i + 1).last() == mode);
            }
            if self.providers.get(mode).is_some() {
                out.push(mode);
            }
            i += 1;
        }
        assert(preference_order().take(4) =~= preference_order());
        out
    }

    /// The mode for a request, given what the registered providers answered:
    /// the pin, or the most preferred mode that can serve it.
    pub fn select(&self, probes: &ModeTable<CanHandleResult>) -> (r: Result<
        ComputeMode,
        ContractError,
    >)
        ensures
            match choice(self.providers(), self.pin(), *probes) {
                Ok(mode) => r == Ok::<ComputeMode, ContractError>(mode),
                Err(e) => r matches Err(f) && f@ == ContractErrorView::Inference(e),
            },
            r matches Ok(mode) ==> self.providers().at(mode) is Some,
    {
        match self.pin {
            Some(pinned) => {
                if self.can_serve(probes, pinned) {
                    Ok(pinned)
                } else {
                    Err(ContractError::Inference(InferenceError::PinViolation { requested: pinned }))
                }
            },
            None => {
                let mut i: usize = 0;
                while i < 4
                    invariant
                        i <= 4,
                        self.pin() is None,
                        first_serving(self.providers(), *probes, 0) == first_serving(
                            self.providers(),
                            *probes,
                            i as int,
                        ),
                    decreases 4 - i,
                {
                    let mode = preferred(i);
                    if self.can_serve(probes, mode) {
                        return Ok(mode);
                    }
                    i += 1;
                }
                Err(ContractError::Inference(InferenceError::NoCapableProvider))
            },
        }
    }

    fn can_serve(&self, probes: &ModeTable<CanHandleResult>, mode: ComputeMode) -> (r: bool)
        ensures
            r == serves(self.providers(), *probes, mode),
    {
        match (self.providers.get(mode), probes.get(mode)) {
            (Some(_), Some(p)) => p.capable,
            _ => false,
        }
    }

    /// Hands on what a generation in a chosen mode came to. Only where it has
    /// begun is the mode remembered as the active one.
    pub fn generate<S>(&mut self, mode: ComputeMode, started: Result<S, ContractError>) -> (r: Result<
        S,
        ContractError,
    >)
        ensures
            r == started,
            final(self).providers() == old(self).providers(),
            final(self).pin() == old(self).pin(),
            final(self).last_active() == (if started is Ok {
                Some(mode)
            } else {
                old(self).last_active()
            }),
            started is Err ==> *final(self) == *old(self),
    {
        if started.is_ok() {
            self.last_active = Some(mode);
        }
        started
    }

    /// The mode whose model the router reports: the pinned one, or that of the
    /// latest generation that has begun, or the most preferred registered one.
    pub fn active_mode(&self) -> (r: Option<ComputeMode>)
        ensures
            r == (match self.pin() {
                Some(pinned) => if self.providers().at(pinned) is Some {
                    Some(pinned)
                } else {
                    None
                },
                None => match self.last_active() {
                    Some(mode) => if self.providers().at(mode) is Some {
                        Some(mode)
                    } else {
                        first_registered(self.providers(), 0)
                    },
                    None => first_registered(self.providers(), 0),
                },
            }),
    {
        match self.pin {
            Some(pinned) => {
                return if self.providers.get(pinned).is_some() {
                    Some(pinned)
                } else {
                    None
                };
            },
            None => {},
        }
        match self.last_active {
            Some(mode) => {
                if self.providers.get(mode).is_some() {
                    return Some(mode);
                }
            },
            None => {},
        }
        let mut i: usize = 0;
        while i < 4
            invariant
                i <= 4,
                self.pin() is None,
                self.last_active() matches Some(m) ==> self.providers().at(m) is None,
                first_registered(self.providers(), 0) == first_registered(
                    self.providers(),
                    i as int,
                ),
            decreases 4 - i,
        {
            let mode = preferred(i);
            if self.providers.get(mode).is_some() {
                return Some(mode);
            }
            i += 1;
        }
        None
    }

    /// The description reported where no provider is active.
    pub fn unavailable_descriptor() -> (r: ModelDescriptor)
        ensures
            r@ == (ModelDescriptorView {
                id: "mahi-router/no-active-provider"@,
                display_name: "Mahi Router (no active provider)"@,
                context_window: 0,
                capabilities: CapabilitySet::none_spec(),
                limitations: seq![
                    LimitationView::Custom("no provider registered or pinned mode unavailable"@),
                ],
                size_bytes: None,
                quantization: None,
                source: ModelSourceView::OnDevice,
                perf_profile: PerfProfile { ttft_ms: 0, milli_tok_per_sec: 0 },
            }),
    {
        let limitations = vec![
            LimitationLabel::Custom("no provider registered or pinned mode unavailable".to_owned()),
        ];
        assert(views(limitations@) =~= seq![
            LimitationView::Custom("no provider registered or pinned mode unavailable"@),
        ]);
        ModelDescriptor {
            id: "mahi-router/no-active-provider".to_owned(),
            display_name: "Mahi Router (no active provider)".to_owned(),
            context_window: 0,
            capabilities: CapabilitySet::none(),
            limitations,
            size_bytes: None,
            quantization: None,
            source: ModelSource::OnDevice,
            perf_profile: PerfProfile::default(),
        }
    }

    /// Whether the router can serve a request, given what the registered
    /// providers answered.
    pub fn can_handle(&self, probes: &ModeTable<CanHandleResult>, required: &CapabilitySet) -> (r:
        CanHandleResult)
        ensures
            r == (match self.pin() {
                Some(pinned) => match answer(self.providers(), *probes, pinned) {
                    Some(a) => a,
                    None => refusal(*required),
                },
                None => routed_answer(self.providers(), *probes, 0, None, *required),
            }),
    {
        let refused = CanHandleResult {
            capable: false,
            missing_caps: *required,
            escalation_hint: None,
        };
        match self.pin {
            Some(pinned) => {
                return match self.answer_of(probes, pinned) {
                    Some(a) => a,
                    None => refused,
                };
            },
            None => {},
        }
        let mut first_failure: Option<CanHandleResult> = None;
        let mut i: usize = 0;
        while i < 4
            invariant
                i <= 4,
                self.pin() is None,
                routed_answer(self.providers(), *probes, 0, None, *required) == routed_answer(
                    self.providers(),
                    *probes,
                    i as int,
                    first_failure,
                    *required,
                ),
            decreases 4 - i,
        {
            match self.answer_of(probes, preferred(i)) {
                Some(a) => {
                    if a.capable {
                        return a;
                    }
                    if first_failure.is_none() {
                        first_failure = Some(a);
                    }
                },
                None => {},
            }
            i += 1;
        }
        match first_failure {
            Some(f) => f,
            None => refused,
        }
    }

    fn answer_of(&self, probes: &ModeTable<CanHandleResult>, mode: ComputeMode) -> (r: Option<
        CanHandleResult,
    >)
        ensures
            r == answer(self.providers(), *probes, mode),
    {
        match (self.providers.get(mode), probes.get(mode)) {
            (Some(_), Some(p)) => Some(*p),
            _ => None,
        }
    }

    /// What the device offers in each mode: a mode with a registered provider is
    /// available with that provider's model, the others are not.
    pub fn capability_snapshot<F: Fn(&P) -> ModelDescriptor>(&self, device_id: Uuid, describe: F) -> (r:
        DeviceCapabilitySnapshot)
        requires
            forall|p: &P| #[trigger] call_requires(describe, (p,)),
        ensures
            r.device_id == device_id,
            r.timestamp.of_clock(),
            forall|m: ComputeMode|
                (#[trigger] r.modes.at(m)) matches Some(c) && c.tool_ids@.len() == 0 && c.available
                    == (self.providers().at(m) is Some) && offers(
                    self.providers().at(m),
                    describe,
                    c.models@,
                ),
    {
        let mut models: Vec<(ComputeMode, ModelDescriptor)> = Vec::new();
        let mut i: usize = 0;
        while i < 4
            invariant
                i <= 4,
                forall|p: &P| #[trigger] call_requires(describe, (p,)),
                forall|m: ComputeMode|
                    offers(
                        if rank(m) < i {
                            self.providers().at(m)
                        } else {
                            None
                        },
                        describe,
                        #[trigger] models_of(m, models@),
                    ),
            decreases 4 - i,
        {
            let mode = preferred(i);
            let ghost before = models@;
            assert forall|m: ComputeMode| rank(m) == i implies m == mode by {}
            match self.providers.get(mode) {
                Some(p) => {
                    let model = describe(p);
                    models.push((mode, model));
                    assert(models@.drop_last() =~= before);
                    assert(offers(None, describe, models_of(mode, before)));
                },
                None => {},
            }
            assert forall|m: ComputeMode|
                offers(
                    if rank(m) < i + 1 {
                        self.providers().at(m)
                    } else {
                        None
                    },
                    describe,
                    #[trigger] models_of(m, models@),
                ) by {
                assert(offers(
                    if rank(m) < i {
                        self.providers().at(m)
                    } else {
                        None
                    },
                    describe,
                    models_of(m, before),
                ));
            }
            i += 1;
        }
        build_capability_snapshot(device_id, models)
    }
}

/// The place of a mode in the order of preference.
pub open spec fn rank(mode: ComputeMode) -> int {
    match mode {
        ComputeMode::MacLan => 0,
        ComputeMode::MacRemote => 1,
        ComputeMode::Hosted => 2,
        ComputeMode::OnDevice => 3,
    }
}

/// Whether models are what a provider is described as: one model, or none where
/// there is no provider.
pub open spec fn offers<P, F: Fn(&P) -> ModelDescriptor>(
    provider: Option<P>,
    describe: F,
    models: Seq<ModelDescriptor>,
) -> bool {
    match provider {
        Some(p) => models.len() == 1 && call_ensures(describe, (&p,), models[0]),
        None => models.len() == 0,
    }
}

/// An item with the mode that the router chose, whatever the provider stamped.
pub fn stamp(item: Result<InferenceChunk, ContractError>, mode: ComputeMode) -> (r: Result<
    InferenceChunk,
    ContractError,
>)
    ensures
        outcome(r) == (match outcome(item) {
            Ok(c) => Ok(ChunkView { active_mode: mode, ..c }),
            Err(e) => Err(e),
        }),
{
    match item {
        Ok(chunk) => {
            let mut chunk = chunk;
            chunk.active_mode = mode;
            Ok(chunk)
        },
        Err(e) => Err(e),
    }
}

/// Builder for [`InferenceRouter`].
pub struct InferenceRouterBuilder<P> {
    providers: ModeTable<P>,
    pin: Option<ComputeMode>,
}

impl<P> InferenceRouterBuilder<P> {
    /// The registered providers.
    pub closed spec fn providers(&self) -> ModeTable<P> {
        self.providers
    }

    /// The pinned mode.
    pub closed spec fn pinned(&self) -> Option<ComputeMode> {
        self.pin
    }

    /// Registers a provider for a mode; an earlier one is replaced.
    pub fn add_provider(self, mode: ComputeMode, provider: P) -> (r: InferenceRouterBuilder<P>)
        ensures
            r.pinned() == self.pinned(),
            forall|m: ComputeMode|
                #[trigger] r.providers().at(m) == (if m == mode {
                    Some(provider)
                } else {
                    self.providers().at(m)
                }),
    {
        let mut providers = self.providers;
        providers.set(mode, provider);
        InferenceRouterBuilder { providers, pin: self.pin }
    }

    /// Pins all requests to a mode, or clears the pin.
    pub fn pin(self, mode: Option<ComputeMode>) -> (r: InferenceRouterBuilder<P>)
        ensures
            r.providers() == self.providers(),
            r.pinned() == mode,
    {
        InferenceRouterBuilder { providers: self.providers, pin: mode }
    }

    /// The router.
    pub fn build(self) -> (r: InferenceRouter<P>)
        ensures
            r.providers() == self.providers(),
            r.pin() == self.pinned(),
            r.last_active() is None,
    {
        InferenceRouter { providers: self.providers, pin: self.pin, last_active: None }
    }
}

/// A pinned mode is never overridden: the choice is the pin or an error.
pub proof fn law_pin_is_never_overridden<P>(
    providers: ModeTable<P>,
    pin: ComputeMode,
    probes: ModeTable<CanHandleResult>,
)
    ensures
        choice(providers, Some(pin), probes) == Ok::<ComputeMode, InferenceErrorView>(pin)
            || choice(providers, Some(pin), probes) == Err::<ComputeMode, InferenceErrorView>(
            InferenceErrorView::PinViolation { requested: pin },
        ),
{
}

/// Without a pin, no mode preferred to the chosen one could have served.
pub proof fn law_choice_is_the_most_preferred<P>(
    providers: ModeTable<P>,
    probes: ModeTable<CanHandleResult>,
    i: int,
)
    requires
        0 <= i < 4,
        serves(providers, probes, preference_order()[i]),
    ensures
        exists|j: int|
            0 <= j <= i && choice(providers, None, probes) == Ok::<ComputeMode, InferenceErrorView>(
                #[trigger] preference_order()[j],
            ) && serves(providers, probes, preference_order()[j]),
{
    lemma_first_serving(providers, probes, 0, i);
}

proof fn lemma_first_serving<P>(
    providers: ModeTable<P>,
    probes: ModeTable<CanHandleResult>,
    from: int,
    i: int,
)
    requires
        0 <= from <= i < 4,
        serves(providers, probes, preference_order()[i]),
    ensures
        exists|j: int|
            from <= j <= i && first_serving(providers, probes, from) == Some(
                #[trigger] preference_order()[j],
            ) && serves(providers, probes, preference_order()[j]),
    decreases i - from,
{
    if serves(providers, probes, preference_order()[from]) {
        assert(first_serving(providers, probes, from) == Some(preference_order()[from]));
    } else {
        lemma_first_serving(providers, probes, from + 1, i);
    }
}

/// The device itself is the last resort: with a capable provider there, a
/// request is never stranded.
pub proof fn law_device_is_the_last_resort<P>(
    providers: ModeTable<P>,
    probes: ModeTable<CanHandleResult>,
)
    requires
        serves(providers, probes, ComputeMode::OnDevice),
    ensures
        choice(providers, None, probes) is Ok,
{
    assert(preference_order()[3] == ComputeMode::OnDevice);
    law_choice_is_the_most_preferred(providers, probes, 3);
}

/// The router says that it can serve a request exactly where it finds a mode for it.
pub proof fn law_answer_agrees_with_choice<P>(
    providers: ModeTable<P>,
    probes: ModeTable<CanHandleResult>,
    required: CapabilitySet,
)
    ensures
        routed_answer(providers, probes, 0, None, required).capable <==> choice(
            providers,
            None,
            probes,
        ) is Ok,
{
    lemma_routed_answer(providers, probes, 0, None, required);
}

proof fn lemma_routed_answer<P>(
    providers: ModeTable<P>,
    probes: ModeTable<CanHandleResult>,
    from: int,
    first_failure: Option<CanHandleResult>,
    required: CapabilitySet,
)
    requires
        0 <= from <= 4,
        first_failure matches Some(f) ==> !f.capable,
    ensures
        routed_answer(providers, probes, from, first_failure, required).capable
            <==> first_serving(providers, probes, from) is Some,
    decreases 4 - from,
{
    if from < 4 {
        match answer(providers, probes, preference_order()[from]) {
            Some(a) => {
                if !a.capable {
                    let kept = match first_failure {
                        Some(f) => Some(f),
                        None => Some(a),
                    };
                    lemma_routed_answer(providers, probes, from + 1, kept, required);
                }
            },
            None => {
                lemma_routed_answer(providers, probes, from + 1, first_failure, required);
            },
        }
    }
}

/// Modes are preferred in one order: the Mac nearby, the Mac far away, a hosted model, and
/// the device itself.
pub proof fn law_modes_are_preferred_by_rank(mode: ComputeMode)
    ensures
        preference_order().len() == 4,
        preference_order()[rank(mode)] == mode,
        rank(ComputeMode::MacLan) < rank(ComputeMode::MacRemote) < rank(ComputeMode::Hosted) < rank(
            ComputeMode::OnDevice,
        ),
{
}

/// The router answers for the mode that it would choose. Where it finds none, it answers
/// for the most preferred provider that answered, so that what is missing is told; without
/// any, all that is required is missing.
pub proof fn law_answer_is_of_the_chosen_mode<P>(
    providers: ModeTable<P>,
    probes: ModeTable<CanHandleResult>,
    required: CapabilitySet,
    i: int,
)
    requires
        0 <= i < 4,
    ensures
        ({
            let r = routed_answer(providers, probes, 0, None, required);
            let order = preference_order();
            &&& choice(providers, None, probes) matches Ok(m) ==> probes.at(m) == Some(r)
            &&& choice(providers, None, probes) is Err && answer(providers, probes, order[i])
                is Some && (forall|j: int|
                0 <= j < i ==> answer(providers, probes, #[trigger] order[j]) is None) ==> answer(
                providers,
                probes,
                order[i],
            ) == Some(r)
            &&& (forall|j: int|
                0 <= j < 4 ==> answer(providers, probes, #[trigger] order[j]) is None) ==> r == (
            CanHandleResult { capable: false, missing_caps: required, escalation_hint: None })
        }),
{
    lemma_answer_of(providers, probes, 0, None, required, i);
}

proof fn lemma_answer_of<P>(
    providers: ModeTable<P>,
    probes: ModeTable<CanHandleResult>,
    from: int,
    first_failure: Option<CanHandleResult>,
    required: CapabilitySet,
    i: int,
)
    requires
        0 <= from <= 4,
        0 <= i < 4,
        first_failure matches Some(f) ==> !f.capable,
    ensures
        ({
            let r = routed_answer(providers, probes, from, first_failure, required);
            let order = preference_order();
            &&& first_serving(providers, probes, from) matches Some(m) ==> probes.at(m) == Some(r)
            &&& first_serving(providers, probes, from) is None && first_failure is Some
                ==> first_failure == Some(r)
            &&& first_serving(providers, probes, from) is None && first_failure is None && from <= i
                && answer(providers, probes, order[i]) is Some && (forall|j: int|
                from <= j < i ==> answer(providers, probes, #[trigger] order[j]) is None)
                ==> answer(providers, probes, order[i]) == Some(r)
            &&& first_failure is None && (forall|j: int|
                from <= j < 4 ==> answer(providers, probes, #[trigger] order[j]) is None) ==> r
                == refusal(required)
        }),
    decreases 4 - from,
{
    if from < 4 {
        match answer(providers, probes, preference_order()[from]) {
            Some(a) => {
                if !a.capable {
                    let kept = match first_failure {
                        Some(f) => Some(f),
                        None => Some(a),
                    };
                    lemma_answer_of(providers, probes, from + 1, kept, required, i);
                }
            },
            None => {
                lemma_answer_of(providers, probes, from + 1, first_failure, required, i);
            },
        }
    }
}

/// Without a pin and without a mode that serves, the request is refused; with one that
/// serves and is pinned, it is the pinned one.
pub proof fn law_unserved_request_is_refused<P>(
    providers: ModeTable<P>,
    probes: ModeTable<CanHandleResult>,
    pin: ComputeMode,
)
    ensures
        (forall|m: ComputeMode| !#[trigger] serves(providers, probes, m)) ==> choice(
            providers,
            None,
            probes,
        ) == Err::<ComputeMode, InferenceErrorView>(InferenceErrorView::NoCapableProvider),
        choice(providers, Some(pin), probes) is Ok <==> providers.at(pin) is Some && (probes.at(
            pin,
        ) matches Some(p) && p.capable),
{
    if forall|m: ComputeMode| !#[trigger] serves(providers, probes, m) {
        assert(first_serving(providers, probes, 4) is None);
        assert(!serves(providers, probes, preference_order()[3]));
        assert(first_serving(providers, probes, 3) is None);
        assert(!serves(providers, probes, preference_order()[2]));
        assert(first_serving(providers, probes, 2) is None);
        assert(!serves(providers, probes, preference_order()[1]));
        assert(first_serving(providers, probes, 1) is None);
        assert(!serves(providers, probes, preference_order()[0]));
        assert(first_serving(providers, probes, 0) is None);
    }
}

/// The most preferred registered provider is one that is registered, with none registered
/// that is preferred to it; there is none just where nothing is registered.
pub proof fn law_first_registered_is_the_most_preferred<P>(providers: ModeTable<P>)
    ensures
        match first_registered(providers, 0) {
            Some(m) => providers.at(m) is Some && (forall|o: ComputeMode|
                rank(o) < rank(m) ==> #[trigger] providers.at(o) is None),
            None => forall|o: ComputeMode| #[trigger] providers.at(o) is None,
        },
{
    reveal_with_fuel(first_registered, 5);
    assert forall|o: ComputeMode| preference_order()[#[trigger] rank(o)] == o by {
        law_modes_are_preferred_by_rank(o);
    }
    assert(forall|o: ComputeMode| #[trigger] providers.at(o) is Some ==> 0 <= rank(o) < 4);
}

} // verus!
