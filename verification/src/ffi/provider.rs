//! The provider that stands in until a model is set up.

use crate::contracts::compute::{
    CanHandleResult, ChunkView, FinishReason, InferenceChunk, InferenceRequest,
};
use crate::contracts::types::{
    CapabilitySet, ComputeMode, LimitationLabel, LimitationView, ModelDescriptor,
    ModelDescriptorView, ModelSource, ModelSourceView, PerfProfile,
};
use crate::model::views;
use vstd::prelude::*;

verus! {

/// What is said where no model is set up.
pub const NO_MODEL_TEXT: &'static str = "No model is loaded yet. Open the Models tab to download and run a local model, or add a hosted API key in Settings.";

/// The provider that stands in until a model is set up.
pub struct PlaceholderProvider;

impl PlaceholderProvider {
    /// The description of no model.
    pub fn descriptor(&self) -> (r: ModelDescriptor)
        ensures
            r@ == (ModelDescriptorView {
                id: "none"@,
                display_name: "No model"@,
                context_window: 0,
                capabilities: CapabilitySet::none_spec(),
                limitations: Seq::empty(),
                size_bytes: None,
                quantization: None,
                source: ModelSourceView::OnDevice,
                perf_profile: PerfProfile { ttft_ms: 0, milli_tok_per_sec: 0 },
            }),
    {
        let limitations: Vec<LimitationLabel> = Vec::new();
        assert(views(limitations@) =~= Seq::<LimitationView>::empty());
        ModelDescriptor {
            id: "none".to_owned(),
            display_name: "No model".to_owned(),
            context_window: 0,
            capabilities: CapabilitySet::none(),
            limitations,
            size_bytes: None,
            quantization: None,
            source: ModelSource::OnDevice,
            perf_profile: PerfProfile::default(),
        }
    }

    /// The provider takes every request.
    pub fn can_handle(&self, _req: &InferenceRequest) -> (r: CanHandleResult)
        ensures
            r == CanHandleResult::yes(),
    {
        CanHandleResult::capable()
    }

    /// The chunks that answer every request: how to set up a model, and the end.
    pub fn generate(&self) -> (r: Vec<InferenceChunk>)
        ensures
            views(r@) == seq![
                ChunkView::text(NO_MODEL_TEXT@, ComputeMode::MacLan),
                ChunkView::finish(FinishReason::Stop, ComputeMode::MacLan),
            ],
    {
        let r = vec![
            InferenceChunk::text(NO_MODEL_TEXT, ComputeMode::MacLan),
            InferenceChunk::finish(FinishReason::Stop, ComputeMode::MacLan),
        ];
        assert(views(r@) =~= seq![
            ChunkView::text(NO_MODEL_TEXT@, ComputeMode::MacLan),
            ChunkView::finish(FinishReason::Stop, ComputeMode::MacLan),
        ]);
        r
    }
}

} // verus!
