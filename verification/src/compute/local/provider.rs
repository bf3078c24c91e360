//! The provider that talks to a managed local server.

use crate::compute::hosted::openai::{
    without_trailing_slashes, OpenAiCompatProvider, ProviderView,
};
use crate::compute::local::catalog::{catalog_descriptor, descriptor_spec, CatalogEntry};
use crate::contracts::compute::{CanHandleResult, InferenceRequest};
use crate::contracts::types::{ComputeMode, ModelDescriptor, ModelDescriptorView};
use vstd::prelude::*;

verus! {

/// A provider for a local server over loopback.
pub struct LocalLlamaProvider {
    inner: OpenAiCompatProvider,
    descriptor: ModelDescriptor,
}

impl LocalLlamaProvider {
    /// The provider that does the talking.
    pub closed spec fn inner_view(&self) -> ProviderView {
        self.inner@
    }

    /// The model that the server serves.
    pub closed spec fn model_view(&self) -> ModelDescriptorView {
        self.descriptor@
    }

    /// A provider for a running server that serves a catalog entry.
    pub fn new(base_url: &str, entry: &CatalogEntry) -> (r: LocalLlamaProvider)
        ensures
            r.model_view() == descriptor_spec(entry@),
            r.inner_view() == (ProviderView {
                base_url: base_url@,
                api_key: ""@,
                model: entry@.id,
                mode: ComputeMode::OnDevice,
            }),
    {
        let descriptor = catalog_descriptor(entry);
        LocalLlamaProvider::with_descriptor(base_url, entry.id.as_str(), descriptor)
    }

    /// A provider for an arbitrary model with the given description.
    pub fn with_descriptor(base_url: &str, model_id: &str, descriptor: ModelDescriptor) -> (r:
        LocalLlamaProvider)
        ensures
            r.model_view() == descriptor@,
            r.inner_view() == (ProviderView {
                base_url: base_url@,
                api_key: ""@,
                model: model_id@,
                mode: ComputeMode::OnDevice,
            }),
    {
        let inner = OpenAiCompatProvider::new(base_url, "", model_id).with_mode(
            ComputeMode::OnDevice,
        );
        LocalLlamaProvider { inner, descriptor }
    }

    /// The endpoint this provider talks to.
    pub fn endpoint(&self) -> (r: String)
        ensures
            r@ == without_trailing_slashes(self.inner_view().base_url) + "/v1/chat/completions"@,
    {
        self.inner.chat_completions_url()
    }

    /// The provider that does the talking.
    pub fn inner(&self) -> (r: &OpenAiCompatProvider)
        ensures
            r@ == self.inner_view(),
    {
        &self.inner
    }

    /// Static description of the model.
    pub fn descriptor(&self) -> (r: &ModelDescriptor)
        ensures
            r@ == self.model_view(),
    {
        &self.descriptor
    }

    /// Whether the model can serve a request. Where it cannot, a hosted model may.
    pub fn can_handle(&self, req: &InferenceRequest) -> (r: CanHandleResult)
        ensures
            r == CanHandleResult::against_spec(
                req.required_caps,
                self.model_view().capabilities,
                Some(ComputeMode::Hosted),
            ),
    {
        CanHandleResult::against(
            &req.required_caps,
            &self.descriptor.capabilities,
            Some(ComputeMode::Hosted),
        )
    }
}

} // verus!
