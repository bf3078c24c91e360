//! Curated catalog of local models as single-file downloads.
//!
//! Every entry is a direct Hugging Face `resolve/main` URL. Sizes are advisory:
//! what the server reports at download time counts.

use crate::contracts::types::{
    CapabilitySet, LimitationLabel, LimitationView, ModelDescriptor, ModelDescriptorView,
    ModelSource, ModelSourceView, PerfProfile,
};
use crate::model::{opt, views};
use crate::text::str_eq;
use vstd::prelude::*;

verus! {

/// One downloadable model in the curated local catalog.
#[derive(Debug)]
pub struct CatalogEntry {
    /// Stable identifier; the model is stored as `<id>.gguf`.
    pub id: String,
    pub display_name: String,
    /// Model family.
    pub family: String,
    /// Published download size in bytes.
    pub size_bytes: u64,
    /// Quantization label.
    pub quantization: String,
    /// Context window in tokens.
    pub context_window: u32,
    /// Whether the model reliably emits tool calls.
    pub tool_calling: bool,
    /// Direct single-file download URL.
    pub download_url: String,
    /// The file name component of the URL.
    pub file_name: String,
    pub description: String,
}

/// [`CatalogEntry`] as a mathematical value.
pub struct EntryView {
    pub id: Seq<char>,
    pub display_name: Seq<char>,
    pub family: Seq<char>,
    pub size_bytes: u64,
    pub quantization: Seq<char>,
    pub context_window: u32,
    pub tool_calling: bool,
    pub download_url: Seq<char>,
    pub file_name: Seq<char>,
    pub description: Seq<char>,
}

impl View for CatalogEntry {
    type V = EntryView;

    open spec fn view(&self) -> EntryView {
        EntryView {
            id: self.id@,
            display_name: self.display_name@,
            family: self.family@,
            size_bytes: self.size_bytes,
            quantization: self.quantization@,
            context_window: self.context_window,
            tool_calling: self.tool_calling,
            download_url: self.download_url@,
            file_name: self.file_name@,
            description: self.description@,
        }
    }
}

impl Clone for CatalogEntry {
    fn clone(&self) -> (r: Self)
        ensures
            r@ == self@,
    {
        CatalogEntry {
            id: self.id.clone(),
            display_name: self.display_name.clone(),
            family: self.family.clone(),
            size_bytes: self.size_bytes,
            quantization: self.quantization.clone(),
            context_window: self.context_window,
            tool_calling: self.tool_calling,
            download_url: self.download_url.clone(),
            file_name: self.file_name.clone(),
            description: self.description.clone(),
        }
    }
}

/// The `resolve/main` URL of a file in a repository.
pub open spec fn hf_url_spec(repo: Seq<char>, file: Seq<char>) -> Seq<char> {
    "https://huggingface.co/"@ + repo + "/resolve/main/"@ + file
}

/// The `resolve/main` URL of a file in a repository.
pub fn hf_url(repo: &str, file: &str) -> (r: String)
    ensures
        r@ == hf_url_spec(repo@, file@),
{
    let mut s = "https://huggingface.co/".to_owned();
    s.append(repo);
    s.append("/resolve/main/");
    s.append(file);
    s
}

/// A catalog entry from its parts.
pub open spec fn entry_spec(
    id: Seq<char>,
    display_name: Seq<char>,
    family: Seq<char>,
    size_bytes: u64,
    context_window: u32,
    tool_calling: bool,
    repo: Seq<char>,
    file_name: Seq<char>,
    description: Seq<char>,
) -> EntryView {
    EntryView {
        id,
        display_name,
        family,
        size_bytes,
        quantization: "Q4_K_M"@,
        context_window,
        tool_calling,
        download_url: hf_url_spec(repo, file_name),
        file_name,
        description,
    }
}

/// A catalog entry from its parts.
pub fn entry(
    id: &str,
    display_name: &str,
    family: &str,
    size_bytes: u64,
    context_window: u32,
    tool_calling: bool,
    repo: &str,
    file_name: &str,
    description: &str,
) -> (r: CatalogEntry)
    ensures
        r@ == entry_spec(
            id@,
            display_name@,
            family@,
            size_bytes,
            context_window,
            tool_calling,
            repo@,
            file_name@,
            description@,
        ),
{
    CatalogEntry {
        id: id.to_owned(),
        display_name: display_name.to_owned(),
        family: family.to_owned(),
        size_bytes,
        quantization: "Q4_K_M".to_owned(),
        context_window,
        tool_calling,
        download_url: hf_url(repo, file_name),
        file_name: file_name.to_owned(),
        description: description.to_owned(),
    }
}

/// The curated list of local models.
pub open spec fn catalog_spec() -> Seq<EntryView> {
    seq![
        entry_spec(
            "qwen2.5-0.5b-instruct"@,
            "Qwen2.5 0.5B Instruct"@,
            "qwen2.5"@,
            398_000_000,
            32_768,
            true,
            "Qwen/Qwen2.5-0.5B-Instruct-GGUF"@,
            "qwen2.5-0.5b-instruct-q4_k_m.gguf"@,
            "Tiny and fast; instant responses on any Apple Silicon Mac. Good for quick drafts and testing, limited reasoning depth."@,
        ),
        entry_spec(
            "llama-3.2-1b-instruct"@,
            "Llama 3.2 1B Instruct"@,
            "llama-3.2"@,
            808_000_000,
            131_072,
            true,
            "bartowski/Llama-3.2-1B-Instruct-GGUF"@,
            "Llama-3.2-1B-Instruct-Q4_K_M.gguf"@,
            "Meta's smallest Llama 3.2; very fast with a long context. Good for summarization and chat on modest hardware."@,
        ),
        entry_spec(
            "llama-3.2-3b-instruct"@,
            "Llama 3.2 3B Instruct"@,
            "llama-3.2"@,
            2_020_000_000,
            131_072,
            true,
            "bartowski/Llama-3.2-3B-Instruct-GGUF"@,
            "Llama-3.2-3B-Instruct-Q4_K_M.gguf"@,
            "Strong small model: a good speed/quality default for 8 GB Macs, with solid instruction following and tool use."@,
        ),
        entry_spec(
            "llama-3.1-8b-instruct"@,
            "Llama 3.1 8B Instruct"@,
            "llama-3.1"@,
            4_920_000_000,
            131_072,
            true,
            "bartowski/Meta-Llama-3.1-8B-Instruct-GGUF"@,
            "Meta-Llama-3.1-8B-Instruct-Q4_K_M.gguf"@,
            "The workhorse 8B: strong general assistant with reliable tool calling and a 128K context. Wants 16 GB of unified memory."@,
        ),
        entry_spec(
            "qwen2.5-7b-instruct"@,
            "Qwen2.5 7B Instruct"@,
            "qwen2.5"@,
            4_680_000_000,
            32_768,
            true,
            "bartowski/Qwen2.5-7B-Instruct-GGUF"@,
            "Qwen2.5-7B-Instruct-Q4_K_M.gguf"@,
            "Excellent all-round 7B; top-tier instruction following, math, and multilingual chat for its size."@,
        ),
        entry_spec(
            "qwen2.5-coder-7b-instruct"@,
            "Qwen2.5 Coder 7B Instruct"@,
            "qwen2.5-coder"@,
            4_680_000_000,
            32_768,
            true,
            "bartowski/Qwen2.5-Coder-7B-Instruct-GGUF"@,
            "Qwen2.5-Coder-7B-Instruct-Q4_K_M.gguf"@,
            "Code-specialized Qwen2.5: the best local coding model at this size. Great for code generation, repair, and explanation."@,
        ),
        entry_spec(
            "mistral-7b-instruct-v0.3"@,
            "Mistral 7B Instruct v0.3"@,
            "mistral"@,
            4_370_000_000,
            32_768,
            true,
            "bartowski/Mistral-7B-Instruct-v0.3-GGUF"@,
            "Mistral-7B-Instruct-v0.3-Q4_K_M.gguf"@,
            "Classic fast 7B with native function-calling support and a concise, direct style."@,
        ),
        entry_spec(
            "phi-3.5-mini-instruct"@,
            "Phi-3.5 Mini Instruct"@,
            "phi-3.5"@,
            2_390_000_000,
            131_072,
            false,
            "bartowski/Phi-3.5-mini-instruct-GGUF"@,
            "Phi-3.5-mini-instruct-Q4_K_M.gguf"@,
            "Microsoft's 3.8B reasoning-dense small model with a 128K context. Strong for its size; no reliable tool calling."@,
        ),
        entry_spec(
            "gemma-2-9b-it"@,
            "Gemma 2 9B IT"@,
            "gemma-2"@,
            5_760_000_000,
            8_192,
            false,
            "bartowski/gemma-2-9b-it-GGUF"@,
            "gemma-2-9b-it-Q4_K_M.gguf"@,
            "Google's Gemma 2 9B: great prose and chat quality. Short 8K context and no tool calling."@,
        ),
    ]
}

/// The curated list of local models the app offers for download.
pub fn model_catalog() -> (r: Vec<CatalogEntry>)
    ensures
        views(r@) == catalog_spec(),
{
    let r = vec![
        entry(
            "qwen2.5-0.5b-instruct",
            "Qwen2.5 0.5B Instruct",
            "qwen2.5",
            398_000_000,
            32_768,
            true,
            "Qwen/Qwen2.5-0.5B-Instruct-GGUF",
            "qwen2.5-0.5b-instruct-q4_k_m.gguf",
            "Tiny and fast; instant responses on any Apple Silicon Mac. Good for quick drafts and testing, limited reasoning depth.",
        ),
        entry(
            "llama-3.2-1b-instruct",
            "Llama 3.2 1B Instruct",
            "llama-3.2",
            808_000_000,
            131_072,
            true,
            "bartowski/Llama-3.2-1B-Instruct-GGUF",
            "Llama-3.2-1B-Instruct-Q4_K_M.gguf",
            "Meta's smallest Llama 3.2; very fast with a long context. Good for summarization and chat on modest hardware.",
        ),
        entry(
            "llama-3.2-3b-instruct",
            "Llama 3.2 3B Instruct",
            "llama-3.2",
            2_020_000_000,
            131_072,
            true,
            "bartowski/Llama-3.2-3B-Instruct-GGUF",
            "Llama-3.2-3B-Instruct-Q4_K_M.gguf",
            "Strong small model: a good speed/quality default for 8 GB Macs, with solid instruction following and tool use.",
        ),
        entry(
            "llama-3.1-8b-instruct",
            "Llama 3.1 8B Instruct",
            "llama-3.1",
            4_920_000_000,
            131_072,
            true,
            "bartowski/Meta-Llama-3.1-8B-Instruct-GGUF",
            "Meta-Llama-3.1-8B-Instruct-Q4_K_M.gguf",
            "The workhorse 8B: strong general assistant with reliable tool calling and a 128K context. Wants 16 GB of unified memory.",
        ),
        entry(
            "qwen2.5-7b-instruct",
            "Qwen2.5 7B Instruct",
            "qwen2.5",
            4_680_000_000,
            32_768,
            true,
            "bartowski/Qwen2.5-7B-Instruct-GGUF",
            "Qwen2.5-7B-Instruct-Q4_K_M.gguf",
            "Excellent all-round 7B; top-tier instruction following, math, and multilingual chat for its size.",
        ),
        entry(
            "qwen2.5-coder-7b-instruct",
            "Qwen2.5 Coder 7B Instruct",
            "qwen2.5-coder",
            4_680_000_000,
            32_768,
            true,
            "bartowski/Qwen2.5-Coder-7B-Instruct-GGUF",
            "Qwen2.5-Coder-7B-Instruct-Q4_K_M.gguf",
            "Code-specialized Qwen2.5: the best local coding model at this size. Great for code generation, repair, and explanation.",
        ),
        entry(
            "mistral-7b-instruct-v0.3",
            "Mistral 7B Instruct v0.3",
            "mistral",
            4_370_000_000,
            32_768,
            true,
            "bartowski/Mistral-7B-Instruct-v0.3-GGUF",
            "Mistral-7B-Instruct-v0.3-Q4_K_M.gguf",
            "Classic fast 7B with native function-calling support and a concise, direct style.",
        ),
        entry(
            "phi-3.5-mini-instruct",
            "Phi-3.5 Mini Instruct",
            "phi-3.5",
            2_390_000_000,
            131_072,
            false,
            "bartowski/Phi-3.5-mini-instruct-GGUF",
            "Phi-3.5-mini-instruct-Q4_K_M.gguf",
            "Microsoft's 3.8B reasoning-dense small model with a 128K context. Strong for its size; no reliable tool calling.",
        ),
        entry(
            "gemma-2-9b-it",
            "Gemma 2 9B IT",
            "gemma-2",
            5_760_000_000,
            8_192,
            false,
            "bartowski/gemma-2-9b-it-GGUF",
            "gemma-2-9b-it-Q4_K_M.gguf",
            "Google's Gemma 2 9B: great prose and chat quality. Short 8K context and no tool calling.",
        ),
    ];
    assert(views(r@) =~= catalog_spec());
    r
}

/// The first entry with the given identifier, at or after `from`.
pub open spec fn entry_position(s: Seq<EntryView>, id: Seq<char>, from: int) -> Option<int>
    decreases s.len() - from,
{
    if from >= s.len() {
        None
    } else if s[from].id == id {
        Some(from)
    } else {
        entry_position(s, id, from + 1)
    }
}

/// The first entry with the given identifier.
pub open spec fn entry_in(s: Seq<EntryView>, id: Seq<char>) -> Option<EntryView> {
    match entry_position(s, id, 0) {
        Some(i) => Some(s[i]),
        None => None,
    }
}

/// The first entry with the given identifier.
pub fn find_in(entries: &Vec<CatalogEntry>, id: &str) -> (r: Option<CatalogEntry>)
    ensures
        opt(r) == entry_in(views(entries@), id@),
{
    let mut i: usize = 0;
    while i < entries.len()
        invariant
            i <= entries.len(),
            entry_position(views(entries@), id@, 0) == entry_position(
                views(entries@),
                id@,
                i as int,
            ),
        decreases entries.len() - i,
    {
        if str_eq(entries[i].id.as_str(), id) {
            return Some(entries[i].clone());
        }
        i += 1;
    }
    None
}

/// The catalog entry with the given identifier.
pub fn find_entry(id: &str) -> (r: Option<CatalogEntry>)
    ensures
        opt(r) == entry_in(catalog_spec(), id@),
{
    let catalog = model_catalog();
    find_in(&catalog, id)
}

/// What a catalog entry offers.
pub open spec fn entry_capabilities(e: EntryView) -> CapabilitySet {
    CapabilitySet {
        vision: false,
        tool_calling: e.tool_calling,
        min_context_window: e.context_window,
        code_gen: true,
        thinking: false,
    }
}

/// The labels of a catalog entry.
pub open spec fn entry_limitations(e: EntryView) -> Seq<LimitationView> {
    let base = seq![LimitationView::MaxContextWindow(e.context_window)];
    if e.tool_calling {
        base
    } else {
        base.push(LimitationView::Custom("No tool calling"@))
    }
}

/// The description of a catalog entry as a model.
pub open spec fn descriptor_spec(e: EntryView) -> ModelDescriptorView {
    ModelDescriptorView {
        id: e.id,
        display_name: e.display_name,
        context_window: e.context_window,
        capabilities: entry_capabilities(e),
        limitations: entry_limitations(e),
        size_bytes: Some(e.size_bytes),
        quantization: Some(e.quantization),
        source: ModelSourceView::OnDevice,
        perf_profile: PerfProfile { ttft_ms: 0, milli_tok_per_sec: 0 },
    }
}

/// The description of a catalog entry as a model.
pub fn catalog_descriptor(entry: &CatalogEntry) -> (r: ModelDescriptor)
    ensures
        r@ == descriptor_spec(entry@),
{
    let mut limitations: Vec<LimitationLabel> = Vec::new();
    limitations.push(LimitationLabel::MaxContextWindow(entry.context_window));
    if !entry.tool_calling {
        limitations.push(LimitationLabel::Custom("No tool calling".to_owned()));
    }
    assert(views(limitations@) =~= entry_limitations(entry@));
    ModelDescriptor {
        id: entry.id.clone(),
        display_name: entry.display_name.clone(),
        context_window: entry.context_window,
        capabilities: CapabilitySet {
            vision: false,
            tool_calling: entry.tool_calling,
            min_context_window: entry.context_window,
            code_gen: true,
            thinking: false,
        },
        limitations,
        size_bytes: Some(entry.size_bytes),
        quantization: Some(entry.quantization.clone()),
        source: ModelSource::OnDevice,
        perf_profile: PerfProfile::default(),
    }
}

/// No two entries of the catalog share an identifier.
pub proof fn law_catalog_ids_are_unique(i: int, j: int)
    requires
        0 <= i < j < catalog_spec().len(),
    ensures
        catalog_spec()[i].id != catalog_spec()[j].id,
{
    reveal_strlit("qwen2.5-0.5b-instruct");
    assert("qwen2.5-0.5b-instruct"@.len() == 21);
    reveal_strlit("llama-3.2-1b-instruct");
    assert("llama-3.2-1b-instruct"@.len() == 21);
    reveal_strlit("llama-3.2-3b-instruct");
    assert("llama-3.2-3b-instruct"@.len() == 21);
    reveal_strlit("llama-3.1-8b-instruct");
    assert("llama-3.1-8b-instruct"@.len() == 21);
    reveal_strlit("qwen2.5-7b-instruct");
    assert("qwen2.5-7b-instruct"@.len() == 19);
    reveal_strlit("qwen2.5-coder-7b-instruct");
    assert("qwen2.5-coder-7b-instruct"@.len() == 25);
    reveal_strlit("mistral-7b-instruct-v0.3");
    assert("mistral-7b-instruct-v0.3"@.len() == 24);
    reveal_strlit("phi-3.5-mini-instruct");
    assert("phi-3.5-mini-instruct"@.len() == 21);
    reveal_strlit("gemma-2-9b-it");
    assert("gemma-2-9b-it"@.len() == 13);
    assert("qwen2.5-0.5b-instruct"@[0] != "llama-3.2-1b-instruct"@[0]);
    assert("qwen2.5-0.5b-instruct"@[0] != "llama-3.2-3b-instruct"@[0]);
    assert("qwen2.5-0.5b-instruct"@[0] != "llama-3.1-8b-instruct"@[0]);
    assert("qwen2.5-0.5b-instruct"@[0] != "phi-3.5-mini-instruct"@[0]);
    assert("llama-3.2-1b-instruct"@[10] != "llama-3.2-3b-instruct"@[10]);
    assert("llama-3.2-1b-instruct"@[8] != "llama-3.1-8b-instruct"@[8]);
    assert("llama-3.2-1b-instruct"@[0] != "phi-3.5-mini-instruct"@[0]);
    assert("llama-3.2-3b-instruct"@[8] != "llama-3.1-8b-instruct"@[8]);
    assert("llama-3.2-3b-instruct"@[0] != "phi-3.5-mini-instruct"@[0]);
    assert("llama-3.1-8b-instruct"@[0] != "phi-3.5-mini-instruct"@[0]);
}

/// Looking up the identifier of an entry finds that entry.
pub proof fn law_catalog_lookup_finds_each(i: int)
    requires
        0 <= i < catalog_spec().len(),
    ensures
        entry_in(catalog_spec(), catalog_spec()[i].id) == Some(catalog_spec()[i]),
{
    lemma_lookup(i, 0);
}

proof fn lemma_lookup(i: int, from: int)
    requires
        0 <= from <= i < catalog_spec().len(),
    ensures
        entry_position(catalog_spec(), catalog_spec()[i].id, from) == Some(i),
    decreases i - from,
{
    if from < i {
        law_catalog_ids_are_unique(from, i);
        lemma_lookup(i, from + 1);
    }
}

/// What a model offers as its context is what it can serve: a request for more
/// is not satisfied.
pub proof fn law_context_is_the_limit(e: EntryView, required: CapabilitySet)
    requires
        required.min_context_window > e.context_window,
    ensures
        !required.satisfied_spec(descriptor_spec(e).capabilities),
{
}

/// A model is described as what it is: under its identifier and its name, with the window
/// that it has, and with tool calling just where it has that; where it has not, it says so.
pub proof fn law_description_says_what_the_model_can(e: EntryView)
    ensures
        ({
            let d = descriptor_spec(e);
            &&& d.id == e.id && d.display_name == e.display_name
            &&& d.context_window == e.context_window && d.capabilities.min_context_window
                == e.context_window
            &&& d.capabilities.tool_calling == e.tool_calling
            &&& d.size_bytes == Some(e.size_bytes) && d.quantization == Some(e.quantization)
            &&& d.limitations.contains(LimitationView::MaxContextWindow(e.context_window))
            &&& !e.tool_calling <==> d.limitations.contains(
                LimitationView::Custom("No tool calling"@),
            )
            &&& !d.capabilities.vision && !d.capabilities.thinking && d.capabilities.code_gen
        }),
{
    let l = descriptor_spec(e).limitations;
    assert(l[0] == LimitationView::MaxContextWindow(e.context_window));
    if !e.tool_calling {
        assert(l[1] == LimitationView::Custom("No tool calling"@));
    }
}

} // verus!
