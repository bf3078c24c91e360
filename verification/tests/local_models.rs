//! The catalog, downloads, the models directory and the local runtime.

use mahi::compute::local::catalog::{catalog_descriptor, find_entry, model_catalog};
use mahi::compute::local::download::{
    content_range_total, part_path, range_header, DownloadState, DownloadStatus, Response,
    Transfer, TransferAction, TransferInput,
};
use mahi::compute::local::error::LocalError;
use mahi::compute::local::manager::{DirItem, ModelManager};
use mahi::compute::local::provider::LocalLlamaProvider;
use mahi::compute::local::runtime::{
    asset_url, health_url, health_verdict, keep_runtime_file, llama_asset_arch, server_args,
    FileSearch, Found, LlamaRuntime, RunningServer, RuntimeStatus, LLAMA_CPP_TAG,
};
use mahi::contracts::compute::InferenceRequest;
use mahi::contracts::types::{CapabilitySet, ComputeMode, LimitationLabel, ModelSource};
use std::collections::HashSet;

#[test]
fn catalog_ids_are_unique() {
    let catalog = model_catalog();
    let ids: HashSet<_> = catalog.iter().map(|e| e.id.as_str()).collect();
    assert_eq!(ids.len(), catalog.len(), "duplicate catalog ids");
}

#[test]
fn catalog_contains_required_models() {
    let catalog = model_catalog();
    for id in [
        "qwen2.5-0.5b-instruct",
        "llama-3.2-1b-instruct",
        "llama-3.2-3b-instruct",
        "llama-3.1-8b-instruct",
        "qwen2.5-7b-instruct",
        "qwen2.5-coder-7b-instruct",
        "mistral-7b-instruct-v0.3",
        "phi-3.5-mini-instruct",
        "gemma-2-9b-it",
    ] {
        assert!(catalog.iter().any(|e| e.id == id), "missing required model {id}");
    }
}

#[test]
fn catalog_entries_are_well_formed() {
    for e in model_catalog() {
        assert!(!e.id.is_empty());
        assert!(!e.display_name.is_empty());
        assert!(!e.family.is_empty());
        assert!(!e.description.is_empty());
        assert!(e.size_bytes > 0, "{}: size must be > 0", e.id);
        assert!(e.context_window >= 4096, "{}: implausible context", e.id);
        assert_eq!(e.quantization, "Q4_K_M");
        assert!(
            e.download_url.starts_with("https://huggingface.co/"),
            "{}: not an HF URL: {}",
            e.id,
            e.download_url
        );
        assert!(e.download_url.contains("/resolve/main/"), "{}: not a resolve/main URL", e.id);
        assert!(e.download_url.ends_with(&e.file_name), "{}: url/file_name mismatch", e.id);
        assert!(
            e.file_name.to_ascii_lowercase().ends_with(".gguf"),
            "{}: not a .gguf file",
            e.id
        );
        assert!(!e.file_name.contains("-of-"), "{}: split GGUF not allowed", e.id);
        assert!(!e.id.contains('/') && !e.id.contains('\\'));
    }
}

#[test]
fn tool_calling_flags_match_model_families() {
    for e in model_catalog() {
        let expected = match e.family.as_str() {
            "qwen2.5" | "qwen2.5-coder" | "llama-3.2" | "llama-3.1" | "mistral" => true,
            "phi-3.5" | "gemma-2" => false,
            other => panic!("unexpected family {other}"),
        };
        assert_eq!(e.tool_calling, expected, "{}", e.id);
    }
}

#[test]
fn find_entry_matches_catalog() {
    let entry = find_entry("qwen2.5-0.5b-instruct").expect("known id");
    assert_eq!(entry.display_name, "Qwen2.5 0.5B Instruct");
    assert!(find_entry("not-a-model").is_none());
}

#[test]
fn descriptor_mapping_is_faithful() {
    let entry = find_entry("llama-3.1-8b-instruct").unwrap();
    let desc = catalog_descriptor(&entry);
    assert_eq!(desc.id, entry.id);
    assert_eq!(desc.display_name, entry.display_name);
    assert_eq!(desc.context_window, entry.context_window);
    assert!(desc.capabilities.tool_calling);
    assert!(!desc.capabilities.vision);
    assert_eq!(desc.capabilities.min_context_window, entry.context_window);
    assert_eq!(desc.size_bytes, Some(entry.size_bytes));
    assert_eq!(desc.quantization.as_deref(), Some("Q4_K_M"));
    assert!(matches!(desc.source, ModelSource::OnDevice));
    assert!(desc
        .limitations
        .iter()
        .any(|l| matches!(l, LimitationLabel::MaxContextWindow(n) if *n == entry.context_window)));
}

#[test]
fn descriptor_flags_missing_tool_calling() {
    let entry = find_entry("gemma-2-9b-it").unwrap();
    let desc = catalog_descriptor(&entry);
    assert!(!desc.capabilities.tool_calling);
    assert!(desc
        .limitations
        .iter()
        .any(|l| matches!(l, LimitationLabel::Custom(msg) if msg.contains("tool"))));
}

#[test]
fn part_path_appends_suffix() {
    assert_eq!(
        part_path("/models/llama-3.2-1b-instruct.gguf"),
        "/models/llama-3.2-1b-instruct.gguf.part"
    );
}

#[test]
fn content_range_total_parses() {
    assert_eq!(content_range_total(&Some("bytes 1000-65535/65536".to_string())), Some(65536));
    assert_eq!(content_range_total(&None), None);
    assert_eq!(content_range_total(&Some("garbage".to_string())), None);
    assert_eq!(range_header(1000), "bytes=1000-");
}

fn fraction(state: &DownloadState) -> f32 {
    if state.total_bytes() == 0 {
        0.0
    } else {
        state.bytes_downloaded() as f32 / state.total_bytes() as f32
    }
}

#[test]
fn download_state_machine_transitions() {
    let mut state = DownloadState::default();
    assert!(matches!(state.status(), DownloadStatus::Idle));
    assert_eq!(state.bytes_downloaded(), 0);
    assert_eq!(fraction(&state), 0.0);
    assert!(!state.is_cancelled());

    state.set_status(DownloadStatus::Downloading);
    state.set_total(100);
    state.add_downloaded(25);
    state.add_downloaded(25);
    assert!(matches!(state.status(), DownloadStatus::Downloading));
    assert_eq!(state.bytes_downloaded(), 50);
    assert_eq!(state.total_bytes(), 100);
    assert!((fraction(&state) - 0.5).abs() < f32::EPSILON);

    state.set_status(DownloadStatus::Completed);
    assert!(matches!(state.status(), DownloadStatus::Completed));

    state.set_status(DownloadStatus::Failed("boom".into()));
    assert!(matches!(state.status(), DownloadStatus::Failed(m) if m == "boom"));

    state.cancel();
    assert!(state.is_cancelled());
}

#[test]
fn model_path_is_id_dot_gguf() {
    let mgr = ModelManager::new("/models");
    assert_eq!(mgr.model_path("qwen2.5-0.5b-instruct"), "/models/qwen2.5-0.5b-instruct.gguf");
    // Dotted ids keep their full stem.
    assert_eq!(
        mgr.model_path("mistral-7b-instruct-v0.3"),
        "/models/mistral-7b-instruct-v0.3.gguf"
    );
}

fn file(name: &str, len: u64) -> DirItem {
    DirItem { name: name.to_string(), file_len: Some(len) }
}

#[test]
fn installed_scans_and_matches_catalog() {
    let mgr = ModelManager::new("/models");
    let items = vec![
        file("qwen2.5-0.5b-instruct.gguf", 9),
        file("my-custom-model.gguf", 6),
        file("incomplete.gguf.part", 7),
        file("notes.txt", 9),
        DirItem { name: "folder.gguf".to_string(), file_len: None },
    ];
    let installed = mgr.installed(&items);
    assert_eq!(installed.len(), 2);
    assert_eq!(installed[0].id, "my-custom-model", "by identifier");

    let qwen = installed.iter().find(|m| m.id == "qwen2.5-0.5b-instruct").expect("found");
    assert!(qwen.catalog_entry.is_some());
    assert_eq!(qwen.size_bytes, 9);
    assert_eq!(qwen.path, "/models/qwen2.5-0.5b-instruct.gguf");
    let custom = installed.iter().find(|m| m.id == "my-custom-model").expect("found");
    assert!(custom.catalog_entry.is_none());
}

#[test]
fn installed_on_missing_dir_is_empty() {
    let mgr = ModelManager::new("/definitely/not/a/real/dir/mahi");
    assert!(mgr.installed(&Vec::new()).is_empty());
}

/// A file server with one blob, and a disk with a target and a partial file.
struct Disk {
    blob: Vec<u8>,
    part: Option<Vec<u8>>,
    target: Option<Vec<u8>>,
    status: Option<u16>,
}

fn blob(len: usize) -> Vec<u8> {
    (0..len).map(|i| (i % 251) as u8).collect()
}

/// Drives a transfer as a client would; pieces have four kilobytes.
fn drive(disk: &mut Disk, state: &mut DownloadState) -> Result<(), LocalError> {
    let mut transfer = Transfer::new("http://host/model.gguf");
    let mut input = TransferInput::Target { len: disk.target.as_ref().map(|t| t.len() as u64) };
    let mut body: Vec<u8> = Vec::new();
    let mut piece: Vec<u8> = Vec::new();
    loop {
        input = match transfer.step(state, input) {
            TransferAction::EnsureDir => TransferInput::Files { result: Ok(()) },
            TransferAction::ProbePart => TransferInput::PartLength {
                len: disk.part.as_ref().map_or(0, |p| p.len() as u64),
            },
            TransferAction::RemovePart => {
                disk.part = None;
                TransferInput::Files { result: Ok(()) }
            }
            TransferAction::Send { range_from } => {
                let from = range_from.unwrap_or(0) as usize;
                let total = disk.blob.len();
                let answer = if let Some(status) = disk.status {
                    Response {
                        status,
                        status_line: format!("{status} Not Found"),
                        content_range: None,
                        content_length: None,
                    }
                } else if from >= total && range_from.is_some() {
                    Response {
                        status: 416,
                        status_line: "416 Range Not Satisfiable".to_string(),
                        content_range: None,
                        content_length: None,
                    }
                } else {
                    body = disk.blob[from..].to_vec();
                    Response {
                        status: if range_from.is_some() { 206 } else { 200 },
                        status_line: "ok".to_string(),
                        content_range: range_from
                            .map(|f| format!("bytes {f}-{}/{total}", total - 1)),
                        content_length: Some((total - from) as u64),
                    }
                };
                TransferInput::Answered { result: Ok(answer) }
            }
            TransferAction::OpenPart { append } => {
                if !append {
                    disk.part = Some(Vec::new());
                }
                TransferInput::Files { result: Ok(()) }
            }
            TransferAction::NextPiece => {
                let n = body.len().min(4096);
                piece = body.drain(..n).collect();
                TransferInput::Piece { result: Ok(if n == 0 { None } else { Some(n as u64) }) }
            }
            TransferAction::WritePiece => {
                disk.part.as_mut().expect("open").append(&mut piece);
                TransferInput::Files { result: Ok(()) }
            }
            TransferAction::Flush => TransferInput::Files { result: Ok(()) },
            TransferAction::Finalize => {
                disk.target = disk.part.take();
                TransferInput::Files { result: Ok(()) }
            }
            TransferAction::Finish { result } => {
                assert!(transfer.is_over());
                return result;
            }
            TransferAction::Wait => panic!("the machine did not take the input"),
        };
    }
}

#[test]
fn download_streams_part_then_renames() {
    let mut disk = Disk { blob: blob(64 * 1024), part: None, target: None, status: None };
    let mut state = DownloadState::begin(64 * 1024);
    let result = drive(&mut disk, &mut state);
    state.conclude(result);
    assert!(matches!(state.status(), DownloadStatus::Completed));
    assert_eq!(state.bytes_downloaded(), 64 * 1024);
    assert_eq!(state.total_bytes(), 64 * 1024);
    assert!((fraction(&state) - 1.0).abs() < f32::EPSILON);
    assert_eq!(disk.target, Some(blob(64 * 1024)));
    assert!(disk.part.is_none(), ".part must be renamed away");
}

#[test]
fn download_resumes_from_existing_part() {
    let seeded = vec![0xABu8; 1000];
    let mut disk =
        Disk { blob: blob(64 * 1024), part: Some(seeded.clone()), target: None, status: None };
    let mut state = DownloadState::default();
    drive(&mut disk, &mut state).expect("resume succeeds");
    let result = disk.target.unwrap();
    assert_eq!(result.len(), 64 * 1024);
    assert_eq!(&result[..1000], &seeded[..], "seeded prefix kept (append)");
    assert_eq!(&result[1000..], &blob(64 * 1024)[1000..], "remainder fetched via Range");
    assert_eq!(state.total_bytes(), 64 * 1024);
    assert_eq!(state.bytes_downloaded(), 64 * 1024);
}

#[test]
fn download_recovers_from_unsatisfiable_range() {
    let mut disk = Disk {
        blob: blob(8 * 1024),
        part: Some(vec![0u8; 8 * 1024 + 5000]),
        target: None,
        status: None,
    };
    let mut state = DownloadState::default();
    drive(&mut disk, &mut state).expect("recovers via full restart");
    assert_eq!(disk.target, Some(blob(8 * 1024)));
}

#[test]
fn cancelled_download_keeps_part_and_reports_failed() {
    let mut disk = Disk { blob: blob(64 * 1024), part: None, target: None, status: None };
    let mut state = DownloadState::begin(64 * 1024);
    state.cancel();
    let result = drive(&mut disk, &mut state);
    state.conclude(result);
    assert!(matches!(state.status(), DownloadStatus::Failed(m) if m == "download cancelled"));
    assert!(disk.target.is_none(), "no complete file after cancel");
}

#[test]
fn download_of_already_installed_model_completes_instantly() {
    let mut disk = Disk {
        blob: Vec::new(),
        part: None,
        target: Some(b"already here".to_vec()),
        status: Some(500),
    };
    let mut state = DownloadState::begin(12);
    let result = drive(&mut disk, &mut state);
    state.conclude(result);
    assert!(matches!(state.status(), DownloadStatus::Completed));
    assert_eq!(disk.target.as_deref(), Some(&b"already here"[..]));
}

#[test]
fn download_http_error_surfaces_as_failed() {
    let mut disk = Disk { blob: blob(128), part: None, target: None, status: Some(404) };
    let mut state = DownloadState::begin(128);
    let result = drive(&mut disk, &mut state);
    state.conclude(result);
    match state.status() {
        DownloadStatus::Failed(msg) => assert!(msg.contains("404"), "got: {msg}"),
        other => panic!("expected Failed, got {other:?}"),
    }
}

#[test]
fn delete_removes_model_and_part() {
    let mgr = ModelManager::new("/models");
    let (model, part) = mgr.files_of("doomed");
    assert_eq!(model, "/models/doomed.gguf");
    assert_eq!(part, "/models/doomed.gguf.part");
    assert!(mgr.delete("doomed", true, true).is_ok());
    assert!(mgr.delete("doomed", false, true).is_ok());
    match mgr.delete("doomed", false, false) {
        Err(LocalError::ModelNotFound(id)) => assert_eq!(id, "doomed"),
        other => panic!("expected ModelNotFound, got {other:?}"),
    }
}

#[test]
fn descriptor_comes_from_the_catalog_entry() {
    let entry = find_entry("qwen2.5-7b-instruct").unwrap();
    let provider = LocalLlamaProvider::new("http://127.0.0.1:8080", &entry);
    let desc = provider.descriptor();
    assert_eq!(desc.id, "qwen2.5-7b-instruct");
    assert!(matches!(desc.source, ModelSource::OnDevice));
    assert!(desc.capabilities.tool_calling);
    assert_eq!(provider.endpoint(), "http://127.0.0.1:8080/v1/chat/completions");
}

#[test]
fn can_handle_is_capable_for_a_plain_request() {
    let entry = find_entry("llama-3.1-8b-instruct").unwrap();
    let provider = LocalLlamaProvider::new("http://127.0.0.1:1", &entry);
    let req = InferenceRequest::from_messages(vec![]);
    assert!(provider.can_handle(&req).capable);
}

#[test]
fn can_handle_refuses_tool_calling_for_a_non_tool_model() {
    let entry = find_entry("gemma-2-9b-it").unwrap();
    let provider = LocalLlamaProvider::new("http://127.0.0.1:1", &entry);
    let mut req = InferenceRequest::from_messages(vec![]);
    req.required_caps = CapabilitySet { tool_calling: true, ..CapabilitySet::none() };
    let result = provider.can_handle(&req);
    assert!(!result.capable);
    assert!(result.missing_caps.tool_calling);
    assert_eq!(result.escalation_hint, Some(ComputeMode::Hosted));
}

#[test]
fn can_handle_refuses_context_beyond_the_model() {
    let entry = find_entry("gemma-2-9b-it").unwrap(); // 8192 ctx
    let provider = LocalLlamaProvider::new("http://127.0.0.1:1", &entry);
    let mut req = InferenceRequest::from_messages(vec![]);
    req.required_caps = CapabilitySet { min_context_window: 131_072, ..CapabilitySet::none() };
    assert!(!provider.can_handle(&req).capable);
}

#[test]
fn pinned_tag_and_asset_urls_are_well_formed() {
    assert_eq!(LLAMA_CPP_TAG, "b6000");
    let arm = asset_url("arm64");
    let x64 = asset_url("x64");
    assert_eq!(
        arm,
        "https://github.com/ggml-org/llama.cpp/releases/download/b6000/llama-b6000-bin-macos-arm64.zip"
    );
    assert!(x64.ends_with("llama-b6000-bin-macos-x64.zip"));
}

#[test]
fn asset_arch_is_one_of_the_two_macos_slices() {
    assert!(matches!(llama_asset_arch(true), "arm64" | "x64"));
    assert!(matches!(llama_asset_arch(false), "arm64" | "x64"));
}

#[test]
fn binary_path_is_under_runtime_dir() {
    let rt = LlamaRuntime::new("/opt/mahi/runtime");
    assert_eq!(rt.server_binary_path(), "/opt/mahi/runtime/llama-server");
    assert!(!std::path::Path::new(&rt.server_binary_path()).is_file());
}

#[test]
fn running_status_reports_model_and_port() {
    let server = RunningServer::new(&Some("qwen2.5-7b-instruct.gguf".to_string()), 1234);
    match server.status() {
        RuntimeStatus::Running { model_id, port } => {
            assert_eq!(model_id, "qwen2.5-7b-instruct");
            assert_eq!(port, 1234);
        }
        other => panic!("expected Running, got {other:?}"),
    }
    assert_eq!(server.base_url(), "http://127.0.0.1:1234");
    assert!(health_url(1234).starts_with("http://127.0.0.1:1234/"));
}

#[test]
fn find_file_named_walks_recursively() {
    let found = |path: &str, name: &str, is_dir: bool| Found {
        path: path.to_string(),
        name: name.to_string(),
        is_dir,
    };
    let look = |dir: &str| match dir {
        "/rt" => vec![found("/rt/build", "build", true)],
        "/rt/build" => vec![found("/rt/build/bin", "bin", true)],
        _ => vec![
            found("/rt/build/bin/libllama.dylib", "libllama.dylib", false),
            found("/rt/build/bin/llama-server", "llama-server", false),
        ],
    };
    let search = |name: &str| {
        let mut search = FileSearch::new("/rt", name);
        while let Some(dir) = search.next_dir() {
            if let Some(path) = search.visit(&look(&dir)) {
                return Some(path);
            }
        }
        None
    };
    assert_eq!(search("llama-server"), Some("/rt/build/bin/llama-server".to_string()));
    assert!(search("does-not-exist").is_none());
}

#[test]
fn copy_runtime_files_keeps_binary_and_libs_only() {
    assert!(keep_runtime_file("llama-server"));
    assert!(keep_runtime_file("libllama.dylib"));
    assert!(keep_runtime_file("ggml.metal"));
    // Docs and unrelated binaries are not copied.
    assert!(!keep_runtime_file("README.md"));
    assert!(!keep_runtime_file("llama-cli"));
}

#[test]
fn server_is_started_on_loopback_with_its_model() {
    let args = server_args("/m/x.gguf", 9000, 8192);
    assert!(args.contains(&"/m/x.gguf".to_string()));
    assert!(args.contains(&"9000".to_string()));
    assert!(args.contains(&"8192".to_string()));
    assert!(args.contains(&"127.0.0.1".to_string()));
}

#[test]
fn health_is_decided_by_exit_answer_and_deadline() {
    assert!(health_verdict(&None, None, false).is_none());
    assert!(health_verdict(&None, Some(204), false).is_none());
    assert!(health_verdict(&None, Some(503), false).is_none());
    assert!(matches!(health_verdict(&None, Some(200), false), Some(Ok(()))));
    assert!(matches!(health_verdict(&None, Some(200), true), Some(Ok(()))));
    assert!(matches!(health_verdict(&None, None, true), Some(Err(_))));
    assert!(matches!(
        health_verdict(&Some("exit status: 1".to_string()), Some(200), false),
        Some(Err(_))
    ));
}
