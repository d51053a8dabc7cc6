use ashkorix::config::local::{active_scopes, project_scope, validate_no_remote_keys};
use ashkorix::config::model_paths::{gguf_models, 
    is_gguf_path, order_models_by_name, normalize_optional_gguf_path, pick_best_gguf, resolve_embedding_model_path, resolve_gguf_path,
    resolve_reranker_model_path, ModelFileInfo, ModelPathHint, PathProbe, ProbedPath,
};
use ashkorix::config::paths::{data_dir_source, join_path_str, resolve_data_dir, sync_data_paths, DataDirSource};
use ashkorix::doctor::{check_path, run_doctor, DoctorProbe, PathCheckProbe};
use ashkorix::documents::importers::ImporterRegistry;
use ashkorix::error::AshkorixError;
use ashkorix::extensions::manifest::{default_builtin_manifest, validate_manifest, validate_no_network_in_raw};
use ashkorix::extensions::registry::{AshkorixExtensionHost, ExtensionHost};
use ashkorix::llm::generation::{batch_capacity, prompt_start, run_steps, GenerationLoop, LoopAction};
use ashkorix::llm::gpu::{detect_cuda_status, is_cuda_device, resolve_gpu_layers, BackendDevice, CudaStatus, DeviceKind};
use ashkorix::search::health::index_health;

fn model(dir: &str, name: &str) -> ModelFileInfo {
    ModelFileInfo { path: format!("{dir}/{name}"), filename: name.into(), size_bytes: 1 }
}

fn probed(path: &str, probe: PathProbe) -> ProbedPath {
    ProbedPath { path: path.into(), probe }
}

#[test]
fn prefers_embedding_filename_in_directory() {
    let dir = "/tmp/ashkorix-test";
    let probe = PathProbe::Dir(vec![model(dir, "chat.gguf"), model(dir, "nomic-embed-text.gguf")]);
    let picked = resolve_gguf_path(dir, &probe, ModelPathHint::Embedding).unwrap();
    assert!(picked.contains("embed"));
}

#[test]
fn file_path_needs_gguf_extension_in_any_case() {
    assert_eq!(resolve_gguf_path("/m/a.GGUF", &PathProbe::File, ModelPathHint::Any), Some("/m/a.GGUF".to_string()));
    assert_eq!(resolve_gguf_path("/m/a.bin", &PathProbe::File, ModelPathHint::Any), None);
    assert_eq!(resolve_gguf_path("/m/gguf", &PathProbe::File, ModelPathHint::Any), None);
    assert_eq!(resolve_gguf_path("/m", &PathProbe::Missing, ModelPathHint::Any), None);
    assert_eq!(resolve_gguf_path("/m", &PathProbe::Dir(vec![]), ModelPathHint::Any), None);
}

#[test]
fn keyword_order_decides_before_file_order() {
    let models = vec![model("/m", "bge-small.gguf"), model("/m", "Nomic-Embed.gguf"), model("/m", "jina-rerank.gguf")];
    assert_eq!(pick_best_gguf(&models, ModelPathHint::Embedding), Some("/m/Nomic-Embed.gguf".to_string()));
    assert_eq!(pick_best_gguf(&models, ModelPathHint::Reranker), Some("/m/jina-rerank.gguf".to_string()));
    assert_eq!(pick_best_gguf(&models, ModelPathHint::Any), Some("/m/bge-small.gguf".to_string()));
    let plain = vec![model("/m", "llama.gguf")];
    assert_eq!(pick_best_gguf(&plain, ModelPathHint::Reranker), Some("/m/llama.gguf".to_string()));
}

#[test]
fn embedding_search_falls_back_to_models_dir() {
    let configured = probed("/missing.gguf", PathProbe::Missing);
    let embeddings = probed("/data/models/embeddings", PathProbe::Dir(vec![]));
    let models = probed("/data/models", PathProbe::Dir(vec![model("/data/models", "e5-base.gguf")]));
    assert_eq!(
        resolve_embedding_model_path(Some(&configured), &embeddings, &models),
        Some("/data/models/e5-base.gguf".to_string())
    );
    let own = probed("/own.gguf", PathProbe::File);
    assert_eq!(resolve_embedding_model_path(Some(&own), &embeddings, &models), Some("/own.gguf".to_string()));
    let rerankers = probed("/data/models/rerankers", PathProbe::Missing);
    assert_eq!(resolve_reranker_model_path(None, &rerankers), None);
    assert_eq!(
        normalize_optional_gguf_path(None, ModelPathHint::Embedding, &embeddings, &rerankers, &models),
        Some("/data/models/e5-base.gguf".to_string())
    );
    assert_eq!(normalize_optional_gguf_path(None, ModelPathHint::Any, &embeddings, &rerankers, &models), None);
}

#[test]
fn data_dir_prefers_env_then_exe_then_cwd() {
    let (p, s) = data_dir_source(Some("/custom"), Some("/opt/app"), Some("/home"));
    assert_eq!((p.as_str(), s), ("/custom", DataDirSource::Env));
    let (p, s) = data_dir_source(None, Some("/opt/app"), Some("/home"));
    assert_eq!((p.as_str(), s), ("/opt/app/Data", DataDirSource::ExeRelative));
    let (p, s) = data_dir_source(None, None, None);
    assert_eq!((p.as_str(), s), ("./Data", DataDirSource::CurrentDirFallback));
    assert_eq!(DataDirSource::CurrentDirFallback.as_str(), "cwd-fallback");
    assert_eq!(join_path_str("/a/", "b"), "/a/b");
    assert_eq!(join_path_str("", "b"), "b");
}

#[test]
fn remote_keys_are_refused_in_any_case() {
    assert!(validate_no_remote_keys("context_size = 4096\n").is_ok());
    match validate_no_remote_keys("OpenAI_API_Key = \"x\"\napi_url = \"y\"") {
        Err(AshkorixError::Config(m)) => {
            assert_eq!(m, "remote/cloud config key 'api_url' is not allowed in local-only mode")
        }
        other => panic!("unexpected {other:?}"),
    }
}

#[test]
fn scopes_of_a_conversation() {
    assert_eq!(project_scope("ashkorix"), "project:ashkorix");
    assert_eq!(active_scopes("ashkorix", "abc"), vec!["global", "project:ashkorix", "conversation:abc"]);
}

fn path_probe(path: &str, exists: bool, writable: bool) -> PathCheckProbe {
    PathCheckProbe { path: path.into(), exists, writable }
}

#[test]
fn doctor_checks_are_sorted_by_name() {
    let probe = DoctorProbe {
        resolved_data_dir: "/data".into(),
        source: DataDirSource::Env,
        data_dir: path_probe("/data", true, true),
        models_dir: path_probe("/data/models", true, true),
        documents_dir: path_probe("/data/documents", false, false),
        index_dir: path_probe("/data/index", true, false),
        gguf_count: 2,
        models_dir_exists: true,
        embedding_model_path: None,
        embedding_loaded: false,
        reranker_model_path: None,
        reranker_loaded: false,
        cuda: CudaStatus { compiled: false, available: false, device_name: None },
        local_only: true,
    };
    let report = run_doctor(&probe);
    assert!(report.local_only);
    let names: Vec<&str> = report.checks.iter().map(|c| c.name.as_str()).collect();
    let mut sorted = names.clone();
    sorted.sort();
    assert_eq!(names, sorted);
    assert_eq!(names.len(), 9);
    let by_name = |n: &str| report.checks.iter().find(|c| c.name == n).unwrap().clone();
    assert_eq!(by_name("documents_dir").message, "created or missing");
    assert_eq!(by_name("index_dir").message, "not writable");
    assert_eq!(by_name("gguf_models").message, "2 .gguf file(s) discovered");
    assert_eq!(by_name("data_dir_source").message, "source=env");
    assert_eq!(by_name("cuda").message, "CPU-only build (cuda feature not enabled)");
    assert!(by_name("reranker_model").ok);
    assert!(!by_name("embedding_model").ok);
    let c = check_path("data_dir", &path_probe("/d", true, true));
    assert!(c.ok);
    assert_eq!(c.message, "ok");
}

#[test]
fn gpu_layers_and_cuda_detection() {
    assert_eq!(resolve_gpu_layers(0, true), 999);
    assert_eq!(resolve_gpu_layers(0, false), 0);
    assert_eq!(resolve_gpu_layers(12, false), 12);
    let cpu = BackendDevice { backend: "CPU".into(), kind: DeviceKind::Cpu, description: "cpu".into() };
    let gpu = BackendDevice { backend: "Cuda".into(), kind: DeviceKind::Gpu, description: "RTX".into() };
    assert!(!is_cuda_device(&cpu));
    assert!(is_cuda_device(&gpu));
    let s = detect_cuda_status(true, true, &[cpu.clone(), gpu.clone()]);
    assert!(s.compiled && s.available);
    assert_eq!(s.device_name.as_deref(), Some("RTX"));
    let s = detect_cuda_status(true, false, &[gpu.clone()]);
    assert!(s.compiled && !s.available);
    let s = detect_cuda_status(false, true, &[gpu]);
    assert!(!s.compiled && !s.available);
}

#[test]
fn manifests_are_validated() {
    let mut m = default_builtin_manifest("txt", "Plain text", &["txt".to_string()]);
    assert_eq!(m.kind, "importer");
    assert_eq!(m.version, "0.1.0");
    assert!(validate_manifest(&m).is_ok());
    m.permissions.network = true;
    assert!(matches!(validate_manifest(&m), Err(AshkorixError::Extension(e)) if e == "network permission not allowed in local-only mode"));
    m.kind = "exporter".into();
    assert!(matches!(validate_manifest(&m), Err(AshkorixError::Extension(e)) if e == "unsupported kind: exporter"));
    m.id = String::new();
    assert!(matches!(validate_manifest(&m), Err(AshkorixError::Extension(e)) if e == "missing id"));
    assert!(validate_no_network_in_raw("[permissions]\nnetwork = true\n").is_err());
    assert!(validate_no_network_in_raw("[permissions]\nnetwork = false\n").is_ok());
}

#[test]
fn disabled_importer_reads_back_disabled() {
    let mut host = AshkorixExtensionHost::new("/data/extensions".into());
    let importers = ImporterRegistry::builtin().list();
    host.register_builtin_extensions(&importers);
    let first = importers[0].id.clone();
    assert!(host.is_importer_enabled(&first));
    host.set_enabled(&first, false).unwrap();
    host.set_enabled(&first, false).unwrap();
    assert!(!host.is_importer_enabled(&first));
    let listed = host.list_extensions();
    assert_eq!(listed.len(), importers.len());
    assert!(!listed[0].enabled);
    assert!(listed[1..].iter().all(|e| e.enabled && e.builtin));
    host.set_enabled(&first, true).unwrap();
    assert!(host.is_importer_enabled(&first));
    assert_eq!(
        host.audit_log(),
        &vec![
            format!("disabled extension: {first}"),
            format!("disabled extension: {first}"),
            format!("enabled extension: {first}"),
        ]
    );
}

#[test]
fn prompt_window_keeps_the_tail() {
    assert!(matches!(prompt_start(0, 4096, 512), Err(AshkorixError::Model(m)) if m == "prompt produced zero tokens"));
    assert_eq!(prompt_start(100, 4096, 512).unwrap(), 0);
    assert_eq!(prompt_start(4000, 4096, 512).unwrap(), 4000 - (4096 - 512 - 16));
    assert!(matches!(prompt_start(10, 512, 512), Err(AshkorixError::Model(m))
        if m == "prompt needs room in context (n_ctx=512, max_tokens=512); increase context_size or lower max_tokens"));
    assert_eq!(batch_capacity(10, 20, 4096), 512);
    assert_eq!(batch_capacity(1000, 200, 4096), 1232);
    assert_eq!(batch_capacity(5000, 200, 4096), 4096);
}

#[test]
fn generation_stops_at_stop_sequence() {
    let mut g = GenerationLoop::new(10, 4096, 8, vec!["</s>".to_string()]);
    assert!(matches!(g.next_action(false), LoopAction::Sample));
    let (e, go) = g.on_sampled(false, "Hello".into());
    assert!(go && !e.finished && e.token == "Hello" && e.tokens_generated == 1);
    assert_eq!(g.n_cur, 11);
    let (e, go) = g.on_sampled(false, "</s>".into());
    assert!(!go && e.finished && e.token.is_empty() && e.tokens_generated == 2);
    assert_eq!(g.full_text, "Hello</s>");
    assert!(g.finish().is_none());
    assert!(matches!(g.next_action(true), LoopAction::Stop(AshkorixError::Cancelled)));
}

#[test]
fn generation_ends_at_budget_or_full_context() {
    let mut g = GenerationLoop::new(3, 4, 2, vec![]);
    assert!(matches!(g.next_action(false), LoopAction::Sample));
    g.on_sampled(false, "a".into());
    assert!(matches!(g.next_action(false), LoopAction::Stop(AshkorixError::Model(m))
        if m == "context full (n_ctx=4); clear the conversation or increase context_size"));
    g.on_sampled(false, "b".into());
    assert!(matches!(g.next_action(false), LoopAction::Done));
    let last = g.finish().unwrap();
    assert!(last.finished && last.tokens_generated == 2);
    let mut h = GenerationLoop::new(1, 100, 5, vec![]);
    let (e, go) = h.on_sampled(true, String::new());
    assert!(e.finished && !go && e.tokens_generated == 0);
}

#[test]
fn index_health_messages() {
    let h = index_health(0, 0, 0, false, false, None);
    assert_eq!(h.message, "Embedding model not loaded — set a .gguf embedding file in Settings and save config.");
    assert_eq!(index_health(0, 0, 0, false, true, None).message, "No documents imported yet.");
    assert_eq!(
        index_health(5, 0, 3, false, true, None).message,
        "Index incomplete — rebuild the index after embedding model is loaded."
    );
    assert_eq!(
        index_health(5, 0, 0, false, true, None).message,
        "Not indexed — import documents, then build or rebuild the index."
    );
    let h = index_health(12, 12, 12, true, true, Some("/m/e.gguf".into()));
    assert_eq!(h.message, "Indexed 12 chunks (12 vectors, 12 lexical docs).");
    assert_eq!(h.chunk_count, 12);
}

#[test]
fn models_dir_stays_when_under_data_dir() {
    assert_eq!(resolve_data_dir(None, Some("/opt/app"), None), "/opt/app/Data");
    let (d, m) = sync_data_paths("/data", "/data/models/custom");
    assert_eq!((d.as_str(), m.as_str()), ("/data", "/data/models/custom"));
    let (_, m) = sync_data_paths("/data", "/data/./models//x/");
    assert_eq!(m, "/data/./models//x/");
    let (_, m) = sync_data_paths("/data", "/database/models");
    assert_eq!(m, "/data/models");
    let (_, m) = sync_data_paths("/data/", "");
    assert_eq!(m, "/data/models");
    let (_, m) = sync_data_paths("./Data", "Data/models");
    assert_eq!(m, "./Data/models");
    let (d, m) = sync_data_paths("/srv/data/", "/elsewhere");
    assert_eq!(sync_data_paths(&d, &m), (d.clone(), m.clone()));
    assert_eq!(m, "/srv/data/models");
}

#[test]
fn gguf_models_are_ordered_by_name_stably() {
    assert!(is_gguf_path("/m/a.gguf"));
    assert!(!is_gguf_path("/m/a.GGUF"));
    assert!(!is_gguf_path("/m/.gguf"));
    assert!(!is_gguf_path("/m/readme.md"));
    let ordered = order_models_by_name(vec![
        model("/m/b", "x.gguf"),
        model("/m", "chat.gguf"),
        model("/m/a", "x.gguf"),
        model("/m", "Z.gguf"),
    ]);
    let paths: Vec<&str> = ordered.iter().map(|m| m.path.as_str()).collect();
    assert_eq!(paths, vec!["/m/Z.gguf", "/m/chat.gguf", "/m/b/x.gguf", "/m/a/x.gguf"]);
}

#[test]
fn directory_picks_only_gguf_files() {
    let dir = "/m";
    let probe = PathProbe::Dir(vec![model(dir, "embed-notes.txt"), model(dir, "chat.gguf")]);
    assert_eq!(resolve_gguf_path(dir, &probe, ModelPathHint::Embedding), Some("/m/chat.gguf".to_string()));
    let only_text = PathProbe::Dir(vec![model(dir, "readme.md")]);
    assert_eq!(resolve_gguf_path(dir, &only_text, ModelPathHint::Any), None);
    assert_eq!(gguf_models(&[model(dir, "a.gguf"), model(dir, "b.bin")]).len(), 1);
}

#[test]
fn a_run_streams_pieces_then_one_finished_event() {
    let samples = vec![(false, "Hel".to_string()), (false, "lo".to_string()), (false, "!".to_string())];
    let mut gl = GenerationLoop::new(3, 100, 2, vec![]);
    let evs = run_steps(&mut gl, &samples).unwrap();
    let view: Vec<(String, bool, u32)> = evs.into_iter().map(|e| (e.token, e.finished, e.tokens_generated)).collect();
    assert_eq!(view, vec![("Hel".to_string(), false, 1), ("lo".to_string(), false, 2), (String::new(), true, 2)]);
    let mut stopped = GenerationLoop::new(3, 100, 10, vec!["lo".to_string()]);
    let evs = run_steps(&mut stopped, &samples).unwrap();
    assert_eq!(evs.len(), 2);
    assert!(evs[1].finished && evs[1].token.is_empty() && evs[1].tokens_generated == 2);
    let mut eog = GenerationLoop::new(3, 100, 10, vec![]);
    let evs = run_steps(&mut eog, &vec![(true, String::new())]).unwrap();
    assert!(evs.len() == 1 && evs[0].finished && evs[0].tokens_generated == 0);
    let mut full = GenerationLoop::new(100, 100, 10, vec![]);
    assert!(run_steps(&mut full, &samples).is_err());
}

#[test]
fn a_stop_at_the_budget_also_sends_the_closing_event() {
    let samples = vec![(false, "Hel".to_string()), (false, "lo".to_string())];
    let mut gl = GenerationLoop::new(0, 100, 2, vec!["lo".to_string()]);
    let evs = run_steps(&mut gl, &samples).unwrap();
    let view: Vec<(String, bool, u32)> = evs.into_iter().map(|e| (e.token, e.finished, e.tokens_generated)).collect();
    assert_eq!(view, vec![("Hel".to_string(), false, 1), (String::new(), true, 2), (String::new(), true, 2)]);
}
