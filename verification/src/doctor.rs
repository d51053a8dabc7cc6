use vstd::prelude::*;
use vstd::string::*;

use crate::config::paths::{spec_data_dir_source_str, DataDirSource};
use crate::documents::graph_types::opt_view;
use crate::llm::gpu::CudaStatus;
use crate::text::{decimal, decimal_chars, lemma_str_lt_trans, str_lt, string_from};

verus! {

/// One check of the environment.
#[derive(Clone, Debug)]
pub struct DoctorCheck {
    pub name: String,
    pub path: String,
    pub ok: bool,
    pub message: String,
}

/// The checks of the environment, and whether the application runs local-only.
#[derive(Clone, Debug)]
pub struct DoctorReport {
    pub local_only: bool,
    pub checks: Vec<DoctorCheck>,
}

/// What a directory check found on disk.
#[derive(Clone, Debug)]
pub struct PathCheckProbe {
    /// The directory as displayed.
    pub path: String,
    pub exists: bool,
    /// For an existing directory: it is not read-only; for a missing one: it could be created.
    pub writable: bool,
}

/// What the doctor found about the environment.
#[derive(Clone, Debug)]
pub struct DoctorProbe {
    pub resolved_data_dir: String,
    pub source: DataDirSource,
    pub data_dir: PathCheckProbe,
    pub models_dir: PathCheckProbe,
    pub documents_dir: PathCheckProbe,
    pub index_dir: PathCheckProbe,
    pub gguf_count: u64,
    pub models_dir_exists: bool,
    pub embedding_model_path: Option<String>,
    pub embedding_loaded: bool,
    pub reranker_model_path: Option<String>,
    pub reranker_loaded: bool,
    pub cuda: CudaStatus,
    pub local_only: bool,
}

/// The values of a check: name, path, verdict, message.
pub open spec fn check_view(c: DoctorCheck) -> (Seq<char>, Seq<char>, bool, Seq<char>) {
    (c.name@, c.path@, c.ok, c.message@)
}

/// The check of a directory: sound when it exists and is writable; otherwise `created or
/// missing` when it did not exist and `not writable` when it did.
pub open spec fn spec_check_path(name: Seq<char>, p: PathCheckProbe) -> (Seq<char>, Seq<char>, bool, Seq<char>) {
    (
        name,
        p.path@,
        p.exists && p.writable,
        if p.exists && p.writable {
            "ok"@
        } else if !p.exists {
            "created or missing"@
        } else {
            "not writable"@
        },
    )
}

/// The check of a directory (see [`spec_check_path`]).
pub fn check_path(name: &str, probe: &PathCheckProbe) -> (r: DoctorCheck)
    ensures
        check_view(r) == spec_check_path(name@, *probe),
{
    let ok = probe.exists && probe.writable;
    let message = if ok {
        String::from_str("ok")
    } else if !probe.exists {
        String::from_str("created or missing")
    } else {
        String::from_str("not writable")
    };
    DoctorCheck { name: String::from_str(name), path: probe.path.clone(), ok, message }
}

/// The CUDA check.
pub open spec fn cuda_check(c: CudaStatus) -> (Seq<char>, Seq<char>, bool, Seq<char>) {
    (
        "cuda"@,
        match opt_view(c.device_name) {
            Some(d) => d,
            None => "(none)"@,
        },
        c.available,
        if !c.compiled {
            "CPU-only build (cuda feature not enabled)"@
        } else if c.available {
            "CUDA active — "@ + match opt_view(c.device_name) {
                Some(d) => d,
                None => "GPU detected"@,
            }
        } else {
            "CUDA compiled but no compatible GPU found — using CPU"@
        },
    )
}

/// The embedding model check.
pub open spec fn embedding_check(p: DoctorProbe) -> (Seq<char>, Seq<char>, bool, Seq<char>) {
    (
        "embedding_model"@,
        match opt_view(p.embedding_model_path) {
            Some(x) => x,
            None => "(not set)"@,
        },
        p.embedding_loaded,
        if p.embedding_loaded {
            "loaded"@
        } else {
            "not loaded — set a .gguf embedding file in Settings"@
        },
    )
}

/// The reranker model check: sound when none is configured (the heuristic reranks) or the
/// configured one is loaded.
pub open spec fn reranker_check(p: DoctorProbe) -> (Seq<char>, Seq<char>, bool, Seq<char>) {
    (
        "reranker_model"@,
        match opt_view(p.reranker_model_path) {
            Some(x) => x,
            None => "(not set — heuristic rerank)"@,
        },
        p.reranker_model_path is None || p.reranker_loaded,
        if p.reranker_model_path is None {
            "not configured — using heuristic rerank"@
        } else if p.reranker_loaded {
            "loaded"@
        } else {
            "configured but not loaded — check path in Settings"@
        },
    )
}

/// The checks of a report, ordered by name.
pub open spec fn spec_doctor_checks(p: DoctorProbe) -> Seq<(Seq<char>, Seq<char>, bool, Seq<char>)> {
    seq![
        cuda_check(p.cuda),
        spec_check_path("data_dir"@, p.data_dir),
        (
            "data_dir_source"@,
            p.resolved_data_dir@,
            true,
            "source="@ + spec_data_dir_source_str(p.source),
        ),
        spec_check_path("documents_dir"@, p.documents_dir),
        embedding_check(p),
        (
            "gguf_models"@,
            p.models_dir.path@,
            p.models_dir_exists,
            decimal(p.gguf_count as nat) + " .gguf file(s) discovered"@,
        ),
        spec_check_path("index_dir"@, p.index_dir),
        spec_check_path("models_dir"@, p.models_dir),
        reranker_check(p),
    ]
}

/// The names of the checks, in the report's order, ascend strictly.
proof fn lemma_check_names_ascend(names: Seq<Seq<char>>)
    requires
        names == seq![
            "cuda"@,
            "data_dir"@,
            "data_dir_source"@,
            "documents_dir"@,
            "embedding_model"@,
            "gguf_models"@,
            "index_dir"@,
            "models_dir"@,
            "reranker_model"@,
        ],
    ensures
        forall|i: int, j: int| 0 <= i < j < names.len() ==> str_lt(names[i], names[j]),
{
    reveal_strlit("cuda");
    reveal_strlit("data_dir");
    reveal_strlit("data_dir_source");
    reveal_strlit("documents_dir");
    reveal_strlit("embedding_model");
    reveal_strlit("gguf_models");
    reveal_strlit("index_dir");
    reveal_strlit("models_dir");
    reveal_strlit("reranker_model");
    assert(str_lt(names[0], names[1]));
    assert(str_lt(names[1], names[2])) by {
        reveal_with_fuel(str_lt, 10);
    }
    assert(str_lt(names[2], names[3])) by {
        reveal_with_fuel(str_lt, 3);
    }
    assert(str_lt(names[3], names[4]));
    assert(str_lt(names[4], names[5]));
    assert(str_lt(names[5], names[6]));
    assert(str_lt(names[6], names[7]));
    assert(str_lt(names[7], names[8]));
    assert forall|k: int| 0 <= k < names.len() - 1 implies str_lt(#[trigger] names[k], names[k + 1]) by {
        if k == 0 {} else if k == 1 {} else if k == 2 {} else if k == 3 {} else if k == 4 {} else if k == 5 {} else if k == 6 {} else {}
    }
    assert forall|i: int, j: int| 0 <= i < j < names.len() implies str_lt(names[i], names[j]) by {
        lemma_chain(names, i, j);
    }
}

proof fn lemma_chain(names: Seq<Seq<char>>, i: int, j: int)
    requires
        0 <= i < j < names.len(),
        forall|k: int| 0 <= k < names.len() - 1 ==> str_lt(#[trigger] names[k], names[k + 1]),
    ensures
        str_lt(names[i], names[j]),
    decreases j - i,
{
    if j > i + 1 {
        lemma_chain(names, i, j - 1);
        assert(str_lt(names[j - 1], names[j]));
        lemma_str_lt_trans(names[i], names[j - 1], names[j]);
    }
}

/// The doctor's report on the environment: the CUDA, directory, model-file, embedding and
/// reranker checks, ordered by name, and whether the application runs local-only.
pub fn run_doctor(probe: &DoctorProbe) -> (r: DoctorReport)
    ensures
        r.local_only == probe.local_only,
        r.checks@.map_values(|c: DoctorCheck| check_view(c)) == spec_doctor_checks(*probe),
        forall|i: int, j: int|
            0 <= i < j < r.checks@.len() ==> str_lt(r.checks@[i].name@, r.checks@[j].name@),
{
    let cuda_path = match &probe.cuda.device_name {
        Some(d) => d.clone(),
        None => String::from_str("(none)"),
    };
    let cuda_message = if !probe.cuda.compiled {
        String::from_str("CPU-only build (cuda feature not enabled)")
    } else if probe.cuda.available {
        let mut m = String::from_str("CUDA active — ");
        match &probe.cuda.device_name {
            Some(d) => m.append(d.as_str()),
            None => m.append("GPU detected"),
        }
        m
    } else {
        String::from_str("CUDA compiled but no compatible GPU found — using CPU")
    };
    let cuda = DoctorCheck {
        name: String::from_str("cuda"),
        path: cuda_path,
        ok: probe.cuda.available,
        message: cuda_message,
    };
    let mut source_message = String::from_str("source=");
    source_message.append(probe.source.as_str());
    let source = DoctorCheck {
        name: String::from_str("data_dir_source"),
        path: probe.resolved_data_dir.clone(),
        ok: true,
        message: source_message,
    };
    let embedding = DoctorCheck {
        name: String::from_str("embedding_model"),
        path: match &probe.embedding_model_path {
            Some(p) => p.clone(),
            None => String::from_str("(not set)"),
        },
        ok: probe.embedding_loaded,
        message: if probe.embedding_loaded {
            String::from_str("loaded")
        } else {
            String::from_str("not loaded — set a .gguf embedding file in Settings")
        },
    };
    let mut gguf_message = string_from(decimal_chars(probe.gguf_count).as_slice());
    gguf_message.append(" .gguf file(s) discovered");
    let gguf = DoctorCheck {
        name: String::from_str("gguf_models"),
        path: probe.models_dir.path.clone(),
        ok: probe.models_dir_exists,
        message: gguf_message,
    };
    let reranker = DoctorCheck {
        name: String::from_str("reranker_model"),
        path: match &probe.reranker_model_path {
            Some(p) => p.clone(),
            None => String::from_str("(not set — heuristic rerank)"),
        },
        ok: probe.reranker_model_path.is_none() || probe.reranker_loaded,
        message: if probe.reranker_model_path.is_none() {
            String::from_str("not configured — using heuristic rerank")
        } else if probe.reranker_loaded {
            String::from_str("loaded")
        } else {
            String::from_str("configured but not loaded — check path in Settings")
        },
    };
    let mut checks: Vec<DoctorCheck> = Vec::new();
    checks.push(cuda);
    checks.push(check_path("data_dir", &probe.data_dir));
    checks.push(source);
    checks.push(check_path("documents_dir", &probe.documents_dir));
    checks.push(embedding);
    checks.push(gguf);
    checks.push(check_path("index_dir", &probe.index_dir));
    checks.push(check_path("models_dir", &probe.models_dir));
    checks.push(reranker);
    assert(checks@.map_values(|c: DoctorCheck| check_view(c)) =~= spec_doctor_checks(*probe));
    proof {
        let names = checks@.map_values(|c: DoctorCheck| c.name@);
        assert(names =~= seq![
            "cuda"@,
            "data_dir"@,
            "data_dir_source"@,
            "documents_dir"@,
            "embedding_model"@,
            "gguf_models"@,
            "index_dir"@,
            "models_dir"@,
            "reranker_model"@,
        ]);
        lemma_check_names_ascend(names);
        assert forall|i: int, j: int| 0 <= i < j < checks@.len() implies str_lt(
            checks@[i].name@,
            checks@[j].name@,
        ) by {
            assert(names[i] == checks@[i].name@);
            assert(names[j] == checks@[j].name@);
        }
    }
    DoctorReport { local_only: probe.local_only, checks }
}

} // verus!
