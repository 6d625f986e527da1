use stagewhisper::download::{
    already_downloaded, detect_local_kind, hf_cache_folder, is_gguf_file, is_safe_relative_path,
    hf_cache_snapshot, least_name, model_exists, model_ready, weight_files, resolve_gguf_path, select_gguf_files, shard_base,
    temp_file_name, HfTreeEntry, ModelKind, ModelSource,
};

/// A folder's files, as relative paths.
fn files(names: &[&str]) -> Vec<String> {
    names.iter().map(|n| n.to_string()).collect()
}

#[test]
fn is_gguf_file_excludes_mmproj() {
    assert!(is_gguf_file("Qwen3.6-35B-A3B-UD-Q4_K_M.gguf"));
    assert!(is_gguf_file("model-00001-of-00003.gguf"));
    assert!(!is_gguf_file("mmproj-F16.gguf"));
    assert!(!is_gguf_file("model.safetensors"));
    assert!(!is_gguf_file("README.md"));
}

#[test]
fn select_gguf_prefers_q4_k_m_and_groups_shards() {
    let tree = vec![
        HfTreeEntry {
            kind: "file".to_string(),
            path: "Model-UD-Q8_0.gguf".to_string(),
            size: 9,
        },
        HfTreeEntry {
            kind: "file".to_string(),
            path: "Model-UD-Q4_K_M-00001-of-00002.gguf".to_string(),
            size: 5,
        },
        HfTreeEntry {
            kind: "file".to_string(),
            path: "Model-UD-Q4_K_M-00002-of-00002.gguf".to_string(),
            size: 5,
        },
        HfTreeEntry {
            kind: "file".to_string(),
            path: "mmproj-F16.gguf".to_string(),
            size: 1,
        },
    ];
    let picked: Vec<String> = select_gguf_files(tree).into_iter().map(|f| f.path).collect();
    assert_eq!(
        picked,
        vec![
            "Model-UD-Q4_K_M-00001-of-00002.gguf".to_string(),
            "Model-UD-Q4_K_M-00002-of-00002.gguf".to_string(),
        ]
    );
}

#[test]
fn rejects_path_traversal() {
    assert!(is_safe_relative_path("model.gguf"));
    assert!(is_safe_relative_path("weights/model-00001.gguf"));
    assert!(!is_safe_relative_path("../escape.gguf"));
    assert!(!is_safe_relative_path("a/../../etc/passwd"));
    assert!(!is_safe_relative_path("/abs/path.gguf"));
    assert!(!is_safe_relative_path("C:\\windows\\system32"));
    assert!(!is_safe_relative_path(""));
}

#[test]
fn unsafe_paths_with_dots_empty_parts_or_backslashes_are_refused() {
    assert!(!is_safe_relative_path("a/./b.gguf"));
    assert!(!is_safe_relative_path("a//b.gguf"));
    assert!(!is_safe_relative_path("a/b/"));
    assert!(!is_safe_relative_path("\\abs.gguf"));
    assert!(!is_safe_relative_path("a\\..\\b.gguf"));
    assert!(is_safe_relative_path("a\\b.gguf"));
    assert!(is_safe_relative_path(".hidden/model.gguf"));
    assert!(is_safe_relative_path("..model.gguf"));
}

#[test]
fn shard_base_strips_the_shard_suffix_only() {
    assert_eq!(shard_base("Model-Q4_K_M-00001-of-00002.gguf"), "Model-Q4_K_M");
    assert_eq!(shard_base("Model-Q4_K_M-00001-OF-00002.GGUF"), "Model-Q4_K_M");
    assert_eq!(shard_base("Model-Q8_0.gguf"), "Model-Q8_0");
    assert_eq!(shard_base("model-x-of-00002.gguf"), "model-x-of-00002");
    assert_eq!(shard_base("model-00001-of-.gguf"), "model-00001-of-");
    assert_eq!(shard_base("model.bin"), "model.bin");
}

#[test]
fn without_the_preferred_quantisation_the_first_group_in_order_is_taken() {
    let tree = vec![
        HfTreeEntry { kind: "file".to_string(), path: "b-Q8_0.gguf".to_string(), size: 3 },
        HfTreeEntry { kind: "file".to_string(), path: "a-Q5_K.gguf".to_string(), size: 2 },
        HfTreeEntry { kind: "directory".to_string(), path: "0-Q4_K_M.gguf".to_string(), size: 1 },
        HfTreeEntry { kind: "file".to_string(), path: "../0-Q4_K_M.gguf".to_string(), size: 1 },
    ];
    let picked: Vec<(String, u64)> =
        select_gguf_files(tree).into_iter().map(|f| (f.path, f.size)).collect();
    assert_eq!(picked, vec![("a-Q5_K.gguf".to_string(), 2)]);
}

#[test]
fn a_listing_without_model_files_selects_nothing() {
    let tree = vec![HfTreeEntry { kind: "file".to_string(), path: "README.md".to_string(), size: 1 }];
    assert!(select_gguf_files(tree).is_empty());
    assert!(select_gguf_files(Vec::new()).is_empty());
}

#[test]
fn shards_come_out_in_path_order_whatever_the_listing_order() {
    let tree = vec![
        HfTreeEntry { kind: "file".to_string(), path: "m-q4_k_m-00003-of-00003.gguf".to_string(), size: 3 },
        HfTreeEntry { kind: "file".to_string(), path: "m-q4_k_m-00001-of-00003.gguf".to_string(), size: 1 },
        HfTreeEntry { kind: "file".to_string(), path: "m-q4_k_m-00002-of-00003.gguf".to_string(), size: 2 },
    ];
    let sizes: Vec<u64> = select_gguf_files(tree).into_iter().map(|f| f.size).collect();
    assert_eq!(sizes, vec![1, 2, 3]);
}

#[test]
fn the_least_name_is_the_first_in_order() {
    let names = vec!["weights/b.gguf".to_string(), "a.gguf".to_string(), "c.gguf".to_string()];
    assert_eq!(least_name(&names), Some("a.gguf".to_string()));
    assert_eq!(least_name(&Vec::new()), None);
}

#[test]
fn the_cache_folder_doubles_slashes_and_needs_one() {
    assert_eq!(
        hf_cache_folder("unsloth/Qwen3.6-35B-A3B-GGUF"),
        Some("models--unsloth--Qwen3.6-35B-A3B-GGUF".to_string())
    );
    assert_eq!(hf_cache_folder("  org/repo  "), Some("models--org--repo".to_string()));
    assert_eq!(hf_cache_folder("missing-slash"), None);
}

#[test]
fn downloads_go_to_a_hidden_temporary_name() {
    assert_eq!(temp_file_name("model.gguf"), ".model.gguf.tmp");
}

#[test]
fn a_file_is_skipped_only_when_its_listed_size_is_on_disk() {
    assert!(already_downloaded(true, 10, 10));
    assert!(!already_downloaded(true, 10, 9));
    assert!(!already_downloaded(true, 0, 0));
    assert!(!already_downloaded(false, 10, 10));
}

#[test]
fn ready_false_without_marker() {
    assert!(!model_ready(ModelSource::Remote, false, true));
    assert!(model_ready(ModelSource::Remote, true, true));
    assert!(!model_ready(ModelSource::Remote, true, false));
    assert!(model_ready(ModelSource::Local, false, true));
    assert!(!model_ready(ModelSource::Local, true, false));
}

#[test]
fn detect_local_kind_gguf_only() {
    assert!(matches!(
        detect_local_kind(&files(&["m-Q4_K_M.gguf"])),
        Some(ModelKind::Gguf { .. })
    ));
    assert!(detect_local_kind(&files(&["config.json", "model.safetensors"])).is_none());
}

#[test]
fn first_gguf_skips_mmproj_projector() {
    let found = detect_local_kind(&files(&["mmproj-F16.gguf", "model-Q4_K_M.gguf"]));
    assert_eq!(found, Some(ModelKind::Gguf { file: "model-Q4_K_M.gguf".to_string() }));
}

#[test]
fn a_named_weights_file_must_itself_be_present() {
    let named = ModelKind::Gguf { file: "model.gguf".to_string() };
    let others = files(&["other.gguf"]);
    assert!(model_exists(&named, true, &Vec::new()));
    assert!(!model_exists(&named, false, &others));
    assert_eq!(resolve_gguf_path(&named, true, &others), Some("model.gguf".to_string()));
    assert_eq!(resolve_gguf_path(&named, false, &others), None);
}

#[test]
fn an_unnamed_kind_takes_the_first_weights_file_of_its_folder() {
    let any = ModelKind::Gguf { file: String::new() };
    let files = files(&["weights/z.gguf", "b-00002-of-00002.gguf", "b-00001-of-00002.gguf"]);
    assert!(model_exists(&any, false, &files));
    assert!(!model_exists(&any, true, &Vec::new()));
    assert_eq!(
        resolve_gguf_path(&any, false, &files),
        Some("b-00001-of-00002.gguf".to_string())
    );
    assert_eq!(resolve_gguf_path(&any, true, &Vec::new()), None);
}

#[test]
fn the_first_cached_snapshot_with_weights_is_taken() {
    let snapshots = vec![
        ("/cache-a/models--unsloth--Qwen/snapshots/aaa".to_string(), files(&["config.json"])),
        ("/cache-b/models--unsloth--Qwen/snapshots/abc123".to_string(), files(&["model-Q4_K_M.gguf"])),
        ("/cache-c/models--unsloth--Qwen/snapshots/zzz".to_string(), files(&["other.gguf"])),
    ];
    assert_eq!(
        hf_cache_snapshot(&snapshots),
        Some("/cache-b/models--unsloth--Qwen/snapshots/abc123".to_string())
    );
    assert_eq!(hf_cache_snapshot(&Vec::new()), None);
    assert_eq!(hf_cache_folder("missing-repo"), None);
}

#[test]
fn first_gguf_finds_nested_file() {
    let found = detect_local_kind(&files(&["config.json", "weights/model-Q4_K_M.gguf"]));
    assert_eq!(found, Some(ModelKind::Gguf { file: "weights/model-Q4_K_M.gguf".to_string() }));
}

#[test]
fn only_the_file_name_decides_what_is_a_weights_file() {
    let folder = files(&["mmproj/model.gguf", "weights.gguf/readme.md", "mmproj-F16.gguf"]);
    assert_eq!(
        detect_local_kind(&folder),
        Some(ModelKind::Gguf { file: "mmproj/model.gguf".to_string() })
    );
    assert_eq!(weight_files(&folder), vec!["mmproj/model.gguf".to_string()]);
}
