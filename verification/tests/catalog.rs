use fastaf_flow::catalog::{
    inspect_model, kind_for, merge, model_id, quantization, recommend, DirEntry, Field, Kind,
    Memory, Model, ModelConfig, ModelDir, GIB, model_config_of,
};

fn model_type(t: &str) -> String {
    format!("{{\"model_type\":\"{t}\"}}")
}

fn file(name: &str, len: u64) -> DirEntry {
    DirEntry { name: name.to_string(), is_file: true, len, content: None }
}

fn index(name: &str, json: &str) -> DirEntry {
    DirEntry { name: name.to_string(), is_file: true, len: 80, content: Some(json.as_bytes().to_vec()) }
}

fn dir(path: &str, config: &str, entries: Vec<DirEntry>) -> ModelDir {
    ModelDir {
        path: path.to_string(),
        config: Some(config.as_bytes().to_vec()),
        entries: Some(entries),
        has_tokenizer: false,
    }
}

fn model(id: &str, kind: Kind, path: Option<&str>, quant: &str) -> Model {
    Model {
        id: id.to_string(),
        kind,
        path: path.map(|p| p.to_string()),
        bytes: 0,
        quant: quant.to_string(),
    }
}

#[test]
fn ignores_metadata_only_and_pytorch_whisper() {
    let whisper = r#"{"model_type":"whisper","n_mels":80}"#;
    let d = dir("/tmp/whisper", whisper, vec![file("config.json", 33)]);
    assert!(inspect_model(&d).is_none());
    let d = dir("/tmp/whisper", whisper, vec![file("config.json", 33), file("weights.npz", 7)]);
    assert!(inspect_model(&d).is_some());
    let d = dir(
        "/tmp/whisper",
        r#"{"model_type":"whisper","d_model":384}"#,
        vec![file("config.json", 33), file("weights.npz", 7)],
    );
    assert!(inspect_model(&d).is_none());
}

#[test]
fn rejects_missing_shards_and_path_traversal() {
    let entries = vec![
        file("config.json", 27),
        file("one.safetensors", 7),
        index("model.safetensors.index.json", r#"{"weight_map":{"a":"one.safetensors","b":"two.safetensors"}}"#),
    ];
    assert!(inspect_model(&dir("/tmp/qwen", r#"{"model_type":"qwen3_asr"}"#, entries)).is_none());
    let entries = vec![
        file("config.json", 27),
        file("one.safetensors", 7),
        file("two.safetensors", 7),
        index("model.safetensors.index.json", r#"{"weight_map":{"a":"one.safetensors","b":"two.safetensors"}}"#),
    ];
    assert!(inspect_model(&dir("/tmp/qwen", r#"{"model_type":"qwen3_asr"}"#, entries)).is_some());
    let entries = vec![
        file("config.json", 27),
        file("one.safetensors", 7),
        file("two.safetensors", 7),
        index("model.safetensors.index.json", r#"{"weight_map":{"a":"../one.safetensors"}}"#),
    ];
    assert!(inspect_model(&dir("/tmp/qwen", r#"{"model_type":"qwen3_asr"}"#, entries)).is_none());
}

#[test]
fn no_recommendation_under_pressure() {
    let models = vec![model("mlx-community/S1-mini-MLX-4bit", Kind::Rewrite, None, "4-bit")];
    assert!(recommend(
        &models,
        Kind::Rewrite,
        Memory { total_bytes: 8 * GIB, available_bytes: GIB / 2 }
    )
    .is_none());
}

#[test]
fn recommends_downloaded_models_and_quant_from_config() {
    let mut models = vec![model("mlx-community/S1-mini-MLX-4bit", Kind::Rewrite, Some("/test"), "4-bit")];
    models.push(Model { id: "mlx-community/S1-mini-MLX-8bit".into(), path: None, ..models[0].clone() });
    let selected = recommend(
        &models,
        Kind::Rewrite,
        Memory { total_bytes: 64 * GIB, available_bytes: 40 * GIB },
    )
    .unwrap();
    assert!(selected.installed());
    let mut c = ModelConfig::empty();
    c.quantization_bits = Field::Unsigned(6);
    assert_eq!(quantization("custom", &c), "6-bit");
}

#[test]
fn quantization_falls_back_from_config_to_name_to_dtype() {
    let mut c = ModelConfig::empty();
    c.quantization_config_bits = Field::Unsigned(3);
    assert_eq!(quantization("x", &c), "3-bit");
    // A present but non-integer width stops the fallback to quantization_config.
    c.quantization_bits = Field::Other;
    assert_eq!(quantization("x-MXFP4", &c), "MXFP4");
    assert_eq!(quantization("whisper-large-v3-turbo-q4", &ModelConfig::empty()), "4-bit");
    let mut d = ModelConfig::empty();
    d.torch_dtype = Field::Text("float16".into());
    d.dtype = Field::Text("bfloat16".into());
    assert_eq!(quantization("plain", &d), "float16");
    d.torch_dtype = Field::Absent;
    assert_eq!(quantization("plain", &d), "bfloat16");
    d.dtype = Field::Unsigned(4);
    assert_eq!(quantization("plain", &d), "Original");
    assert_eq!(quantization("S1-mini-8BIT", &ModelConfig::empty()), "8-bit");
}

#[test]
fn model_ids_come_from_cache_directories() {
    assert_eq!(
        model_id("/Users/a/.cache/huggingface/hub/models--mlx-community--Qwen3-ASR-0.6B-4bit/snapshots/abc"),
        "mlx-community/Qwen3-ASR-0.6B-4bit"
    );
    assert_eq!(model_id("/Users/a/Models/s1-mini-6bit"), "/Users/a/Models/s1-mini-6bit");
    assert_eq!(model_id("/x/notmodels--a--b"), "/x/notmodels--a--b");
    assert_eq!(model_id("models--solo"), "solo");
}

#[test]
fn kinds_are_recognised() {
    let mut c = ModelConfig::empty();
    assert_eq!(kind_for("mlx-community/S1-mini-MLX-4bit", &c), Some(Kind::Rewrite));
    assert_eq!(kind_for("fishaudio/openaudio-s1-mini", &c), None);
    assert_eq!(kind_for("mlx-community/parakeet-tdt-0.6b-v3", &c), Some(Kind::Speech));
    assert_eq!(kind_for("mlx-community/parakeet-tts", &c), None);
    assert_eq!(kind_for("someone/Voxtral-Mini-3B", &c), None);
    c.model_type = Field::Text("voxtral".into());
    assert_eq!(kind_for("someone/Voxtral-Mini-3B", &c), Some(Kind::Speech));
    c.model_type = Field::Text("whisper".into());
    assert_eq!(kind_for("x/whisper", &c), None);
    c.has_n_mels = true;
    assert_eq!(kind_for("x/whisper", &c), Some(Kind::Speech));
}

#[test]
fn titles_and_details() {
    let m = model("mlx-community/S1-mini-MLX-4bit", Kind::Rewrite, None, "4-bit");
    assert_eq!(m.title(), "S1-mini-MLX-4bit");
    assert_eq!(model("plain", Kind::Speech, None, "").title(), "plain");
    assert!(!m.installed());
    // 0.6 billion parameters at 0.6 bytes: 0.36 GiB * 1.35 + 0.45 = 0.936 GiB.
    assert_eq!(m.detail(), "Available \u{b7} 4-bit \u{b7} ~0.9 GB memory");
    let mut d = model("a/b", Kind::Speech, Some("/p"), "BF16");
    d.bytes = GIB;
    // 1.35 + 1.0 = 2.35 GiB.
    assert_eq!(d.detail(), "Downloaded \u{b7} BF16 \u{b7} ~2.4 GB memory");
    assert_eq!(d.estimated_microbytes(), 2_350_000u128 * GIB as u128);
}

#[test]
fn merge_prefers_downloaded_and_orders_them_first() {
    let available = vec![
        model("b/two-4bit", Kind::Speech, Some("/stale"), "x"),
        model("a/one", Kind::Speech, None, "y"),
        model("c/three", Kind::Rewrite, None, "z"),
    ];
    let installed = vec![model("c/three", Kind::Rewrite, Some("/c"), "8-bit")];
    let merged = merge(available, installed);
    let ids: Vec<&str> = merged.iter().map(|m| m.id.as_str()).collect();
    assert_eq!(ids, vec!["c/three", "a/one", "b/two-4bit"]);
    assert_eq!(merged[0].path.as_deref(), Some("/c"));
    assert_eq!(merged[2].path, None);
    assert_eq!(merged[2].quant, "4-bit");
    assert_eq!(merged[1].quant, "Original");
}

#[test]
fn recommendation_prefers_known_speech_families() {
    let models = vec![
        model("x/whisper-tiny", Kind::Speech, None, ""),
        model("mlx-community/Qwen3-ASR-0.6B-4bit", Kind::Speech, None, ""),
        model("x/whisper-small", Kind::Speech, None, ""),
    ];
    let memory = Memory { total_bytes: 64 * GIB, available_bytes: 40 * GIB };
    assert_eq!(recommend(&models, Kind::Speech, memory).unwrap().id, "mlx-community/Qwen3-ASR-0.6B-4bit");
    assert!(recommend(&models, Kind::Rewrite, memory).is_none());
}

#[test]
fn s1_mini_variants_match_the_model_guide() {
    let detail = |id: &str| model(id, Kind::Rewrite, None, "q").detail();
    assert_eq!(detail("mlx-community/S1-mini-MLX-4bit"), "Available \u{b7} q \u{b7} ~0.9 GB memory");
    assert_eq!(detail("mlx-community/S1-mini-MLX-8bit"), "Available \u{b7} q \u{b7} ~1.3 GB memory");
    assert_eq!(detail("mlx-community/S1-mini-MLX-bf16"), "Available \u{b7} q \u{b7} ~2.1 GB memory");
    // A downloaded 4-bit variant with 335 MB of weights.
    let mut m = model("mlx-community/S1-mini-MLX-4bit", Kind::Rewrite, Some("/s"), "4-bit");
    m.bytes = 335_000_000;
    assert_eq!(m.detail(), "Downloaded \u{b7} 4-bit \u{b7} ~0.9 GB memory");
}

#[test]
fn budget_is_the_smaller_of_share_and_spare() {
    // 60% of 16 GiB is 9.6 GiB; 8 GiB available less 1 GiB is 7 GiB.
    let m = Memory { total_bytes: 16 * GIB, available_bytes: 8 * GIB };
    assert_eq!(m.budget(), 7_000_000u128 * GIB as u128);
    let m = Memory { total_bytes: 8 * GIB, available_bytes: 8 * GIB };
    assert_eq!(m.budget(), 4_800_000u128 * GIB as u128);
    let m = Memory { total_bytes: 8 * GIB, available_bytes: GIB / 2 };
    assert_eq!(m.budget(), 0);
}

#[test]
fn memory_is_read_from_the_machine() {
    let m = Memory::read();
    assert!(m.total_bytes > 0);
}

#[test]
fn rewriting_models_need_a_tokenizer_and_non_empty_weights() {
    let entries = vec![file("config.json", 20), file("model.safetensors", 9)];
    let mut d = dir("/m/s1-mini-local", "{}", entries);
    assert!(inspect_model(&d).is_none());
    d.has_tokenizer = true;
    let m = inspect_model(&d).unwrap();
    assert_eq!(m.kind, Kind::Rewrite);
    assert_eq!(m.bytes, 9);
    assert_eq!(m.id, "/m/s1-mini-local");
    assert_eq!(m.path.as_deref(), Some("/m/s1-mini-local"));
    let entries = vec![file("config.json", 20), file("model.safetensors", 9), file("extra.npz", 0)];
    let mut d = dir("/m/s1-mini-local", "{}", entries);
    d.has_tokenizer = true;
    assert!(inspect_model(&d).is_none());
}

#[test]
fn weight_sizes_are_summed() {
    let entries = vec![
        file("config.json", 27),
        file("a.safetensors", 5),
        file("b.safetensors", 6),
        file("notes.txt", 100),
        file(".safetensors", 100),
    ];
    let m = inspect_model(&dir("/hub/models--org--qwen3-asr-0.6b-4bit/snapshots/x", &model_type("qwen3_asr"), entries)).unwrap();
    assert_eq!(m.bytes, 11);
    assert_eq!(m.id, "org/qwen3-asr-0.6b-4bit");
    assert_eq!(m.quant, "4-bit");
}

#[test]
fn configuration_is_read_from_json() {
    let c = model_config_of(br#"{"quantization":{"bits":6},"torch_dtype":"bfloat16","model_type":"whisper","n_mels":80}"#).unwrap();
    assert!(matches!(c.quantization_bits, Field::Unsigned(6)));
    assert!(matches!(c.quantization_config_bits, Field::Absent));
    assert!(matches!(&c.torch_dtype, Field::Text(t) if t == "bfloat16"));
    assert!(matches!(c.dtype, Field::Absent));
    assert!(c.has_n_mels);
    assert_eq!(quantization("custom", &c), "6-bit");
    assert_eq!(kind_for("x/whisper", &c), Some(Kind::Speech));
    let c = model_config_of(br#"{"quantization_config":{"bits":-1},"dtype":7,"model_type":null}"#).unwrap();
    assert!(matches!(c.quantization_config_bits, Field::Other));
    assert!(matches!(c.dtype, Field::Unsigned(7)));
    assert!(matches!(c.model_type, Field::Other));
    assert!(!c.has_n_mels);
    assert!(model_config_of(b"{not json").is_none());
    assert!(model_config_of(b"").is_none());
    let c = model_config_of(b"[1,2]").unwrap();
    assert!(matches!(c.model_type, Field::Absent));
}

#[test]
fn shard_indexes_are_read_from_json() {
    let entries = |json: &str| {
        vec![file("config.json", 27), file("one.safetensors", 7), index("model.safetensors.index.json", json)]
    };
    let qwen = r#"{"model_type":"qwen3_asr"}"#;
    assert!(inspect_model(&dir("/q", qwen, entries(r#"{"weight_map":{"a":"one.safetensors","b":"one.safetensors"}}"#))).is_some());
    // Non-string values are skipped; a map with no file name, or no map, is refused.
    assert!(inspect_model(&dir("/q", qwen, entries(r#"{"weight_map":{"a":"one.safetensors","m":{"x":1}}}"#))).is_some());
    assert!(inspect_model(&dir("/q", qwen, entries(r#"{"weight_map":{"m":3}}"#))).is_none());
    assert!(inspect_model(&dir("/q", qwen, entries(r#"{"weight_map":[]}"#))).is_none());
    assert!(inspect_model(&dir("/q", qwen, entries("not json"))).is_none());
    let mut unread = entries("{}");
    unread[2].content = None;
    assert!(inspect_model(&dir("/q", qwen, unread)).is_none());
    assert!(inspect_model(&dir("/q", "not json", entries(r#"{"weight_map":{"a":"one.safetensors"}}"#))).is_none());
}
