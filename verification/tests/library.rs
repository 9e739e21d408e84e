use fastaf_flow::catalog::{
    downloaded_of_kind, find_selected, library_view, pick_model, skip_directory, snapshot_preferred, Kind, Memory,
    Model, GIB,
};
use fastaf_flow::text::count_words;

fn model(id: &str, kind: Kind, path: Option<&str>) -> Model {
    Model { id: id.to_string(), kind, path: path.map(String::from), bytes: 0, quant: "4-bit".into() }
}

fn shelf() -> Vec<Model> {
    vec![
        model("x/Whisper-Small", Kind::Speech, Some("/a")),
        model("y/whisper-tiny", Kind::Speech, None),
        model("mlx-community/S1-mini-MLX-4bit", Kind::Rewrite, Some("/b")),
        model("x/Whisper-Small", Kind::Speech, Some("/c")),
    ]
}

#[test]
fn library_filters_by_kind_download_and_search() {
    let models = shelf();
    assert_eq!(library_view(&models, Kind::Speech, false, ""), vec![0, 1, 3]);
    assert_eq!(library_view(&models, Kind::Speech, true, ""), vec![0, 3]);
    assert_eq!(library_view(&models, Kind::Speech, false, "WHISPER-t"), vec![1]);
    assert_eq!(library_view(&models, Kind::Rewrite, false, "s1"), vec![2]);
    assert!(library_view(&models, Kind::Rewrite, false, "whisper").is_empty());
    assert_eq!(downloaded_of_kind(&models, Kind::Speech), vec![0, 3]);
    assert_eq!(downloaded_of_kind(&models, Kind::Rewrite), vec![2]);
}

#[test]
fn selection_takes_the_first_downloaded_match() {
    let models = shelf();
    assert_eq!(find_selected(&models, "x/Whisper-Small").unwrap().path.as_deref(), Some("/a"));
    assert!(find_selected(&models, "y/whisper-tiny").is_none());
    assert!(find_selected(&models, "x/whisper-small").is_none());
    let memory = Memory { total_bytes: 64 * GIB, available_bytes: 40 * GIB };
    // The configured model wins when downloaded.
    assert_eq!(pick_model(&models, Kind::Speech, "x/Whisper-Small", memory).unwrap().path.as_deref(), Some("/a"));
    // Otherwise the recommendation, when it is downloaded.
    assert_eq!(pick_model(&models, Kind::Rewrite, "gone", memory).unwrap().id, "mlx-community/S1-mini-MLX-4bit");
    let only_available = vec![model("y/whisper-tiny", Kind::Speech, None)];
    assert!(pick_model(&only_available, Kind::Speech, "", memory).is_none());
}

#[test]
fn scanning_skips_caches_and_prefers_the_main_snapshot() {
    for name in ["blobs", ".git", ".venv", "target", "node_modules", ".locks"] {
        assert!(skip_directory(name));
    }
    assert!(!skip_directory("snapshots"));
    assert!(!skip_directory("Blobs"));
    let name = "abc123".to_string();
    assert!(snapshot_preferred(Some(&name), Some(&"abc123\n".to_string())));
    assert!(snapshot_preferred(Some(&name), Some(&"  abc123 ".to_string())));
    assert!(!snapshot_preferred(Some(&name), Some(&"def456".to_string())));
    assert!(!snapshot_preferred(Some(&name), None));
    assert!(!snapshot_preferred(None, Some(&name)));
}

#[test]
fn words_are_counted_between_white_space() {
    assert_eq!(count_words(""), 0);
    assert_eq!(count_words("   "), 0);
    assert_eq!(count_words("one"), 1);
    assert_eq!(count_words("  two\twords\n"), 2);
    assert_eq!(count_words("a\u{3000}b\u{a0}c"), 3);
}

use fastaf_flow::catalog::{estimate_from_lower, kind_of_lower, rank_from_lower, shown_in_library, ModelConfig};

#[test]
fn lowered_ids_reach_the_catalog_rules() {
    let c = ModelConfig::empty();
    assert_eq!(kind_of_lower("mlx-community/s1-mini-mlx-4bit", &c), Some(Kind::Rewrite));
    assert_eq!(kind_of_lower("mlx-community/S1-mini-MLX-4bit", &c), None);
    assert_eq!(kind_of_lower("mlx-community/parakeet-tdt-0.6b-v3", &c), Some(Kind::Speech));
    // 0.6 billion parameters at 0.6 bytes: 0.36 GiB * 1.35 + 0.45 GiB.
    assert_eq!(estimate_from_lower("s1-mini-mlx-4bit", Kind::Rewrite, 0), 936_000u128 * GIB as u128);
    assert_eq!(estimate_from_lower("x", Kind::Speech, GIB), 2_350_000u128 * GIB as u128);
    let memory = Memory { total_bytes: 16 * GIB, available_bytes: 8 * GIB };
    assert_eq!(rank_from_lower("s1-mini-mlx-8bit", Kind::Rewrite, false, memory), 90);
    assert_eq!(rank_from_lower("s1-mini-mlx-4bit", Kind::Rewrite, true, memory), 1080);
    assert_eq!(rank_from_lower("qwen3-asr-0.6b-4bit", Kind::Speech, false, memory), 95);
    let m = model("x/Whisper-Small", Kind::Speech, None);
    assert!(shown_in_library(&m, Kind::Speech, false, "x/whisper-small", "small"));
    assert!(!shown_in_library(&m, Kind::Speech, true, "x/whisper-small", "small"));
    assert!(!shown_in_library(&m, Kind::Rewrite, false, "x/whisper-small", ""));
    assert!(!shown_in_library(&m, Kind::Speech, false, "x/whisper-small", "Small"));
}
