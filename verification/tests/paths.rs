use fastaf_flow::catalog::{cache_roots, CacheEnv};
use fastaf_flow::paths::{contains_path, join_exec, path_parts, sort_unique_paths, PathPart};

fn env(home: &str) -> CacheEnv {
    CacheEnv {
        home: home.to_string(),
        hf_home: None,
        xdg_cache_home: None,
        hf_hub_cache: None,
        huggingface_hub_cache: None,
    }
}

fn strings(v: &[&str]) -> Vec<String> {
    v.iter().map(|s| s.to_string()).collect()
}

#[test]
fn join_adds_one_separator() {
    assert_eq!(join_exec("/home/u", ".cache"), "/home/u/.cache");
    assert_eq!(join_exec("/home/u/", ".cache"), "/home/u/.cache");
    assert_eq!(join_exec("", "hub"), "hub");
    assert_eq!(join_exec("/", "x/y"), "/x/y");
}

#[test]
fn components_drop_empty_and_current_pieces() {
    let parts = path_parts("/a//./b/../c/");
    assert_eq!(parts.len(), 5);
    assert!(matches!(parts[0], PathPart::Root));
    assert!(matches!(&parts[1], PathPart::Normal(n) if n.iter().collect::<String>() == "a"));
    assert!(matches!(&parts[2], PathPart::Normal(n) if n.iter().collect::<String>() == "b"));
    assert!(matches!(parts[3], PathPart::Parent));
    assert!(matches!(&parts[4], PathPart::Normal(n) if n.iter().collect::<String>() == "c"));
    let parts = path_parts("./x");
    assert!(matches!(parts[0], PathPart::Current));
    assert_eq!(parts.len(), 2);
    assert!(path_parts("").is_empty());
}

#[test]
fn paths_sort_by_components_and_keep_the_first_text() {
    let sorted = sort_unique_paths(&strings(&["b", "a/./x", "./a", "a", "a//x", "a/x"]));
    assert_eq!(sorted, strings(&["./a", "a", "a/./x", "b"]));
    let sorted = sort_unique_paths(&strings(&["/z", "/a/b", "/a", "/a/b/"]));
    assert_eq!(sorted, strings(&["/a", "/a/b", "/z"]));
}

#[test]
fn default_cache_roots() {
    let roots = cache_roots(&env("/home/u"), &strings(&["/data/models", "/home/u/Models/"]));
    assert_eq!(
        roots,
        strings(&["/data/models", "/home/u/.cache/huggingface/hub", "/home/u/.lmstudio/models", "/home/u/Models"])
    );
}

#[test]
fn cache_roots_follow_the_environment() {
    let mut e = env("/home/u");
    e.xdg_cache_home = Some("/xdg".into());
    assert_eq!(cache_roots(&e, &vec![])[3], "/xdg/huggingface/hub");
    e.hf_home = Some("/hf".into());
    assert_eq!(cache_roots(&e, &vec![])[0], "/hf/hub");
    e.huggingface_hub_cache = Some("/old/hub".into());
    assert!(cache_roots(&e, &vec![]).contains(&"/old/hub".to_string()));
    e.hf_hub_cache = Some("/new/hub".into());
    let roots = cache_roots(&e, &vec![]);
    assert!(roots.contains(&"/new/hub".to_string()));
    assert!(!roots.contains(&"/old/hub".to_string()));
    assert_eq!(roots.len(), 4);
}

#[test]
fn folders_compare_as_paths() {
    let roots = strings(&["/a/b", "rel"]);
    assert!(contains_path(&roots, "/a/b/"));
    assert!(contains_path(&roots, "/a//b"));
    assert!(contains_path(&roots, "rel/"));
    // A leading `.` is a component of its own, as in `std::path`.
    assert!(!contains_path(&roots, "./rel"));
    assert!(!contains_path(&roots, "/a"));
}
