use fastaf_flow::catalog::{Kind, Model};
use fastaf_flow::table::ModelTable;

fn found(id: &str, path: &str) -> Model {
    Model { id: id.to_string(), kind: Kind::Speech, path: Some(path.to_string()), bytes: 1, quant: "4-bit".into() }
}

#[test]
fn scanned_models_are_kept_by_id_in_order() {
    let mut t = ModelTable::new();
    t.insert_found(found("b/two", "/r1/b"), false);
    t.insert_found(found("a/one", "/r1/a"), false);
    // A second snapshot of the same model does not replace the first...
    t.insert_found(found("b/two", "/r2/b"), false);
    // ...unless it is the one `refs/main` points to.
    t.insert_found(found("a/one", "/r2/a-main"), true);
    t.insert_found(found("c/three", "/r1/c"), true);
    let models = t.into_models();
    let ids: Vec<&str> = models.iter().map(|m| m.id.as_str()).collect();
    assert_eq!(ids, vec!["a/one", "b/two", "c/three"]);
    assert_eq!(models[0].path.as_deref(), Some("/r2/a-main"));
    assert_eq!(models[1].path.as_deref(), Some("/r1/b"));
}

#[test]
fn ids_order_by_code_point() {
    let mut t = ModelTable::new();
    t.insert_found(found("mlx/b", "/x"), false);
    t.insert_found(found("Mlx/a", "/y"), false);
    t.insert_found(found("mlx/a", "/z"), false);
    let ids: Vec<String> = t.into_models().into_iter().map(|m| m.id).collect();
    assert_eq!(ids, vec!["Mlx/a", "mlx/a", "mlx/b"]);
}
