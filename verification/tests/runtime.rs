use fastaf_flow::runtime::{
    classify_reply, diagnostic_tail, installed_python, online_fields, python_path, request_is_current,
    request_timeout_secs, route, uv_candidates, worker_args, ReplyAction, Route, WorkerReply,
};

fn reply(event: Option<&str>, id: Option<u64>, ok: Option<bool>) -> WorkerReply {
    WorkerReply {
        event: event.map(String::from),
        message: None,
        id,
        ok,
        error: None,
    }
}

#[test]
fn requests_are_routed() {
    assert_eq!(route("setup"), Route::Setup);
    assert_eq!(route("download"), Route::Online);
    assert_eq!(route("catalog"), Route::Online);
    assert_eq!(route("transcribe"), Route::Local);
    assert_eq!(route(""), Route::Local);
}

#[test]
fn online_workers_get_no_content() {
    assert_eq!(online_fields("download"), vec!["op", "repo"]);
    assert_eq!(online_fields("catalog"), vec!["op"]);
    assert!(request_is_current(4, 4));
    assert!(!request_is_current(0, 4));
    assert_eq!(request_timeout_secs("setup"), 3600);
    assert_eq!(request_timeout_secs("ping"), 600);
}

#[test]
fn replies_are_classified() {
    let mut p = reply(Some("progress"), None, None);
    assert!(matches!(classify_reply(&p, 3), ReplyAction::Progress(m) if m == "Working\u{2026}"));
    p.message = Some("50%".into());
    assert!(matches!(classify_reply(&p, 3), ReplyAction::Progress(m) if m == "50%"));
    assert!(matches!(classify_reply(&reply(None, Some(2), Some(true)), 3), ReplyAction::Failed(m) if m == "MLX response ID mismatch"));
    assert!(matches!(classify_reply(&reply(None, None, Some(true)), 3), ReplyAction::Failed(m) if m == "MLX response ID mismatch"));
    let mut f = reply(None, Some(3), Some(false));
    assert!(matches!(classify_reply(&f, 3), ReplyAction::Failed(m) if m == "MLX failed"));
    f.error = Some("out of memory".into());
    assert!(matches!(classify_reply(&f, 3), ReplyAction::Failed(m) if m == "out of memory"));
    assert!(matches!(classify_reply(&reply(Some("done"), Some(3), Some(true)), 3), ReplyAction::Done));
}

#[test]
fn diagnostics_keep_a_bounded_tail() {
    assert_eq!(diagnostic_tail("short"), "short");
    let long: String = "é".repeat(1500);
    let tail = diagnostic_tail(&long);
    assert_eq!(tail.chars().count(), 1000);
    assert_eq!(tail, "é".repeat(1000));
}

#[test]
fn interpreter_and_installer_locations() {
    assert_eq!(installed_python("/d"), "/d/runtime/.venv/bin/python");
    assert_eq!(python_path(Some("/py".into()), "/d", true, "/w"), "/py");
    assert_eq!(python_path(None, "/d", true, "/w"), "/d/runtime/.venv/bin/python");
    assert_eq!(python_path(None, "/d", false, "/w/"), "/w/.venv/bin/python");
    let c = uv_candidates("/w", Some("/home/u"), &vec!["/bin".into(), "".into()]);
    assert_eq!(
        c,
        vec!["/w/uv", "/opt/homebrew/bin/uv", "/usr/local/bin/uv", "/home/u/.local/bin/uv", "/bin/uv", "uv"]
    );
    assert_eq!(uv_candidates("/w", None, &vec![]).len(), 3);
    assert_eq!(worker_args("/w", false), vec!["-u", "/w/engine.py"]);
    assert_eq!(worker_args("/w", true), vec!["-u", "/w/engine.py", "--online", "--once"]);
}

use fastaf_flow::runtime::parse_reply;

#[test]
fn reply_lines_are_read_from_json() {
    let r = parse_reply(r#"{"id":4,"ok":true,"result":{"text":"hi"}}"#).unwrap();
    assert_eq!(r.id, Some(4));
    assert_eq!(r.ok, Some(true));
    assert!(r.event.is_none() && r.message.is_none() && r.error.is_none());
    assert!(matches!(classify_reply(&r, 4), ReplyAction::Done));
    let r = parse_reply(r#"{"event":"progress","message":"Loading\u2026","id":4}"#).unwrap();
    assert!(matches!(classify_reply(&r, 4), ReplyAction::Progress(m) if m == "Loading\u{2026}"));
    let r = parse_reply(r#"{"id":"4","ok":"yes","error":"bad"}"#).unwrap();
    assert_eq!((r.id, r.ok), (None, None));
    assert_eq!(r.error.as_deref(), Some("bad"));
    assert!(parse_reply("Traceback (most recent call last):").is_none());
}
