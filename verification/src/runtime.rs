//! The protocol with the local MLX worker: where a request goes, which of its
//! fields leave the machine's offline worker, and what a reply line means.
use vstd::prelude::*;
use vstd::string::*;
use crate::text::{chars_of, chars_equal_str, opt_text};
use crate::paths::{join, join_exec};
use crate::json::{json_parses, json_text_at, json_unsigned_at, json_bool_at, parses, text_at, unsigned_at, bool_at};

verus! {

/// Where the service sends a request.
#[derive(Clone, Copy, Debug, PartialEq, Eq, Structural)]
pub enum Route {
    /// Install or repair the runtime; the worker is stopped first.
    Setup,
    /// A short-lived worker with network access (model download, catalog refresh).
    Online,
    /// The long-lived offline worker (transcription, rewriting, ping, unload).
    Local,
}

/// The route of a request whose `op` is `op`.
pub open spec fn route_of(op: Seq<char>) -> Route {
    if op == "setup"@ {
        Route::Setup
    } else if op == "download"@ || op == "catalog"@ {
        Route::Online
    } else {
        Route::Local
    }
}

/// The route of a request whose `op` is `op`.
pub fn route(op: &str) -> (r: Route)
    ensures
        r == route_of(op@),
{
    let c = chars_of(op);
    if chars_equal_str(&c, "setup") {
        Route::Setup
    } else if chars_equal_str(&c, "download") || chars_equal_str(&c, "catalog") {
        Route::Online
    } else {
        Route::Local
    }
}

/// The request fields an online worker receives: the operation, and for a
/// download the repository to fetch. Audio paths and text never go online.
pub open spec fn online_field_names(op: Seq<char>) -> Seq<&'static str> {
    if op == "download"@ {
        seq!["op", "repo"]
    } else {
        seq!["op"]
    }
}

/// The request fields forwarded to an online worker for operation `op`.
pub fn online_fields(op: &str) -> (r: Vec<&'static str>)
    ensures
        r@ == online_field_names(op@),
{
    let c = chars_of(op);
    if chars_equal_str(&c, "download") {
        let v = vec!["op", "repo"];
        assert(v@ =~= seq!["op", "repo"]);
        v
    } else {
        let v = vec!["op"];
        assert(v@ =~= seq!["op"]);
        v
    }
}

/// Only the operation and a repository name are ever sent to an online worker.
pub proof fn lemma_online_requests_carry_no_content(op: Seq<char>, i: int)
    requires
        0 <= i < online_field_names(op).len(),
    ensures
        online_field_names(op)[i] == "op" || online_field_names(op)[i] == "repo",
{
}

/// Whether a queued request is still the one the desk waits for: a request whose
/// id is no longer the active one was cancelled or superseded and is dropped.
pub fn request_is_current(active: u64, id: u64) -> (r: bool)
    ensures
        r == (active == id),
{
    active == id
}

/// How long the command line waits for a request, in seconds: an hour for runtime
/// setup, ten minutes for anything else.
pub fn request_timeout_secs(op: &str) -> (r: u64)
    ensures
        r == (if op@ == "setup"@ {
            3600u64
        } else {
            600u64
        }),
{
    if chars_equal_str(&chars_of(op), "setup") {
        3600
    } else {
        600
    }
}

/// What the service reads from one reply line of the worker.
#[derive(Clone, Debug)]
pub struct WorkerReply {
    /// `event` when it is a string.
    pub event: Option<String>,
    /// `message` when it is a string.
    pub message: Option<String>,
    /// `id` when it is an unsigned integer.
    pub id: Option<u64>,
    /// `ok` when it is a boolean.
    pub ok: Option<bool>,
    /// `error` when it is a string.
    pub error: Option<String>,
}

/// Reads one reply line of the worker: `None` when it is not JSON; else its
/// `event`, `message` and `error` strings, its unsigned `id` and its boolean
/// `ok`, each `None` when missing or of another type.
pub fn parse_reply(line: &str) -> (r: Option<WorkerReply>)
    ensures
        r is Some <==> json_parses(line.spec_bytes()),
        r matches Some(w) ==> {
            &&& opt_text(w.event) == json_text_at(line.spec_bytes(), "/event"@)
            &&& opt_text(w.message) == json_text_at(line.spec_bytes(), "/message"@)
            &&& w.id == json_unsigned_at(line.spec_bytes(), "/id"@)
            &&& w.ok == json_bool_at(line.spec_bytes(), "/ok"@)
            &&& opt_text(w.error) == json_text_at(line.spec_bytes(), "/error"@)
        },
{
    let text = line.as_bytes();
    if !parses(text) {
        return None;
    }
    Some(
        WorkerReply {
            event: text_at(text, "/event"),
            message: text_at(text, "/message"),
            id: unsigned_at(text, "/id"),
            ok: bool_at(text, "/ok"),
            error: text_at(text, "/error"),
        },
    )
}

/// What a reply line means for the request it answers.
#[derive(Clone, Debug)]
pub enum ReplyAction {
    /// A progress report to show; the request goes on.
    Progress(String),
    /// The request failed with this message.
    Failed(String),
    /// The request succeeded; its `result` is the answer.
    Done,
}

/// The reply is a progress report.
pub open spec fn is_progress(r: WorkerReply) -> bool {
    r.event matches Some(e) && e@ == "progress"@
}

/// `text` when present, else `fallback`.
pub open spec fn text_or(text: Option<String>, fallback: Seq<char>) -> Seq<char> {
    match text {
        Some(t) => t@,
        None => fallback,
    }
}

/// Reads a reply line of request `id`: progress reports first; then a reply for
/// another id is a protocol error; then anything but `ok: true` is a failure with
/// the worker's error message; else the request is done.
pub fn classify_reply(reply: &WorkerReply, id: u64) -> (a: ReplyAction)
    ensures
        is_progress(*reply) ==> (a matches ReplyAction::Progress(m) && m@ == text_or(reply.message, "Working\u{2026}"@)),
        !is_progress(*reply) && reply.id != Some(id) ==> (a matches ReplyAction::Failed(m) && m@ == "MLX response ID mismatch"@),
        !is_progress(*reply) && reply.id == Some(id) && reply.ok != Some(true) ==> (a matches ReplyAction::Failed(m) && m@ == text_or(reply.error, "MLX failed"@)),
        !is_progress(*reply) && reply.id == Some(id) && reply.ok == Some(true) ==> a is Done,
{
    let progress = match &reply.event {
        Some(e) => chars_equal_str(&chars_of(e.as_str()), "progress"),
        None => false,
    };
    if progress {
        return ReplyAction::Progress(
            match &reply.message {
                Some(m) => m.clone(),
                None => String::from_str("Working\u{2026}"),
            },
        );
    }
    let same_id = match reply.id {
        Some(i) => i == id,
        None => false,
    };
    if !same_id {
        return ReplyAction::Failed(String::from_str("MLX response ID mismatch"));
    }
    let ok = match reply.ok {
        Some(b) => b,
        None => false,
    };
    if !ok {
        return ReplyAction::Failed(
            match &reply.error {
                Some(e) => e.clone(),
                None => String::from_str("MLX failed"),
            },
        );
    }
    ReplyAction::Done
}

/// The worker's diagnostic line as kept in memory: its first 1000 characters.
pub fn diagnostic_tail(line: &str) -> (r: String)
    ensures
        r@ == (if line@.len() <= 1000 {
            line@
        } else {
            line@.subrange(0, 1000)
        }),
{
    let n = line.unicode_len();
    let end: usize = if n <= 1000 {
        n
    } else {
        1000
    };
    let r = String::from_str(line.substring_char(0, end));
    assert(n <= 1000 ==> line@.subrange(0, n as int) =~= line@);
    r
}

/// The interpreter of the runtime installed under the data directory.
pub open spec fn installed_python_path(data_dir: Seq<char>) -> Seq<char> {
    join(data_dir, "runtime/.venv/bin/python"@)
}

/// The interpreter of the runtime installed under the data directory `data_dir`.
pub fn installed_python(data_dir: &str) -> (r: String)
    ensures
        r@ == installed_python_path(data_dir@),
{
    join_exec(data_dir, "runtime/.venv/bin/python")
}

/// The interpreter the worker runs with: `FASTAF_PYTHON` when set, else the
/// runtime installed under the data directory when it exists, else the worker
/// folder's own environment.
pub open spec fn python_choice(
    env_python: Option<Seq<char>>,
    data_dir: Seq<char>,
    installed_exists: bool,
    worker_dir: Seq<char>,
) -> Seq<char> {
    match env_python {
        Some(p) => p,
        None => if installed_exists {
            installed_python_path(data_dir)
        } else {
            join(worker_dir, ".venv/bin/python"@)
        },
    }
}

/// The interpreter the worker runs with.
pub fn python_path(env_python: Option<String>, data_dir: &str, installed_exists: bool, worker_dir: &str) -> (r: String)
    ensures
        r@ == python_choice(
            match env_python {
                Some(p) => Some(p@),
                None => None,
            },
            data_dir@,
            installed_exists,
            worker_dir@,
        ),
{
    match env_python {
        Some(p) => p,
        None => if installed_exists {
            installed_python(data_dir)
        } else {
            join_exec(worker_dir, ".venv/bin/python")
        },
    }
}

/// Where the `uv` installer is looked for, in order: beside the worker, the two
/// Homebrew locations, `~/.local/bin`, then each `PATH` directory.
pub open spec fn uv_places(worker_dir: Seq<char>, home: Option<Seq<char>>, path_dirs: Seq<String>) -> Seq<Seq<char>> {
    seq![join(worker_dir, "uv"@), "/opt/homebrew/bin/uv"@, "/usr/local/bin/uv"@] + (match home {
        Some(h) => seq![join(h, ".local/bin/uv"@)],
        None => Seq::empty(),
    }) + path_dirs.map_values(|d: String| join(d@, "uv"@))
}

/// The places where the `uv` installer is looked for, in order.
pub fn uv_candidates(worker_dir: &str, home: Option<&str>, path_dirs: &Vec<String>) -> (r: Vec<String>)
    ensures
        r@.map_values(|s: String| s@) == uv_places(
            worker_dir@,
            match home {
                Some(h) => Some(h@),
                None => None,
            },
            path_dirs@,
        ),
{
    let ghost target = uv_places(
        worker_dir@,
        match home {
            Some(h) => Some(h@),
            None => None,
        },
        path_dirs@,
    );
    let mut r: Vec<String> = Vec::new();
    r.push(join_exec(worker_dir, "uv"));
    r.push(String::from_str("/opt/homebrew/bin/uv"));
    r.push(String::from_str("/usr/local/bin/uv"));
    if let Some(h) = home {
        r.push(join_exec(h, ".local/bin/uv"));
    }
    let base: usize = r.len();
    assert(r@.map_values(|s: String| s@) =~= target.take(base as int));
    let mut i: usize = 0;
    while i < path_dirs.len()
        invariant
            i <= path_dirs@.len(),
            base + path_dirs@.len() == target.len(),
            r@.map_values(|s: String| s@) =~= target.take(base + i),
            forall|k: int| 0 <= k < path_dirs@.len() ==> target[base + k] == join(path_dirs@[k]@, "uv"@),
        decreases path_dirs@.len() - i,
    {
        let ghost before = r@.map_values(|s: String| s@);
        let x = join_exec(path_dirs[i].as_str(), "uv");
        r.push(x);
        assert(r@.map_values(|s: String| s@) =~= before.push(x@));
        i += 1;
    }
    assert(target.take(base + path_dirs@.len()) =~= target);
    r
}

/// The arguments the worker is started with: unbuffered output, the engine
/// script, and for network work `--online --once`.
pub open spec fn worker_arg_list(worker_dir: Seq<char>, online: bool) -> Seq<Seq<char>> {
    seq!["-u"@, join(worker_dir, "engine.py"@)] + (if online {
        seq!["--online"@, "--once"@]
    } else {
        Seq::empty()
    })
}

/// The arguments the worker is started with.
pub fn worker_args(worker_dir: &str, online: bool) -> (r: Vec<String>)
    ensures
        r@.map_values(|s: String| s@) == worker_arg_list(worker_dir@, online),
{
    let mut r: Vec<String> = Vec::new();
    r.push(String::from_str("-u"));
    r.push(join_exec(worker_dir, "engine.py"));
    if online {
        r.push(String::from_str("--online"));
        r.push(String::from_str("--once"));
    }
    assert(r@.map_values(|s: String| s@) =~= worker_arg_list(worker_dir@, online));
    r
}

} // verus!
