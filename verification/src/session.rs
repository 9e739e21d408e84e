//! How the dictation desk reacts: which models it selects, when it records,
//! when a transcript is rewritten, and how long it waits for the worker.
use vstd::prelude::*;
use vstd::string::*;
use crate::catalog::{
    Kind,
    Memory,
    Model,
    budget_units,
    find_selected,
    first_installed,
    has_installed,
    model_units,
    pick_model,
    recommended_index,
};
use crate::settings::Settings;
use crate::text::{chars_of, chars_equal_str, decimal, lowercase, opt_text, push_decimal, to_lowercase};

verus! {

/// The transcript is English as far as rewriting cares: the chosen language is
/// automatic or English, and the detected language (lowercased) is English.
pub open spec fn english(language: Seq<char>, detected_lower: Seq<char>) -> bool {
    &&& (language == "auto"@ || language == "en"@)
    &&& (detected_lower == "en"@ || detected_lower == "english"@)
}

/// Whether a finished transcript goes on to S1-mini: rewriting is on, there is
/// text, and the transcript is English (an undetected language counts as "en").
pub open spec fn rewrites(
    auto_rewrite: bool,
    language: Seq<char>,
    detected: Option<Seq<char>>,
    text: Seq<char>,
) -> bool {
    &&& auto_rewrite
    &&& text.len() > 0
    &&& english(
        language,
        lowercase(
            match detected {
                Some(d) => d,
                None => "en"@,
            },
        ),
    )
}

/// Whether a finished transcript should be rewritten by S1-mini.
pub fn should_rewrite(auto_rewrite: bool, language: &str, detected: Option<&str>, text: &str) -> (r: bool)
    ensures
        r == rewrites(
            auto_rewrite,
            language@,
            match detected {
                Some(d) => Some(d@),
                None => None,
            },
            text@,
        ),
{
    let lower = match detected {
        Some(d) => to_lowercase(d),
        None => to_lowercase("en"),
    };
    auto_rewrite && text.unicode_len() > 0 && is_english(language, lower.as_str())
}

/// Whether a transcript counts as English, given the chosen language and the
/// detected language already lowercased.
pub fn is_english(language: &str, detected_lower: &str) -> (r: bool)
    ensures
        r == english(language@, detected_lower@),
{
    let l = chars_of(detected_lower);
    let lang = chars_of(language);
    (chars_equal_str(&lang, "auto") || chars_equal_str(&lang, "en")) && (chars_equal_str(&l, "en")
        || chars_equal_str(&l, "english"))
}

/// Choosing a specific language other than English skips rewriting.
pub proof fn lemma_other_language_not_rewritten(
    auto_rewrite: bool,
    language: Seq<char>,
    detected: Option<Seq<char>>,
    text: Seq<char>,
)
    requires
        language != "auto"@,
        language != "en"@,
    ensures
        !rewrites(auto_rewrite, language, detected, text),
{
}

/// With rewriting off, or without text, nothing is rewritten.
pub proof fn lemma_no_rewrite_without_request(language: Seq<char>, detected: Option<Seq<char>>, text: Seq<char>)
    ensures
        !rewrites(false, language, detected, text),
        !rewrites(true, language, detected, Seq::empty()),
{
}

/// The id selected for `kind` after defaults are applied: the configured id when a
/// downloaded model has it, else the recommendation when it is downloaded, else
/// the configured id unchanged.
pub open spec fn selected_after(models: Seq<Model>, kind: Kind, current: Seq<char>, memory: Memory) -> Seq<char> {
    if has_installed(models, current) {
        current
    } else {
        match recommended_index(models, kind, memory) {
            Some(i) => if models[i].path is Some {
                models[i].id@
            } else {
                current
            },
            None => current,
        }
    }
}

/// Applies the machine's recommendation to the model choices that do not name a
/// downloaded model; other settings are kept.
pub fn select_defaults(settings: &mut Settings, models: &[Model], memory: Memory)
    ensures
        final(settings).speech_model@ == selected_after(models@, Kind::Speech, old(settings).speech_model@, memory),
        final(settings).rewrite_model@ == selected_after(models@, Kind::Rewrite, old(settings).rewrite_model@, memory),
        final(settings).auto_rewrite == old(settings).auto_rewrite,
        final(settings).auto_paste == old(settings).auto_paste,
        final(settings).hold_to_talk == old(settings).hold_to_talk,
        final(settings).styling == old(settings).styling,
        final(settings).structure == old(settings).structure,
        final(settings).context == old(settings).context,
        final(settings).language == old(settings).language,
        final(settings).model_roots == old(settings).model_roots,
{
    if let Some(m) = pick_model(models, Kind::Speech, settings.speech_model.as_str(), memory) {
        settings.speech_model = m.id.clone();
    }
    if let Some(m) = pick_model(models, Kind::Rewrite, settings.rewrite_model.as_str(), memory) {
        settings.rewrite_model = m.id.clone();
    }
}

/// At most one index is the first downloaded model with a given id.
pub proof fn lemma_first_installed_unique(models: Seq<Model>, id: Seq<char>, i: int, j: int)
    requires
        first_installed(models, id, i),
        first_installed(models, id, j),
    ensures
        i == j,
{
    if i < j {
        assert(models[i].id@ == id && models[i].path is Some);
    } else if j < i {
        assert(models[j].id@ == id && models[j].path is Some);
    }
}

/// The estimated memory, in millionths of a byte, of the downloaded model selected
/// by `id` (zero when none is).
pub open spec fn selected_units(models: Seq<Model>, id: Seq<char>) -> nat {
    if has_installed(models, id) {
        model_units(models[choose|i: int| first_installed(models, id, i)])
    } else {
        0
    }
}

/// The estimated memory of the selected pair of models.
pub open spec fn pair_units(models: Seq<Model>, s: Settings) -> nat {
    selected_units(models, s.speech_model@) + selected_units(models, s.rewrite_model@)
}

fn selected_estimate(models: &[Model], id: &str) -> (r: u128)
    ensures
        r == selected_units(models@, id@),
        r <= 1_350_000u128 * 0xffff_ffff_ffff_ffffu128 + 1_000_000u128 * 1073741824u128,
{
    match find_selected(models, id) {
        Some(m) => {
            proof {
                let i = choose|i: int| first_installed(models@, id@, i) && *m == models@[i];
                let c = choose|i: int| first_installed(models@, id@, i);
                lemma_first_installed_unique(models@, id@, i, c);
            }
            let e = m.estimated_microbytes();
            proof {
                crate::catalog::lemma_units_bound(*m);
            }
            e
        },
        None => 0,
    }
}

/// The estimated memory of the selected speech and rewriting models, in millionths
/// of a byte.
pub fn selected_pair_estimate(models: &[Model], settings: &Settings) -> (r: u128)
    ensures
        r == pair_units(models@, *settings),
{
    let a = selected_estimate(models, settings.speech_model.as_str());
    let b = selected_estimate(models, settings.rewrite_model.as_str());
    a + b
}

/// Whether both selected models stay loaded between stages: their estimated memory
/// together stays below the budget; otherwise the worker releases them in turn.
pub fn keep_models(models: &[Model], settings: &Settings, memory: Memory) -> (r: bool)
    ensures
        r == (pair_units(models@, *settings) < budget_units(memory)),
{
    selected_pair_estimate(models, settings) < memory.budget()
}

/// A press or release of the global dictation shortcut.
#[derive(Clone, Copy, Debug, PartialEq, Eq, Structural)]
pub enum HotkeyEvent {
    Pressed,
    Released,
}

/// The shortcut's state after an event, and whether recording toggles.
#[derive(Clone, Copy, Debug, PartialEq, Eq, Structural)]
pub struct HotkeyStep {
    pub down: bool,
    pub toggle: bool,
}

/// How the shortcut reacts. A press while the key is already down (key repeat) does
/// nothing. In toggle mode a press starts or finishes recording and a release does
/// nothing; in hold-to-talk mode a press starts recording and a release finishes it.
pub open spec fn hotkey_step(down: bool, event: HotkeyEvent, hold_to_talk: bool, recording: bool) -> HotkeyStep {
    match event {
        HotkeyEvent::Pressed => if down {
            HotkeyStep { down: true, toggle: false }
        } else {
            HotkeyStep { down: true, toggle: !hold_to_talk || !recording }
        },
        HotkeyEvent::Released => HotkeyStep { down: false, toggle: hold_to_talk && recording },
    }
}

/// The shortcut's next state for `event`.
pub fn on_hotkey(down: bool, event: HotkeyEvent, hold_to_talk: bool, recording: bool) -> (r: HotkeyStep)
    ensures
        r == hotkey_step(down, event, hold_to_talk, recording),
{
    match event {
        HotkeyEvent::Pressed => {
            if down {
                HotkeyStep { down: true, toggle: false }
            } else {
                HotkeyStep { down: true, toggle: !hold_to_talk || !recording }
            }
        },
        HotkeyEvent::Released => HotkeyStep { down: false, toggle: hold_to_talk && recording },
    }
}

/// In hold-to-talk mode a press only ever starts a recording and a release only
/// ever finishes one.
pub proof fn lemma_hold_to_talk(down: bool, recording: bool)
    ensures
        hotkey_step(down, HotkeyEvent::Pressed, true, recording).toggle ==> !recording,
        hotkey_step(down, HotkeyEvent::Released, true, recording).toggle <==> recording,
{
}

/// In toggle mode a release never toggles, and a fresh press always does.
pub proof fn lemma_toggle_mode(down: bool, recording: bool)
    ensures
        !hotkey_step(down, HotkeyEvent::Released, false, recording).toggle,
        hotkey_step(false, HotkeyEvent::Pressed, false, recording).toggle,
{
}

/// Key repeat (a press while held) never toggles; a release always lifts the key.
pub proof fn lemma_key_repeat(hold_to_talk: bool, recording: bool, down: bool)
    ensures
        hotkey_step(true, HotkeyEvent::Pressed, hold_to_talk, recording) == (HotkeyStep { down: true, toggle: false }),
        !hotkey_step(down, HotkeyEvent::Released, hold_to_talk, recording).down,
{
}

/// What the record control does when used.
#[derive(Clone, Copy, Debug, PartialEq, Eq, Structural)]
pub enum RecordAction {
    /// A job is running: nothing happens.
    Ignore,
    /// A recording is running: it is finished and transcribed.
    Finish,
    /// The runtime is not ready: the Setup tab opens.
    NeedRuntime,
    /// No downloaded speech model is selected: the Models tab opens.
    NeedSpeechModel,
    /// A new recording starts.
    Start,
}

/// The record control's response, checked in this order: a running job, a running
/// recording, the runtime, the speech model.
pub open spec fn record_response(job_running: bool, recording: bool, runtime_ready: bool, speech_selected: bool) -> RecordAction {
    if job_running {
        RecordAction::Ignore
    } else if recording {
        RecordAction::Finish
    } else if !runtime_ready {
        RecordAction::NeedRuntime
    } else if !speech_selected {
        RecordAction::NeedSpeechModel
    } else {
        RecordAction::Start
    }
}

/// What the record control does now.
pub fn record_action(job_running: bool, recording: bool, runtime_ready: bool, speech_selected: bool) -> (r: RecordAction)
    ensures
        r == record_response(job_running, recording, runtime_ready, speech_selected),
{
    if job_running {
        RecordAction::Ignore
    } else if recording {
        RecordAction::Finish
    } else if !runtime_ready {
        RecordAction::NeedRuntime
    } else if !speech_selected {
        RecordAction::NeedSpeechModel
    } else {
        RecordAction::Start
    }
}

/// A recording only starts when nothing runs, the runtime is ready and a speech
/// model is selected.
pub proof fn lemma_start_needs_everything(job_running: bool, recording: bool, runtime_ready: bool, speech_selected: bool)
    ensures
        record_response(job_running, recording, runtime_ready, speech_selected) == RecordAction::Start
            <==> (!job_running && !recording && runtime_ready && speech_selected),
{
}

/// The kinds of work the desk hands to the worker.
#[derive(Clone, Copy, Debug, PartialEq, Eq, Structural)]
pub enum JobKind {
    Setup,
    Check,
    Transcribe,
    Rewrite,
    Download,
    Catalog,
    Unload,
}

/// The status line shown while a job of `kind` runs.
pub open spec fn job_status(kind: JobKind) -> Seq<char> {
    match kind {
        JobKind::Setup => "Installing local runtime\u{2026}"@,
        JobKind::Check => "Checking MLX runtime\u{2026}"@,
        JobKind::Transcribe => "Transcribing locally\u{2026}"@,
        JobKind::Rewrite => "Rewriting locally\u{2026}"@,
        JobKind::Download => "Starting download\u{2026}"@,
        JobKind::Catalog => "Refreshing model library\u{2026}"@,
        JobKind::Unload => "Releasing model memory\u{2026}"@,
    }
}

/// The status line shown while a job of `kind` runs.
pub fn status_text(kind: JobKind) -> (r: &'static str)
    ensures
        r@ == job_status(kind),
{
    match kind {
        JobKind::Setup => "Installing local runtime\u{2026}",
        JobKind::Check => "Checking MLX runtime\u{2026}",
        JobKind::Transcribe => "Transcribing locally\u{2026}",
        JobKind::Rewrite => "Rewriting locally\u{2026}",
        JobKind::Download => "Starting download\u{2026}",
        JobKind::Catalog => "Refreshing model library\u{2026}",
        JobKind::Unload => "Releasing model memory\u{2026}",
    }
}

/// How long a job may run before the desk cancels it: an hour for downloads and
/// runtime setup, ten minutes otherwise.
pub open spec fn job_timeout(kind: JobKind) -> u64 {
    if kind == JobKind::Download || kind == JobKind::Setup {
        3600
    } else {
        600
    }
}

/// The timeout of a job of `kind`, in seconds.
pub fn timeout_secs(kind: JobKind) -> (r: u64)
    ensures
        r == job_timeout(kind),
{
    if kind == JobKind::Download || kind == JobKind::Setup {
        3600
    } else {
        600
    }
}

/// How soon the window redraws, in milliseconds: about 30 times a second while
/// recording (the meter moves), ten times while a job runs, else every 30 s.
pub open spec fn repaint_delay(recording: bool, job_running: bool) -> u64 {
    if recording {
        33
    } else if job_running {
        100
    } else {
        30_000
    }
}

/// The redraw delay, in milliseconds.
pub fn repaint_after_ms(recording: bool, job_running: bool) -> (r: u64)
    ensures
        r == repaint_delay(recording, job_running),
{
    if recording {
        33
    } else if job_running {
        100
    } else {
        30_000
    }
}

/// `m:ss` for `secs` seconds (what `format!("{}:{:02}", secs / 60, secs % 60)` prints).
pub open spec fn clock(secs: nat) -> Seq<char> {
    let s = secs % 60;
    decimal(secs / 60) + ":"@ + (if s < 10 {
        "0"@ + decimal(s)
    } else {
        decimal(s)
    })
}

/// The elapsed-time label of a recording.
pub fn clock_text(secs: u64) -> (r: String)
    ensures
        r@ == clock(secs as nat),
{
    let mut r = String::new();
    push_decimal(&mut r, secs / 60);
    r.append(":");
    let s = secs % 60;
    if s < 10 {
        r.append("0");
    }
    push_decimal(&mut r, s);
    r
}

/// The largest WAV file the desk imports, in bytes (about five minutes of audio).
pub const MAX_IMPORT_BYTES: u64 = 150_000_000;

/// Whether a WAV file of `len` bytes may be imported.
pub fn import_allowed(len: u64) -> (r: bool)
    ensures
        r == (len <= MAX_IMPORT_BYTES),
{
    len <= MAX_IMPORT_BYTES
}

/// The label shown for `selected` among `(value, label)` choices: the label of the
/// first choice with that value, else the value itself.
pub open spec fn choice_text(values: Seq<(&'static str, &'static str)>, selected: Seq<char>) -> Seq<char>
    decreases values.len(),
{
    if values.len() == 0 {
        selected
    } else if values[0].0@ == selected {
        values[0].1@
    } else {
        choice_text(values.drop_first(), selected)
    }
}

/// The label shown for `selected` among `(value, label)` choices.
pub fn choice_label<'a>(values: &Vec<(&'static str, &'static str)>, selected: &'a str) -> (r: &'a str)
    ensures
        r@ == choice_text(values@, selected@),
{
    let s = chars_of(selected);
    let mut i: usize = 0;
    assert(values@.skip(0) =~= values@);
    while i < values.len()
        invariant
            i <= values.len(),
            s@ == selected@,
            choice_text(values@, selected@) == choice_text(values@.skip(i as int), selected@),
        decreases values.len() - i,
    {
        let (value, label) = values[i];
        assert(values@.skip(i as int)[0] == values@[i as int]);
        if chars_equal_str(&s, value) {
            return label;
        }
        assert(values@.skip(i as int).drop_first() =~= values@.skip(i + 1));
        i += 1;
    }
    selected
}

/// The editable text and the raw transcript it came from.
#[derive(Clone, Debug)]
pub struct Transcript {
    pub text: String,
    pub raw: String,
}

/// What happens to the text.
#[derive(Clone, Debug)]
pub enum TranscriptEvent {
    /// The speech model returned this transcript.
    Transcribed(String),
    /// A rewrite of the current text was requested.
    RewriteStarted,
    /// S1-mini returned this text.
    Rewritten(String),
    /// An operation failed or was cancelled.
    Failed,
    /// The user restored the raw transcript.
    Restored,
    /// The user cleared the text.
    Cleared,
}

/// The text and raw transcript after `e`: a transcript replaces both; a rewrite
/// request keeps the current text as the raw one; a rewrite replaces only the text;
/// a failure changes nothing; restoring brings the raw transcript back; clearing
/// empties both.
pub open spec fn transcript_after(text: Seq<char>, raw: Seq<char>, e: TranscriptEvent) -> (Seq<char>, Seq<char>) {
    match e {
        TranscriptEvent::Transcribed(t) => (t@, t@),
        TranscriptEvent::RewriteStarted => (text, text),
        TranscriptEvent::Rewritten(t) => (t@, raw),
        TranscriptEvent::Failed => (text, raw),
        TranscriptEvent::Restored => (raw, raw),
        TranscriptEvent::Cleared => (Seq::empty(), Seq::empty()),
    }
}

impl Transcript {
    /// No text yet.
    pub fn new() -> (t: Transcript)
        ensures
            t.text@ == Seq::<char>::empty(),
            t.raw@ == Seq::<char>::empty(),
    {
        Transcript { text: String::new(), raw: String::new() }
    }

    /// Applies `e` to the text.
    pub fn apply(&mut self, e: TranscriptEvent)
        ensures
            (final(self).text@, final(self).raw@) == transcript_after(old(self).text@, old(self).raw@, e),
    {
        match e {
            TranscriptEvent::Transcribed(t) => {
                self.raw = t.clone();
                self.text = t;
            },
            TranscriptEvent::RewriteStarted => {
                self.raw = self.text.clone();
            },
            TranscriptEvent::Rewritten(t) => {
                self.text = t;
            },
            TranscriptEvent::Failed => {},
            TranscriptEvent::Restored => {
                self.text = self.raw.clone();
            },
            TranscriptEvent::Cleared => {
                self.text = String::new();
                self.raw = String::new();
            },
        }
    }
}

/// A failed or cancelled operation never changes the text or the raw transcript.
pub proof fn lemma_failure_preserves_text(text: Seq<char>, raw: Seq<char>)
    ensures
        transcript_after(text, raw, TranscriptEvent::Failed) == (text, raw),
{
}

/// Restoring after a rewrite brings back exactly what the speech model returned.
pub proof fn lemma_restore_after_rewrite(text: Seq<char>, raw: Seq<char>, t: String, u: String)
    ensures
        ({
            let a = transcript_after(text, raw, TranscriptEvent::Transcribed(t));
            let b = transcript_after(a.0, a.1, TranscriptEvent::Rewritten(u));
            transcript_after(b.0, b.1, TranscriptEvent::Restored).0 == t@
        }),
{
}

/// Rewriting edited text and then restoring gives back the edited text.
pub proof fn lemma_restore_after_manual_rewrite(text: Seq<char>, raw: Seq<char>, u: String)
    ensures
        ({
            let a = transcript_after(text, raw, TranscriptEvent::RewriteStarted);
            let b = transcript_after(a.0, a.1, TranscriptEvent::Rewritten(u));
            transcript_after(b.0, b.1, TranscriptEvent::Restored).0 == text
        }),
{
}

/// What the worker returned for a finished job, as the desk reads it.
#[derive(Clone, Debug)]
pub struct JobOutput {
    /// `ready` when it is a boolean.
    pub ready: Option<bool>,
    /// `text` when it is a string.
    pub text: Option<String>,
    /// `language` when it is a string.
    pub language: Option<String>,
    /// Whether the result holds `models`.
    pub has_models: bool,
}

/// A report of the worker about request `id`.
#[derive(Clone, Debug)]
pub enum WorkerEvent {
    /// Work goes on; this is its status line.
    Progress(u64, String),
    /// The request failed with this message.
    Failed(u64, String),
    /// The request finished with this output.
    Done(u64, JobOutput),
}

/// The pages of the desk's window.
#[derive(Clone, Copy, Debug, PartialEq, Eq, Structural)]
pub enum Tab {
    Dictate,
    Models,
    Setup,
}

/// The state of the dictation desk: the running job, what waits on it, and what
/// the user sees.
#[derive(Clone, Debug)]
pub struct Desk {
    /// The page shown.
    pub tab: Tab,
    /// The running job: its request id and kind.
    pub job: Option<(u64, JobKind)>,
    /// Whether a recording waits to be transcribed.
    pub audio_file: bool,
    /// Whether an app waits for the finished text to be pasted.
    pub target: bool,
    /// Whether the local runtime answered the last check as ready.
    pub ready: bool,
    /// The status line.
    pub status: String,
    /// The error shown to the user.
    pub error: Option<String>,
    /// The text and the raw transcript.
    pub transcript: Transcript,
}

/// The desk as its contracts see it.
pub struct DeskView {
    pub tab: Tab,
    pub job: Option<(u64, JobKind)>,
    pub audio_file: bool,
    pub target: bool,
    pub ready: bool,
    pub status: Seq<char>,
    pub error: Option<Seq<char>>,
    pub text: Seq<char>,
    pub raw: Seq<char>,
}

impl View for Desk {
    type V = DeskView;

    open spec fn view(&self) -> DeskView {
        DeskView {
            tab: self.tab,
            job: self.job,
            audio_file: self.audio_file,
            target: self.target,
            ready: self.ready,
            status: self.status@,
            error: opt_text(self.error),
            text: self.transcript.text@,
            raw: self.transcript.raw@,
        }
    }
}

/// What the desk does next, besides changing its state.
#[derive(Clone, Copy, Debug, PartialEq, Eq, Structural)]
pub enum DeskAction {
    /// Nothing more.
    Nothing,
    /// Start a job of this kind.
    Submit(JobKind),
    /// Send the transcript to S1-mini.
    Rewrite,
    /// The text is final: report it and paste it where asked.
    CompleteText,
    /// Rescan the models and save the settings.
    Reload,
    /// Store the refreshed model library and rescan.
    SaveCatalog,
}

/// The request id an event is about.
pub open spec fn event_id(e: WorkerEvent) -> u64 {
    match e {
        WorkerEvent::Progress(id, _) => id,
        WorkerEvent::Failed(id, _) => id,
        WorkerEvent::Done(id, _) => id,
    }
}

/// Request `id` is the desk's running job.
pub open spec fn is_current(d: DeskView, id: u64) -> bool {
    d.job matches Some((j, _)) && j == id
}

/// The text of an optional string, empty when absent.
pub open spec fn text_or_empty(o: Option<String>) -> Seq<char> {
    match o {
        Some(s) => s@,
        None => Seq::empty(),
    }
}

/// How a finished job of `kind` with output `out` changes the desk `d` (whose
/// job is already cleared), and what follows it.
pub open spec fn job_done(d: DeskView, kind: JobKind, out: JobOutput, auto_rewrite: bool, language: Seq<char>) -> (DeskView, DeskAction) {
    match kind {
        JobKind::Setup => (d, DeskAction::Submit(JobKind::Check)),
        JobKind::Check => if out.ready == Some(true) {
            (DeskView { ready: true, status: "Local MLX runtime ready"@, ..d }, DeskAction::Nothing)
        } else {
            (
                DeskView { ready: false, error: Some("MLX cannot access Metal. Use an Apple Silicon Mac."@), ..d },
                DeskAction::Nothing,
            )
        },
        JobKind::Transcribe => {
            let t = text_or_empty(out.text);
            (
                DeskView { audio_file: false, text: t, raw: t, ..d },
                if rewrites(auto_rewrite, language, opt_text(out.language), t) {
                    DeskAction::Rewrite
                } else {
                    DeskAction::CompleteText
                },
            )
        },
        JobKind::Rewrite => (DeskView { text: text_or_empty(out.text), ..d }, DeskAction::CompleteText),
        JobKind::Download => (
            DeskView { status: "Download complete. Select the model in Dictate."@, ..d },
            DeskAction::Reload,
        ),
        JobKind::Catalog => (d, if out.has_models {
            DeskAction::SaveCatalog
        } else {
            DeskAction::Nothing
        }),
        JobKind::Unload => (DeskView { status: "Model memory released"@, ..d }, DeskAction::Nothing),
    }
}

/// How a worker report changes the desk. Reports about any request but the
/// running job (one that was cancelled, timed out or replaced) change nothing.
/// Progress updates the status line. A failure ends the job, drops the pending
/// recording and paste, keeps the text, and shows the message. A finished job
/// ends and leads to what its kind calls for.
pub open spec fn desk_step(d: DeskView, auto_rewrite: bool, language: Seq<char>, e: WorkerEvent) -> (DeskView, DeskAction) {
    if !is_current(d, event_id(e)) {
        (d, DeskAction::Nothing)
    } else {
        match e {
            WorkerEvent::Progress(_, m) => (DeskView { status: m@, ..d }, DeskAction::Nothing),
            WorkerEvent::Failed(_, m) => (
                DeskView {
                    job: None,
                    audio_file: false,
                    target: false,
                    error: Some(m@),
                    status: "Stopped \u{b7} your text is preserved"@,
                    ..d
                },
                DeskAction::Nothing,
            ),
            WorkerEvent::Done(_, out) => match d.job {
                Some((_, kind)) => job_done(DeskView { job: None, ..d }, kind, out, auto_rewrite, language),
                None => (d, DeskAction::Nothing),
            },
        }
    }
}

fn text_or_new(o: Option<String>) -> (r: String)
    ensures
        r@ == text_or_empty(o),
{
    match o {
        Some(t) => t,
        None => String::new(),
    }
}

/// Applies a worker report to the desk and says what follows.
pub fn on_worker_event(desk: &mut Desk, settings: &Settings, e: WorkerEvent) -> (a: DeskAction)
    ensures
        (final(desk)@, a) == desk_step(old(desk)@, settings.auto_rewrite, settings.language@, e),
        !is_current(old(desk)@, event_id(e)) ==> *final(desk) == *old(desk),
{
    let id = match &e {
        WorkerEvent::Progress(i, _) => *i,
        WorkerEvent::Failed(i, _) => *i,
        WorkerEvent::Done(i, _) => *i,
    };
    let kind = match desk.job {
        Some((j, k)) => {
            if j != id {
                return DeskAction::Nothing;
            }
            k
        },
        None => {
            return DeskAction::Nothing;
        },
    };
    match e {
        WorkerEvent::Progress(_, m) => {
            desk.status = m;
            DeskAction::Nothing
        },
        WorkerEvent::Failed(_, m) => {
            desk.job = None;
            desk.audio_file = false;
            desk.target = false;
            desk.transcript.apply(TranscriptEvent::Failed);
            desk.error = Some(m);
            desk.status = String::from_str("Stopped \u{b7} your text is preserved");
            DeskAction::Nothing
        },
        WorkerEvent::Done(_, out) => {
            desk.job = None;
            match kind {
                JobKind::Setup => DeskAction::Submit(JobKind::Check),
                JobKind::Check => {
                    if out.ready == Some(true) {
                        desk.ready = true;
                        desk.status = String::from_str("Local MLX runtime ready");
                    } else {
                        desk.ready = false;
                        desk.error = Some(String::from_str("MLX cannot access Metal. Use an Apple Silicon Mac."));
                    }
                    DeskAction::Nothing
                },
                JobKind::Transcribe => {
                    desk.audio_file = false;
                    let language = match &out.language {
                        Some(l) => Some(l.as_str()),
                        None => None,
                    };
                    let t = text_or_new(out.text.clone());
                    let rewrite = should_rewrite(settings.auto_rewrite, settings.language.as_str(), language, t.as_str());
                    desk.transcript.apply(TranscriptEvent::Transcribed(t));
                    if rewrite {
                        DeskAction::Rewrite
                    } else {
                        DeskAction::CompleteText
                    }
                },
                JobKind::Rewrite => {
                    let t = text_or_new(out.text);
                    desk.transcript.apply(TranscriptEvent::Rewritten(t));
                    DeskAction::CompleteText
                },
                JobKind::Download => {
                    desk.status = String::from_str("Download complete. Select the model in Dictate.");
                    DeskAction::Reload
                },
                JobKind::Catalog => {
                    if out.has_models {
                        DeskAction::SaveCatalog
                    } else {
                        DeskAction::Nothing
                    }
                },
                JobKind::Unload => {
                    desk.status = String::from_str("Model memory released");
                    DeskAction::Nothing
                },
            }
        },
    }
}

/// The desk after the user cancels: no job, no pending recording or paste, the
/// text kept.
pub open spec fn cancelled(d: DeskView) -> DeskView {
    DeskView {
        job: None,
        audio_file: false,
        target: false,
        status: "Cancelled \u{b7} your text is preserved"@,
        ..d
    }
}

/// Cancels the running job.
pub fn cancel_job(desk: &mut Desk)
    ensures
        final(desk)@ == cancelled(old(desk)@),
{
    desk.job = None;
    desk.audio_file = false;
    desk.target = false;
    desk.status = String::from_str("Cancelled \u{b7} your text is preserved");
}

/// A report about anything but the running job changes nothing.
pub proof fn lemma_stale_reports_ignored(d: DeskView, auto_rewrite: bool, language: Seq<char>, e: WorkerEvent)
    requires
        !is_current(d, event_id(e)),
    ensures
        desk_step(d, auto_rewrite, language, e) == (d, DeskAction::Nothing),
{
}

/// After a cancel, late reports of the cancelled job change nothing.
pub proof fn lemma_cancelled_results_dropped(d: DeskView, auto_rewrite: bool, language: Seq<char>, e: WorkerEvent)
    ensures
        desk_step(cancelled(d), auto_rewrite, language, e) == (cancelled(d), DeskAction::Nothing),
{
}

/// A failed job keeps the text and the raw transcript, ends the job, and shows
/// the worker's message; nothing follows it.
pub proof fn lemma_failure_keeps_text(d: DeskView, auto_rewrite: bool, language: Seq<char>, id: u64, m: String)
    requires
        is_current(d, id),
    ensures
        ({
            let (n, a) = desk_step(d, auto_rewrite, language, WorkerEvent::Failed(id, m));
            &&& n.text == d.text && n.raw == d.raw
            &&& n.job is None && !n.audio_file && !n.target
            &&& n.error == Some(m@)
            &&& a == DeskAction::Nothing
        }),
{
}

/// Each job ends with its first report of completion or failure: a second
/// report about the same request changes nothing.
pub proof fn lemma_job_ends_once(d: DeskView, auto_rewrite: bool, language: Seq<char>, e: WorkerEvent, f: WorkerEvent)
    requires
        is_current(d, event_id(e)),
        !(e is Progress),
        event_id(f) == event_id(e),
    ensures
        ({
            let n = desk_step(d, auto_rewrite, language, e).0;
            n.job is None ==> desk_step(n, auto_rewrite, language, f) == (n, DeskAction::Nothing)
        }),
{
}

/// The desk after the record control was used, given what the control does:
/// without a ready runtime the Setup page opens, without a downloaded speech
/// model the Models page opens, each with a message; otherwise nothing changes
/// here (the caller starts or stops the microphone).
pub open spec fn record_refused(d: DeskView, a: RecordAction) -> DeskView {
    match a {
        RecordAction::NeedRuntime => DeskView {
            tab: Tab::Setup,
            error: Some("Install and check the local runtime first."@),
            ..d
        },
        RecordAction::NeedSpeechModel => DeskView {
            tab: Tab::Models,
            error: Some("Download a speech model or add an existing model folder."@),
            ..d
        },
        _ => d,
    }
}

/// Uses the record control: says what it does (see [`record_action`]) and
/// applies a refusal to the desk.
pub fn use_record_control(desk: &mut Desk, recording: bool, speech_selected: bool) -> (a: RecordAction)
    ensures
        a == record_response(old(desk).job is Some, recording, old(desk).ready, speech_selected),
        final(desk)@ == record_refused(old(desk)@, a),
        !(a is NeedRuntime || a is NeedSpeechModel) ==> *final(desk) == *old(desk),
{
    let a = record_action(desk.job.is_some(), recording, desk.ready, speech_selected);
    match a {
        RecordAction::NeedRuntime => {
            desk.tab = Tab::Setup;
            desk.error = Some(String::from_str("Install and check the local runtime first."));
        },
        RecordAction::NeedSpeechModel => {
            desk.tab = Tab::Models;
            desk.error = Some(String::from_str("Download a speech model or add an existing model folder."));
        },
        _ => {},
    }
    a
}

/// The desk after the microphone was started (`Ok`) or could not be (`Err`
/// with the reason).
pub open spec fn after_start(d: DeskView, started: Result<(), String>) -> DeskView {
    match started {
        Ok(_) => DeskView { error: None, status: "Listening\u{2026}"@, ..d },
        Err(m) => DeskView { error: Some(m@), status: "Microphone unavailable"@, ..d },
    }
}

/// Reports the start of a recording.
pub fn recording_started(desk: &mut Desk, started: Result<(), String>)
    ensures
        final(desk)@ == after_start(old(desk)@, started),
{
    match started {
        Ok(_) => {
            desk.error = None;
            desk.status = String::from_str("Listening\u{2026}");
        },
        Err(m) => {
            desk.error = Some(m);
            desk.status = String::from_str("Microphone unavailable");
        },
    }
}

/// The desk after a recording was stopped, and what follows: a saved
/// recording waits to be transcribed and is sent to the speech model when one
/// is selected; a failed one shows the reason.
pub open spec fn after_stop(d: DeskView, stopped: Result<(), String>, speech_selected: bool) -> (DeskView, DeskAction) {
    match stopped {
        Ok(_) => (DeskView { audio_file: true, ..d }, if speech_selected {
            DeskAction::Submit(JobKind::Transcribe)
        } else {
            DeskAction::Nothing
        }),
        Err(m) => (DeskView { error: Some(m@), status: "Recording stopped"@, ..d }, DeskAction::Nothing),
    }
}

/// Reports the end of a recording (`Ok` when its audio was saved, else the
/// reason) and says what follows.
pub fn recording_stopped(desk: &mut Desk, stopped: Result<(), String>, speech_selected: bool) -> (a: DeskAction)
    ensures
        (final(desk)@, a) == after_stop(old(desk)@, stopped, speech_selected),
{
    match stopped {
        Ok(_) => {
            desk.audio_file = true;
            if speech_selected {
                DeskAction::Submit(JobKind::Transcribe)
            } else {
                DeskAction::Nothing
            }
        },
        Err(m) => {
            desk.error = Some(m);
            desk.status = String::from_str("Recording stopped");
            DeskAction::Nothing
        },
    }
}

/// The desk once request `id` of `kind` was handed to the worker: it is the
/// running job, the error is cleared, and the status names the work.
pub open spec fn job_started(d: DeskView, id: u64, kind: JobKind) -> DeskView {
    DeskView { job: Some((id, kind)), error: None, status: job_status(kind), ..d }
}

/// Records that request `id` of `kind` was handed to the worker.
pub fn start_job(desk: &mut Desk, id: u64, kind: JobKind)
    ensures
        final(desk)@ == job_started(old(desk)@, id, kind),
{
    desk.job = Some((id, kind));
    desk.error = None;
    desk.status = String::from_str(status_text(kind));
}

/// A rewrite asked for: it goes to S1-mini when a rewriting model is selected;
/// otherwise the transcript stays and a message says what to download.
pub open spec fn rewrite_asked(d: DeskView, rewrite_selected: bool) -> (DeskView, DeskAction) {
    if rewrite_selected {
        (d, DeskAction::Submit(JobKind::Rewrite))
    } else {
        (
            DeskView {
                error: Some(
                    "Download S1-mini by Superwhisper in Models to enable rewriting. Your transcript is preserved."@,
                ),
                status: "Transcript ready"@,
                ..d
            },
            DeskAction::Nothing,
        )
    }
}

/// Asks for a rewrite of the text and says what follows.
pub fn request_rewrite(desk: &mut Desk, rewrite_selected: bool) -> (a: DeskAction)
    ensures
        (final(desk)@, a) == rewrite_asked(old(desk)@, rewrite_selected),
{
    if rewrite_selected {
        DeskAction::Submit(JobKind::Rewrite)
    } else {
        desk.error = Some(
            String::from_str(
                "Download S1-mini by Superwhisper in Models to enable rewriting. Your transcript is preserved.",
            ),
        );
        desk.status = String::from_str("Transcript ready");
        DeskAction::Nothing
    }
}

/// What happens to a finished text.
#[derive(Clone, Copy, Debug, PartialEq, Eq, Structural)]
pub enum Completion {
    /// There is no text: nothing is inserted.
    NothingToInsert,
    /// The text is shown.
    Show,
    /// The text is shown and pasted into the app that was in front.
    Paste,
}

/// The desk once a text is final, and what happens to it: an empty text is
/// reported and the pending paste dropped; otherwise it is pasted when insertion
/// is on and an app waits for it (which then no longer waits), else just shown.
pub open spec fn completed(d: DeskView, auto_paste: bool) -> (DeskView, Completion) {
    if d.text.len() == 0 {
        (DeskView { status: "No speech to insert"@, target: false, ..d }, Completion::NothingToInsert)
    } else if auto_paste && d.target {
        (DeskView { target: false, ..d }, Completion::Paste)
    } else {
        (d, Completion::Show)
    }
}

/// Settles a final text and says what happens to it.
pub fn complete_text(desk: &mut Desk, auto_paste: bool) -> (c: Completion)
    ensures
        (final(desk)@, c) == completed(old(desk)@, auto_paste),
{
    if desk.transcript.text.unicode_len() == 0 {
        desk.status = String::from_str("No speech to insert");
        desk.target = false;
        Completion::NothingToInsert
    } else if auto_paste && desk.target {
        desk.target = false;
        Completion::Paste
    } else {
        Completion::Show
    }
}

/// The desk after pasting succeeded or failed (with the reason).
pub open spec fn after_paste(d: DeskView, pasted: Result<(), String>) -> DeskView {
    match pasted {
        Ok(_) => DeskView { status: "Inserted into your app"@, ..d },
        Err(m) => DeskView { error: Some(m@), ..d },
    }
}

/// Reports the outcome of pasting.
pub fn paste_finished(desk: &mut Desk, pasted: Result<(), String>)
    ensures
        final(desk)@ == after_paste(old(desk)@, pasted),
{
    match pasted {
        Ok(_) => {
            desk.status = String::from_str("Inserted into your app");
        },
        Err(m) => {
            desk.error = Some(m);
        },
    }
}

/// Whether the running job has run longer than its timeout, given how long it
/// has run in nanoseconds.
pub fn job_overdue(job: Option<(u64, JobKind)>, elapsed_nanos: u128) -> (r: bool)
    ensures
        r == (job matches Some((_, k)) && elapsed_nanos > job_timeout(k) * 1_000_000_000),
{
    match job {
        Some((_, k)) => elapsed_nanos > (timeout_secs(k) as u128) * 1_000_000_000u128,
        None => false,
    }
}

/// The desk after its job timed out: cancelled, with a message that the text
/// is kept.
pub open spec fn timed_out(d: DeskView) -> DeskView {
    DeskView {
        error: Some("Operation timed out. Your text is preserved. Try a smaller model or retry."@),
        ..cancelled(d)
    }
}

/// Cancels the running job because it timed out.
pub fn time_out_job(desk: &mut Desk)
    ensures
        final(desk)@ == timed_out(old(desk)@),
{
    cancel_job(desk);
    desk.error = Some(String::from_str("Operation timed out. Your text is preserved. Try a smaller model or retry."));
}

/// A refused recording neither starts a job nor touches the text.
pub proof fn lemma_refusal_keeps_work(d: DeskView, a: RecordAction)
    ensures
        record_refused(d, a).job == d.job,
        record_refused(d, a).text == d.text && record_refused(d, a).raw == d.raw,
{
}

/// A timeout ends the job and keeps the text and the raw transcript; late
/// reports of the timed-out job change nothing.
pub proof fn lemma_timeout_keeps_text(d: DeskView, auto_rewrite: bool, language: Seq<char>, e: WorkerEvent)
    ensures
        timed_out(d).job is None,
        timed_out(d).text == d.text && timed_out(d).raw == d.raw,
        desk_step(timed_out(d), auto_rewrite, language, e) == (timed_out(d), DeskAction::Nothing),
{
}

} // verus!
