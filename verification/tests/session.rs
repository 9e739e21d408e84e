use fastaf_flow::catalog::{Kind, Memory, Model, GIB};
use fastaf_flow::session::{
    choice_label, clock_text, import_allowed, keep_models, on_hotkey, record_action, repaint_after_ms,
    select_defaults, selected_pair_estimate, should_rewrite, status_text, timeout_secs, HotkeyEvent,
    HotkeyStep, JobKind, RecordAction, Transcript, TranscriptEvent, MAX_IMPORT_BYTES,
};
use fastaf_flow::settings::Settings;

fn model(id: &str, kind: Kind, path: Option<&str>) -> Model {
    Model { id: id.to_string(), kind, path: path.map(String::from), bytes: 0, quant: "4-bit".into() }
}

fn big() -> Memory {
    Memory { total_bytes: 64 * GIB, available_bytes: 40 * GIB }
}

#[test]
fn only_english_transcripts_are_rewritten() {
    assert!(should_rewrite(true, "auto", Some("English"), "hello"));
    assert!(should_rewrite(true, "en", Some("EN"), "hello"));
    assert!(should_rewrite(true, "auto", None, "hello"));
    assert!(!should_rewrite(true, "auto", Some("fr"), "bonjour"));
    assert!(!should_rewrite(true, "fr", Some("en"), "hello"));
    assert!(!should_rewrite(false, "auto", Some("en"), "hello"));
    assert!(!should_rewrite(true, "auto", Some("en"), ""));
}

#[test]
fn defaults_select_downloaded_recommendations() {
    let models = vec![
        model("x/whisper-tiny", Kind::Speech, Some("/t")),
        model("mlx-community/parakeet-tdt-0.6b-v3", Kind::Speech, None),
        model("mlx-community/S1-mini-MLX-4bit", Kind::Rewrite, Some("/s")),
    ];
    let mut s = Settings::default();
    select_defaults(&mut s, &models, big());
    assert_eq!(s.speech_model, "x/whisper-tiny");
    assert_eq!(s.rewrite_model, "mlx-community/S1-mini-MLX-4bit");
    // A configured, downloaded choice is kept.
    let models = vec![
        model("x/whisper-tiny", Kind::Speech, Some("/t")),
        model("x/whisper-small", Kind::Speech, Some("/s")),
    ];
    let mut s = Settings::default();
    s.speech_model = "x/whisper-tiny".into();
    select_defaults(&mut s, &models, big());
    assert_eq!(s.speech_model, "x/whisper-tiny");
    // A recommendation that is not downloaded changes nothing.
    let models = vec![model("x/whisper-small", Kind::Speech, None)];
    let mut s = Settings::default();
    s.speech_model = "gone".into();
    select_defaults(&mut s, &models, big());
    assert_eq!(s.speech_model, "gone");
}

#[test]
fn models_stay_loaded_when_the_pair_fits() {
    let mut speech = model("a/whisper-small", Kind::Speech, Some("/a"));
    speech.bytes = GIB;
    let mut rewrite = model("b/S1-mini-4bit", Kind::Rewrite, Some("/b"));
    rewrite.bytes = GIB;
    let models = vec![speech, rewrite];
    let mut s = Settings::default();
    s.speech_model = "a/whisper-small".into();
    s.rewrite_model = "b/S1-mini-4bit".into();
    // Speech: 1.35 GiB + 1.0 GiB; rewriting: 1.35 GiB + 0.45 GiB.
    assert_eq!(selected_pair_estimate(&models, &s), 4_150_000u128 * GIB as u128);
    assert!(keep_models(&models, &s, big()));
    let tight = Memory { total_bytes: 8 * GIB, available_bytes: 5 * GIB };
    assert!(!keep_models(&models, &s, tight));
    s.rewrite_model = "missing".into();
    assert_eq!(selected_pair_estimate(&models, &s), 2_350_000u128 * GIB as u128);
}

#[test]
fn shortcut_modes() {
    assert_eq!(on_hotkey(false, HotkeyEvent::Pressed, false, false), HotkeyStep { down: true, toggle: true });
    assert_eq!(on_hotkey(true, HotkeyEvent::Pressed, false, true), HotkeyStep { down: true, toggle: false });
    assert_eq!(on_hotkey(true, HotkeyEvent::Released, false, true), HotkeyStep { down: false, toggle: false });
    assert_eq!(on_hotkey(false, HotkeyEvent::Pressed, true, false), HotkeyStep { down: true, toggle: true });
    assert_eq!(on_hotkey(false, HotkeyEvent::Pressed, true, true), HotkeyStep { down: true, toggle: false });
    assert_eq!(on_hotkey(true, HotkeyEvent::Released, true, true), HotkeyStep { down: false, toggle: true });
}

#[test]
fn record_control() {
    assert_eq!(record_action(true, true, true, true), RecordAction::Ignore);
    assert_eq!(record_action(false, true, false, false), RecordAction::Finish);
    assert_eq!(record_action(false, false, false, true), RecordAction::NeedRuntime);
    assert_eq!(record_action(false, false, true, false), RecordAction::NeedSpeechModel);
    assert_eq!(record_action(false, false, true, true), RecordAction::Start);
}

#[test]
fn jobs_status_and_timeouts() {
    assert_eq!(status_text(JobKind::Transcribe), "Transcribing locally\u{2026}");
    assert_eq!(status_text(JobKind::Unload), "Releasing model memory\u{2026}");
    assert_eq!(timeout_secs(JobKind::Download), 3600);
    assert_eq!(timeout_secs(JobKind::Setup), 3600);
    assert_eq!(timeout_secs(JobKind::Rewrite), 600);
    assert_eq!(repaint_after_ms(true, true), 33);
    assert_eq!(repaint_after_ms(false, true), 100);
    assert_eq!(repaint_after_ms(false, false), 30_000);
}

#[test]
fn clock_and_import_limits() {
    assert_eq!(clock_text(0), "0:00");
    assert_eq!(clock_text(65), "1:05");
    assert_eq!(clock_text(300), "5:00");
    assert_eq!(clock_text(3671), "61:11");
    assert!(import_allowed(MAX_IMPORT_BYTES));
    assert!(!import_allowed(MAX_IMPORT_BYTES + 1));
}

#[test]
fn choice_labels() {
    let values = vec![("semi-formal", "Natural"), ("formal", "Formal")];
    assert_eq!(choice_label(&values, "formal"), "Formal");
    assert_eq!(choice_label(&values, "semi-formal"), "Natural");
    assert_eq!(choice_label(&values, "custom"), "custom");
}

#[test]
fn transcript_edits() {
    let mut t = Transcript::new();
    t.apply(TranscriptEvent::Transcribed("um hello".into()));
    t.apply(TranscriptEvent::Rewritten("Hello.".into()));
    assert_eq!(t.text, "Hello.");
    t.apply(TranscriptEvent::Failed);
    assert_eq!((t.text.as_str(), t.raw.as_str()), ("Hello.", "um hello"));
    t.apply(TranscriptEvent::Restored);
    assert_eq!(t.text, "um hello");
    t.text = "edited".into();
    t.apply(TranscriptEvent::RewriteStarted);
    t.apply(TranscriptEvent::Rewritten("Edited.".into()));
    t.apply(TranscriptEvent::Restored);
    assert_eq!(t.text, "edited");
    t.apply(TranscriptEvent::Cleared);
    assert_eq!((t.text.as_str(), t.raw.as_str()), ("", ""));
}

use fastaf_flow::session::{
    cancel_job, complete_text, is_english, job_overdue, on_worker_event, paste_finished, recording_started,
    recording_stopped, request_rewrite, start_job, time_out_job, use_record_control, Completion, Desk, DeskAction,
    JobOutput, Tab, WorkerEvent,
};

fn desk(job: Option<(u64, JobKind)>) -> Desk {
    let mut transcript = Transcript::new();
    transcript.apply(TranscriptEvent::Transcribed("kept".into()));
    Desk {
        tab: Tab::Dictate,
        job,
        audio_file: true,
        target: true,
        ready: false,
        status: "Working".into(),
        error: None,
        transcript,
    }
}

fn output(text: Option<&str>, language: Option<&str>) -> JobOutput {
    JobOutput { ready: None, text: text.map(String::from), language: language.map(String::from), has_models: false }
}

#[test]
fn stale_worker_reports_change_nothing() {
    let s = Settings::default();
    let mut d = desk(Some((7, JobKind::Transcribe)));
    assert_eq!(on_worker_event(&mut d, &s, WorkerEvent::Done(6, output(Some("late"), None))), DeskAction::Nothing);
    assert_eq!(on_worker_event(&mut d, &s, WorkerEvent::Failed(8, "late".into())), DeskAction::Nothing);
    assert_eq!(d.transcript.text, "kept");
    assert_eq!(d.status, "Working");
    assert!(d.job.is_some() && d.audio_file && d.target);
    cancel_job(&mut d);
    assert!(d.job.is_none() && !d.audio_file && !d.target);
    assert_eq!(d.status, "Cancelled \u{b7} your text is preserved");
    assert_eq!(on_worker_event(&mut d, &s, WorkerEvent::Done(7, output(Some("late"), None))), DeskAction::Nothing);
    assert_eq!(d.transcript.text, "kept");
}

#[test]
fn failures_keep_the_text() {
    let s = Settings::default();
    let mut d = desk(Some((3, JobKind::Rewrite)));
    assert_eq!(on_worker_event(&mut d, &s, WorkerEvent::Progress(3, "50%".into())), DeskAction::Nothing);
    assert_eq!(d.status, "50%");
    assert_eq!(on_worker_event(&mut d, &s, WorkerEvent::Failed(3, "boom".into())), DeskAction::Nothing);
    assert!(d.job.is_none() && !d.audio_file && !d.target);
    assert_eq!(d.error.as_deref(), Some("boom"));
    assert_eq!(d.status, "Stopped \u{b7} your text is preserved");
    assert_eq!((d.transcript.text.as_str(), d.transcript.raw.as_str()), ("kept", "kept"));
}

#[test]
fn finished_jobs_lead_on() {
    let s = Settings::default();
    let mut d = desk(Some((1, JobKind::Setup)));
    assert_eq!(on_worker_event(&mut d, &s, WorkerEvent::Done(1, output(None, None))), DeskAction::Submit(JobKind::Check));
    let mut d = desk(Some((2, JobKind::Check)));
    let mut out = output(None, None);
    out.ready = Some(true);
    assert_eq!(on_worker_event(&mut d, &s, WorkerEvent::Done(2, out)), DeskAction::Nothing);
    assert!(d.ready);
    assert_eq!(d.status, "Local MLX runtime ready");
    let mut d = desk(Some((2, JobKind::Check)));
    on_worker_event(&mut d, &s, WorkerEvent::Done(2, output(None, None)));
    assert!(!d.ready);
    assert_eq!(d.error.as_deref(), Some("MLX cannot access Metal. Use an Apple Silicon Mac."));
    let mut d = desk(Some((4, JobKind::Transcribe)));
    assert_eq!(on_worker_event(&mut d, &s, WorkerEvent::Done(4, output(Some("um hi"), Some("en")))), DeskAction::Rewrite);
    assert_eq!((d.transcript.text.as_str(), d.transcript.raw.as_str()), ("um hi", "um hi"));
    assert!(!d.audio_file && d.job.is_none());
    let mut d = desk(Some((4, JobKind::Transcribe)));
    assert_eq!(on_worker_event(&mut d, &s, WorkerEvent::Done(4, output(Some("hola"), Some("es")))), DeskAction::CompleteText);
    let mut d = desk(Some((4, JobKind::Transcribe)));
    assert_eq!(on_worker_event(&mut d, &s, WorkerEvent::Done(4, output(None, None))), DeskAction::CompleteText);
    assert_eq!(d.transcript.text, "");
    let mut d = desk(Some((5, JobKind::Rewrite)));
    assert_eq!(on_worker_event(&mut d, &s, WorkerEvent::Done(5, output(Some("Hi."), None))), DeskAction::CompleteText);
    assert_eq!((d.transcript.text.as_str(), d.transcript.raw.as_str()), ("Hi.", "kept"));
    let mut d = desk(Some((6, JobKind::Download)));
    assert_eq!(on_worker_event(&mut d, &s, WorkerEvent::Done(6, output(None, None))), DeskAction::Reload);
    assert_eq!(d.status, "Download complete. Select the model in Dictate.");
    let mut d = desk(Some((7, JobKind::Catalog)));
    let mut out = output(None, None);
    out.has_models = true;
    assert_eq!(on_worker_event(&mut d, &s, WorkerEvent::Done(7, out)), DeskAction::SaveCatalog);
    let mut d = desk(Some((7, JobKind::Catalog)));
    assert_eq!(on_worker_event(&mut d, &s, WorkerEvent::Done(7, output(None, None))), DeskAction::Nothing);
    let mut d = desk(Some((8, JobKind::Unload)));
    assert_eq!(on_worker_event(&mut d, &s, WorkerEvent::Done(8, output(None, None))), DeskAction::Nothing);
    assert_eq!(d.status, "Model memory released");
}

#[test]
fn english_check_on_lowered_text() {
    assert!(is_english("auto", "english"));
    assert!(is_english("en", "en"));
    assert!(!is_english("auto", "English"));
    assert!(!is_english("fr", "en"));
}

#[test]
fn record_control_refusals_open_the_right_page() {
    let mut d = desk(None);
    assert_eq!(use_record_control(&mut d, false, true), RecordAction::NeedRuntime);
    assert_eq!(d.tab, Tab::Setup);
    assert_eq!(d.error.as_deref(), Some("Install and check the local runtime first."));
    let mut d = desk(None);
    d.ready = true;
    assert_eq!(use_record_control(&mut d, false, false), RecordAction::NeedSpeechModel);
    assert_eq!(d.tab, Tab::Models);
    assert_eq!(d.error.as_deref(), Some("Download a speech model or add an existing model folder."));
    let mut d = desk(Some((1, JobKind::Rewrite)));
    assert_eq!(use_record_control(&mut d, true, true), RecordAction::Ignore);
    assert_eq!(d.tab, Tab::Dictate);
    assert!(d.error.is_none());
    let mut d = desk(None);
    d.ready = true;
    assert_eq!(use_record_control(&mut d, false, true), RecordAction::Start);
    recording_started(&mut d, Ok(()));
    assert_eq!(d.status, "Listening\u{2026}");
    recording_started(&mut d, Err("no mic".into()));
    assert_eq!(d.status, "Microphone unavailable");
    assert_eq!(d.error.as_deref(), Some("no mic"));
}

#[test]
fn stopped_recordings_are_transcribed_or_reported() {
    let mut d = desk(None);
    d.audio_file = false;
    assert_eq!(recording_stopped(&mut d, Ok(()), true), DeskAction::Submit(JobKind::Transcribe));
    assert!(d.audio_file);
    let mut d = desk(None);
    d.audio_file = false;
    assert_eq!(recording_stopped(&mut d, Ok(()), false), DeskAction::Nothing);
    assert!(d.audio_file);
    let mut d = desk(None);
    assert_eq!(recording_stopped(&mut d, Err("too short".into()), true), DeskAction::Nothing);
    assert_eq!(d.status, "Recording stopped");
    assert_eq!(d.error.as_deref(), Some("too short"));
}

#[test]
fn jobs_start_rewrites_and_texts_complete() {
    let mut d = desk(None);
    d.error = Some("old".into());
    start_job(&mut d, 9, JobKind::Download);
    assert_eq!(d.job, Some((9, JobKind::Download)));
    assert!(d.error.is_none());
    assert_eq!(d.status, "Starting download\u{2026}");
    let mut d = desk(None);
    assert_eq!(request_rewrite(&mut d, true), DeskAction::Submit(JobKind::Rewrite));
    assert_eq!(request_rewrite(&mut d, false), DeskAction::Nothing);
    assert_eq!(d.status, "Transcript ready");
    assert_eq!(d.transcript.text, "kept");
    let mut d = desk(None);
    assert_eq!(complete_text(&mut d, true), Completion::Paste);
    assert!(!d.target);
    let mut d = desk(None);
    assert_eq!(complete_text(&mut d, false), Completion::Show);
    assert!(d.target);
    let mut d = desk(None);
    d.transcript.apply(TranscriptEvent::Cleared);
    assert_eq!(complete_text(&mut d, true), Completion::NothingToInsert);
    assert_eq!(d.status, "No speech to insert");
    assert!(!d.target);
    paste_finished(&mut d, Ok(()));
    assert_eq!(d.status, "Inserted into your app");
    paste_finished(&mut d, Err("denied".into()));
    assert_eq!(d.error.as_deref(), Some("denied"));
}

#[test]
fn overdue_jobs_time_out_keeping_the_text() {
    assert!(!job_overdue(Some((1, JobKind::Rewrite)), 600_000_000_000));
    assert!(job_overdue(Some((1, JobKind::Rewrite)), 600_000_000_001));
    assert!(!job_overdue(Some((1, JobKind::Setup)), 3_600_000_000_000));
    assert!(job_overdue(Some((1, JobKind::Download)), 3_600_000_000_001));
    assert!(!job_overdue(None, u128::MAX));
    let mut d = desk(Some((1, JobKind::Transcribe)));
    time_out_job(&mut d);
    assert!(d.job.is_none() && !d.audio_file && !d.target);
    assert_eq!(d.error.as_deref(), Some("Operation timed out. Your text is preserved. Try a smaller model or retry."));
    assert_eq!(d.status, "Cancelled \u{b7} your text is preserved");
    assert_eq!(d.transcript.text, "kept");
    let s = Settings::default();
    assert_eq!(on_worker_event(&mut d, &s, WorkerEvent::Done(1, output(Some("late"), None))), DeskAction::Nothing);
    assert_eq!(d.transcript.text, "kept");
}
