use fastaf_flow::audio::{capture_limit, enough_audio, recording_over, room_for_sample, MAX_SECONDS};
use fastaf_flow::cli::{parse_command, Command};
use fastaf_flow::desktop::{menu_action, tray_icon_rgba, MenuAction};
use fastaf_flow::settings::Settings;
use fastaf_flow::system::{paste_check, paste_target, privacy_url, PasteRefusal};

fn args(v: &[&str]) -> Vec<String> {
    v.iter().map(|s| s.to_string()).collect()
}

#[test]
fn default_settings() {
    let s = Settings::default();
    assert_eq!(s.speech_model, "");
    assert_eq!(s.rewrite_model, "");
    assert!(s.auto_rewrite);
    assert!(!s.auto_paste);
    assert!(!s.hold_to_talk);
    assert_eq!(s.styling, "semi-formal");
    assert_eq!(s.structure, "prose");
    assert_eq!(s.context, "general");
    assert_eq!(s.language, "auto");
    assert!(s.model_roots.is_empty());
}

#[test]
fn unknown_choices_are_repaired() {
    let mut s = Settings::default();
    s.styling = "shouty".into();
    s.structure = "lists".into();
    s.context = "".into();
    s.language = "xx".into();
    s.repair_choices();
    assert_eq!(s.styling, "semi-formal");
    assert_eq!(s.structure, "lists");
    assert_eq!(s.context, "general");
    assert_eq!(s.language, "xx");
    let before = s.clone();
    s.repair_choices();
    assert_eq!(s.styling, before.styling);
    s.styling = "casual".into();
    s.repair_choices();
    assert_eq!(s.styling, "casual");
}

#[test]
fn model_folders_are_added_once() {
    let mut s = Settings::default();
    s.add_model_root("/m/a".into());
    s.add_model_root("/m/a/".into());
    s.add_model_root("/m/b".into());
    assert_eq!(s.model_roots, vec!["/m/a".to_string(), "/m/b".to_string()]);
}

#[test]
fn commands_from_arguments() {
    assert!(matches!(parse_command(&args(&["app"])), Command::Window));
    assert!(matches!(parse_command(&args(&["app", "--doctor", "--version"])), Command::Version));
    assert!(matches!(parse_command(&args(&["app", "x", "--list-models"])), Command::ListModels));
    assert!(matches!(parse_command(&args(&["app", "--setup-runtime"])), Command::SetupRuntime));
    assert!(matches!(parse_command(&args(&["app", "--doctor"])), Command::Doctor));
    assert!(matches!(parse_command(&args(&["app", "--transcribe", "a.wav"])), Command::Transcribe(p) if p == "a.wav"));
    assert!(matches!(parse_command(&args(&["app", "--transcribe"])), Command::TranscribeUsage));
    assert!(matches!(parse_command(&args(&["app", "--help"])), Command::Unknown));
}

#[test]
fn recording_limits() {
    assert_eq!(MAX_SECONDS, 300);
    assert_eq!(capture_limit(48_000), 14_400_000);
    assert!(enough_audio(4_800, 48_000));
    assert!(!enough_audio(4_799, 48_000));
    assert!(room_for_sample(14_399_999, 48_000));
    assert!(!room_for_sample(14_400_000, 48_000));
    assert!(recording_over(300, false));
    assert!(!recording_over(299, false));
    assert!(recording_over(0, true));
}

#[test]
fn tray_icon_is_a_level_meter() {
    let icon = tray_icon_rgba();
    assert_eq!(icon.len(), 32 * 32 * 4);
    let alpha = |x: usize, y: usize| icon[(y * 32 + x) * 4 + 3];
    // The tallest bar (x 15..18, height 26) spans rows 3..29.
    assert_eq!(alpha(15, 3), 255);
    assert_eq!(alpha(17, 28), 255);
    assert_eq!(alpha(15, 2), 0);
    assert_eq!(alpha(18, 16), 0);
    assert_eq!(alpha(0, 0), 0);
    assert!(icon.iter().enumerate().all(|(k, b)| k % 4 == 3 || *b == 0));
    let opaque = icon.iter().skip(3).step_by(4).filter(|a| **a == 255).count();
    assert_eq!(opaque, 3 * (8 + 18 + 26 + 14 + 6));
}

#[test]
fn menu_items() {
    assert_eq!(menu_action("show"), Some(MenuAction::Show));
    assert_eq!(menu_action("record"), Some(MenuAction::Record));
    assert_eq!(menu_action("quit"), Some(MenuAction::Quit));
    assert_eq!(menu_action("Quit"), None);
}

#[test]
fn pasting_needs_permission_and_the_same_app() {
    assert_eq!(paste_check(false, Some(7), 7), Err(PasteRefusal::NotTrusted));
    assert_eq!(paste_check(true, Some(8), 7), Err(PasteRefusal::TargetChanged));
    assert_eq!(paste_check(true, None, 7), Err(PasteRefusal::TargetChanged));
    assert_eq!(paste_check(true, Some(7), 7), Ok(()));
    assert!(PasteRefusal::NotTrusted.message().contains("Accessibility"));
    assert!(PasteRefusal::TargetChanged.message().contains("\u{2318}V"));
    assert_eq!(paste_target(Some(5), 9), Some(5));
    assert_eq!(paste_target(Some(9), 9), None);
    assert_eq!(paste_target(None, 9), None);
    assert!(privacy_url(true).ends_with("Privacy_Microphone"));
    assert!(privacy_url(false).ends_with("Privacy_Accessibility"));
}
