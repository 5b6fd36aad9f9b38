use jellypilot_iced::account::BadgeVariant;
use jellypilot_iced::label::Label;
use jellypilot_iced::settings::{
    diagnostic_badge, diagnostic_category_label, diagnostic_level_label, intro_mode_label, subtitle_language_label,
    DiagnosticCategory, DiagnosticLevel, IntroMode,
};

#[test]
fn subtitle_languages_use_catalog_names_or_the_code() {
    assert!(matches!(subtitle_language_label("eng"), Label::Message("settings-subtitle-english")));
    assert!(matches!(subtitle_language_label("ger"), Label::Message("settings-subtitle-german")));
    assert!(matches!(subtitle_language_label("chi"), Label::Message("settings-subtitle-chinese")));
    assert!(matches!(subtitle_language_label("hin"), Label::Message("settings-subtitle-hindi")));
    assert!(matches!(subtitle_language_label("swe"), Label::Text(ref code) if code == "swe"));
    assert!(matches!(subtitle_language_label("ENG"), Label::Text(ref code) if code == "ENG"));
}

#[test]
fn settings_labels() {
    assert_eq!(intro_mode_label(IntroMode::Automatic), "settings-intro-automatic");
    assert_eq!(intro_mode_label(IntroMode::Off), "settings-off");
    assert_eq!(diagnostic_badge(DiagnosticLevel::Info), BadgeVariant::Neutral);
    assert_eq!(diagnostic_badge(DiagnosticLevel::Error), BadgeVariant::Error);
    assert_eq!(diagnostic_level_label(None), "settings-all");
    assert_eq!(diagnostic_level_label(Some(DiagnosticLevel::Warning)), "settings-level-warning");
    assert_eq!(diagnostic_category_label(None), "settings-all");
    assert_eq!(diagnostic_category_label(Some(DiagnosticCategory::Playback)), "settings-playback");
    assert_eq!(
        diagnostic_category_label(Some(DiagnosticCategory::RemoteControl)),
        "settings-category-remote-control"
    );
}
