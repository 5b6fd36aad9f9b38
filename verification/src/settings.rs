//! Settings presentation decisions.

use vstd::prelude::*;

use crate::account::BadgeVariant;
use crate::label::{Label, LabelView};
use crate::text::{chars_of, str_is, string_of};

verus! {

#[derive(Clone, Copy, Debug, PartialEq, Eq, Structural)]
pub enum IntroMode {
    Automatic,
    Manual,
    Off,
}

#[derive(Clone, Copy, Debug, PartialEq, Eq, Structural)]
pub enum DiagnosticLevel {
    Info,
    Warning,
    Error,
}

#[derive(Clone, Copy, Debug, PartialEq, Eq, Structural)]
pub enum DiagnosticCategory {
    Connection,
    Auth,
    Playback,
    Player,
    RemoteControl,
    Artwork,
    Config,
}

/// The message naming an intro-skip mode.
pub fn intro_mode_label(mode: IntroMode) -> (out: &'static str)
    ensures
        mode == IntroMode::Automatic ==> out@ == "settings-intro-automatic"@,
        mode == IntroMode::Manual ==> out@ == "settings-intro-manual"@,
        mode == IntroMode::Off ==> out@ == "settings-off"@,
{
    match mode {
        IntroMode::Automatic => "settings-intro-automatic",
        IntroMode::Manual => "settings-intro-manual",
        IntroMode::Off => "settings-off",
    }
}

/// The subtitle-language catalog message for an ISO 639-2 code, if there is one.
pub open spec fn subtitle_language_message(code: Seq<char>) -> Option<Seq<char>> {
    if code == "eng"@ {
        Some("settings-subtitle-english"@)
    } else if code == "spa"@ {
        Some("settings-subtitle-spanish"@)
    } else if code == "fra"@ || code == "fre"@ {
        Some("settings-subtitle-french"@)
    } else if code == "deu"@ || code == "ger"@ {
        Some("settings-subtitle-german"@)
    } else if code == "ita"@ {
        Some("settings-subtitle-italian"@)
    } else if code == "por"@ {
        Some("settings-subtitle-portuguese"@)
    } else if code == "rus"@ {
        Some("settings-subtitle-russian"@)
    } else if code == "zho"@ || code == "chi"@ {
        Some("settings-subtitle-chinese"@)
    } else if code == "jpn"@ {
        Some("settings-subtitle-japanese"@)
    } else if code == "kor"@ {
        Some("settings-subtitle-korean"@)
    } else if code == "ara"@ {
        Some("settings-subtitle-arabic"@)
    } else if code == "hin"@ {
        Some("settings-subtitle-hindi"@)
    } else {
        None
    }
}

/// A subtitle language's name: the catalog message for known codes, the
/// code itself otherwise.
pub fn subtitle_language_label(code: &str) -> (out: Label)
    ensures
        match subtitle_language_message(code@) {
            Some(id) => out@ == LabelView::Message(id),
            None => out@ == LabelView::Text(code@),
        },
{
    let id: &'static str = if str_is(code, "eng") {
        "settings-subtitle-english"
    } else if str_is(code, "spa") {
        "settings-subtitle-spanish"
    } else if str_is(code, "fra") || str_is(code, "fre") {
        "settings-subtitle-french"
    } else if str_is(code, "deu") || str_is(code, "ger") {
        "settings-subtitle-german"
    } else if str_is(code, "ita") {
        "settings-subtitle-italian"
    } else if str_is(code, "por") {
        "settings-subtitle-portuguese"
    } else if str_is(code, "rus") {
        "settings-subtitle-russian"
    } else if str_is(code, "zho") || str_is(code, "chi") {
        "settings-subtitle-chinese"
    } else if str_is(code, "jpn") {
        "settings-subtitle-japanese"
    } else if str_is(code, "kor") {
        "settings-subtitle-korean"
    } else if str_is(code, "ara") {
        "settings-subtitle-arabic"
    } else if str_is(code, "hin") {
        "settings-subtitle-hindi"
    } else {
        return Label::Text(string_of(&chars_of(code)));
    };
    Label::Message(id)
}

/// The badge tone of a diagnostic level.
pub fn diagnostic_badge(level: DiagnosticLevel) -> (out: BadgeVariant)
    ensures
        level == DiagnosticLevel::Info ==> out == BadgeVariant::Neutral,
        level == DiagnosticLevel::Warning ==> out == BadgeVariant::Warning,
        level == DiagnosticLevel::Error ==> out == BadgeVariant::Error,
{
    match level {
        DiagnosticLevel::Info => BadgeVariant::Neutral,
        DiagnosticLevel::Warning => BadgeVariant::Warning,
        DiagnosticLevel::Error => BadgeVariant::Error,
    }
}

/// The message naming a diagnostic-level filter (`None` is "all").
pub fn diagnostic_level_label(level: Option<DiagnosticLevel>) -> (out: &'static str)
    ensures
        level is None ==> out@ == "settings-all"@,
        level == Some(DiagnosticLevel::Info) ==> out@ == "settings-level-info"@,
        level == Some(DiagnosticLevel::Warning) ==> out@ == "settings-level-warning"@,
        level == Some(DiagnosticLevel::Error) ==> out@ == "settings-level-error"@,
{
    match level {
        None => "settings-all",
        Some(DiagnosticLevel::Info) => "settings-level-info",
        Some(DiagnosticLevel::Warning) => "settings-level-warning",
        Some(DiagnosticLevel::Error) => "settings-level-error",
    }
}

/// The message naming a diagnostic-category filter (`None` is "all").
pub fn diagnostic_category_label(category: Option<DiagnosticCategory>) -> (out: &'static str)
    ensures
        category is None ==> out@ == "settings-all"@,
        category == Some(DiagnosticCategory::Connection) ==> out@ == "settings-category-connection"@,
        category == Some(DiagnosticCategory::Auth) ==> out@ == "settings-category-auth"@,
        category == Some(DiagnosticCategory::Playback) ==> out@ == "settings-playback"@,
        category == Some(DiagnosticCategory::Player) ==> out@ == "settings-category-player"@,
        category == Some(DiagnosticCategory::RemoteControl) ==> out@
            == "settings-category-remote-control"@,
        category == Some(DiagnosticCategory::Artwork) ==> out@ == "settings-category-artwork"@,
        category == Some(DiagnosticCategory::Config) ==> out@ == "settings-category-config"@,
{
    match category {
        None => "settings-all",
        Some(DiagnosticCategory::Connection) => "settings-category-connection",
        Some(DiagnosticCategory::Auth) => "settings-category-auth",
        Some(DiagnosticCategory::Playback) => "settings-playback",
        Some(DiagnosticCategory::Player) => "settings-category-player",
        Some(DiagnosticCategory::RemoteControl) => "settings-category-remote-control",
        Some(DiagnosticCategory::Artwork) => "settings-category-artwork",
        Some(DiagnosticCategory::Config) => "settings-category-config",
    }
}

} // verus!
