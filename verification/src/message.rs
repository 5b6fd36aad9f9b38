//! The messages that the library's decisions hand back to the application loop.

use vstd::prelude::*;

use crate::image_inventory::{ArtworkSurface, ImagePriority, ImageSpec};

verus! {

/// Top-level application messages produced by the library.
#[derive(Clone, Debug)]
pub enum Message {
    Settings(SettingsMessage),
    Playback(PlaybackMessage),
    Browse(BrowseMessage),
    Account(AccountMessage),
    /// An image marker's demand changed: `priority` is `None` when it is revoked.
    ImageObserved {
        surface: ArtworkSurface,
        epoch: u64,
        spec: ImageSpec,
        priority: Option<ImagePriority>,
    },
}

#[derive(Clone, Debug)]
pub enum SettingsMessage {
    Close,
    CancelShortcutCapture,
    ShortcutCaptured(String),
}

#[derive(Clone, Copy, Debug, PartialEq, Eq, Structural)]
pub enum AdjacentDirection {
    Next,
    Previous,
}

#[derive(Clone, Copy, Debug, PartialEq, Eq, Structural)]
pub enum PlaybackIntent {
    PlayAdjacent(AdjacentDirection),
    SkipIntro,
    Tick,
}

#[derive(Clone, Copy, Debug, PartialEq, Eq, Structural)]
pub enum PlaybackMessage {
    Intent(PlaybackIntent),
}

/// Grid geometry travels as the bit patterns of its `f32` values.
#[derive(Clone, Copy, Debug, PartialEq, Eq, Structural)]
pub enum BrowseMessage {
    Retry,
    GridViewportMeasured { epoch: u64, offset_y_bits: u32, height_bits: u32 },
}

#[derive(Clone, Copy, Debug, PartialEq, Eq, Structural)]
pub enum MediaServerProvider {
    Jellyfin,
    Emby,
}

/// Input to the add-account candidate form.
#[derive(Clone, Debug)]
pub enum CandidateMessage {
    ProviderSelected(MediaServerProvider),
    ServerUrlChanged(String),
    UsernameChanged(String),
    PasswordChanged(String),
    RememberToggled(bool),
    PasswordSubmitted,
    QuickConnectSubmitted,
    QuickConnectCancelled,
}

/// Account lifecycle messages.
#[derive(Clone, Debug)]
pub enum AccountMessage {
    AddAccount,
    AddLogin(CandidateMessage),
    /// Asks to sign out of the saved profile with this key.
    AskSignOut(String),
    CancelConfirmation,
    CloseAddAccount,
    Confirm,
    CopyServerAddress,
    Disconnect,
    DismissError,
    RetryHandoffCleanup,
    RetryWatchlistCleanup,
    ToggleDeleteWatchlist,
    ToggleManagement,
}

} // verus!
