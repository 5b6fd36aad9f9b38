//! Account presentation decisions: modal closing, avatar tints, status tags.

use vstd::prelude::*;
use vstd::string::StringSliceAdditionalSpecFns;

use crate::message::{AccountMessage, CandidateMessage, MediaServerProvider, Message};
use crate::text::{chars_of, push_str_chars, string_of};

verus! {

/// Whether this message can close the account modal, so that the exit
/// presentation is only retained for real close-capable actions.
pub fn may_close_modal(message: &Message) -> (out: bool)
    ensures
        out == (*message matches Message::Account(AccountMessage::CancelConfirmation)
            || *message matches Message::Account(AccountMessage::CloseAddAccount)
            || *message matches Message::Account(AccountMessage::Confirm)),
{
    match message {
        Message::Account(AccountMessage::CancelConfirmation) => true,
        Message::Account(AccountMessage::CloseAddAccount) => true,
        Message::Account(AccountMessage::Confirm) => true,
        _ => false,
    }
}

/// 32-bit FNV-1a over `bytes`.
pub open spec fn fnv1a(bytes: Seq<u8>) -> u32
    decreases bytes.len(),
{
    if bytes.len() == 0 {
        0x811c_9dc5u32
    } else {
        let h = fnv1a(bytes.drop_last()) ^ (bytes.last() as u32);
        ((h as int * 0x0100_0193) % 0x1_0000_0000) as u32
    }
}

/// Stable accent index (0, 1 or 2) for a fallback avatar tile: the FNV-1a
/// hash of the label's UTF-8 bytes, modulo 3.
pub fn fallback_accent(label: &str) -> (out: u8)
    ensures
        out as int == fnv1a(label.spec_bytes()) % 3,
        out < 3,
{
    let bytes = label.as_bytes();
    let mut hash: u32 = 0x811c_9dc5;
    let mut i: usize = 0;
    while i < bytes.len()
        invariant
            i <= bytes@.len(),
            bytes@ == label.spec_bytes(),
            hash == fnv1a(bytes@.take(i as int)),
        decreases bytes.len() - i,
    {
        assert(bytes@.take(i as int + 1).drop_last() =~= bytes@.take(i as int));
        assert(bytes@.take(i as int + 1).last() == bytes@[i as int]);
        hash = hash ^ (bytes[i] as u32);
        hash = hash.wrapping_mul(0x0100_0193);
        i += 1;
    }
    assert(bytes@.take(bytes.len() as int) =~= bytes@);
    (hash % 3) as u8
}

/// Wraps a candidate-form message as an account message.
pub fn account_message(message: CandidateMessage) -> (out: Message)
    ensures
        out == Message::Account(AccountMessage::AddLogin(message)),
{
    Message::Account(AccountMessage::AddLogin(message))
}

/// The display name of a media server provider.
pub fn provider_name(provider: MediaServerProvider) -> (out: &'static str)
    ensures
        provider == MediaServerProvider::Jellyfin ==> out@ == "Jellyfin"@,
        provider == MediaServerProvider::Emby ==> out@ == "Emby"@,
{
    match provider {
        MediaServerProvider::Jellyfin => "Jellyfin",
        MediaServerProvider::Emby => "Emby",
    }
}

/// Where the media-server connection stands.
#[derive(Clone, Copy, Debug, PartialEq, Eq, Structural)]
pub enum ConnectionPhase {
    SignedOut,
    Connecting,
    Connected,
    Failed,
}

/// Whether the server can control this player remotely.
#[derive(Clone, Copy, Debug, PartialEq, Eq, Structural)]
pub enum RemoteControlState {
    Available,
    Connecting,
    Lost,
    Unavailable,
}

#[derive(Clone, Copy, Debug, PartialEq, Eq, Structural)]
pub enum BadgeVariant {
    Neutral,
    Success,
    Warning,
    Error,
}

/// A status tag: the message to show and its tone.
#[derive(Clone, Copy, Debug)]
pub struct StatusTag {
    pub message: &'static str,
    pub variant: BadgeVariant,
}

/// The status tag for the connection phase.
pub fn connection_badge(phase: ConnectionPhase) -> (out: StatusTag)
    ensures
        phase == ConnectionPhase::Connected ==> out.variant == BadgeVariant::Success
            && out.message@ == "account-connected"@,
        phase == ConnectionPhase::Connecting ==> out.variant == BadgeVariant::Warning
            && out.message@ == "account-connecting"@,
        phase == ConnectionPhase::SignedOut ==> out.variant == BadgeVariant::Neutral
            && out.message@ == "account-signed-out"@,
        phase == ConnectionPhase::Failed ==> out.variant == BadgeVariant::Error
            && out.message@ == "account-connection-failed"@,
{
    match phase {
        ConnectionPhase::Connected => StatusTag { message: "account-connected", variant: BadgeVariant::Success },
        ConnectionPhase::Connecting => StatusTag { message: "account-connecting", variant: BadgeVariant::Warning },
        ConnectionPhase::SignedOut => StatusTag { message: "account-signed-out", variant: BadgeVariant::Neutral },
        ConnectionPhase::Failed => StatusTag { message: "account-connection-failed", variant: BadgeVariant::Error },
    }
}

/// The status tag for the remote-control state.
pub fn remote_status(state: RemoteControlState) -> (out: StatusTag)
    ensures
        state == RemoteControlState::Available ==> out.variant == BadgeVariant::Success
            && out.message@ == "account-remote-available"@,
        state == RemoteControlState::Connecting ==> out.variant == BadgeVariant::Warning
            && out.message@ == "account-remote-connecting"@,
        state == RemoteControlState::Lost ==> out.variant == BadgeVariant::Warning
            && out.message@ == "account-remote-lost"@,
        state == RemoteControlState::Unavailable ==> out.variant == BadgeVariant::Neutral
            && out.message@ == "account-remote-unavailable"@,
{
    match state {
        RemoteControlState::Available => StatusTag { message: "account-remote-available", variant: BadgeVariant::Success },
        RemoteControlState::Connecting => StatusTag { message: "account-remote-connecting", variant: BadgeVariant::Warning },
        RemoteControlState::Lost => StatusTag { message: "account-remote-lost", variant: BadgeVariant::Warning },
        RemoteControlState::Unavailable => StatusTag { message: "account-remote-unavailable", variant: BadgeVariant::Neutral },
    }
}

/// Where keyboard focus goes after an account message.
#[derive(Clone, Copy, Debug, PartialEq, Eq, Structural)]
pub enum ModalFocus {
    /// Focus stays where it is.
    Keep,
    /// A dialog opened: focus moves into it.
    EnterDialog,
    /// The user closed the dialog: focus returns to the control that opened it.
    ReturnToTrigger,
}

/// The messages with which the user closes an account dialog.
pub fn closes_account_dialog(message: &AccountMessage) -> (out: bool)
    ensures
        out == (*message matches AccountMessage::CancelConfirmation
            || *message matches AccountMessage::CloseAddAccount),
{
    match message {
        AccountMessage::CancelConfirmation | AccountMessage::CloseAddAccount => true,
        _ => false,
    }
}

/// Focus after an account message, given whether a blocking account dialog
/// was open before it and is open after it: a dialog that opened takes focus;
/// one the user closed hands it back to its trigger; otherwise it stays.
pub fn account_modal_focus(was_modal: bool, is_modal: bool, closing: bool) -> (out: ModalFocus)
    ensures
        out == (if !was_modal && is_modal {
            ModalFocus::EnterDialog
        } else if closing && was_modal && !is_modal {
            ModalFocus::ReturnToTrigger
        } else {
            ModalFocus::Keep
        }),
{
    if !was_modal && is_modal {
        ModalFocus::EnterDialog
    } else if closing && was_modal && !is_modal {
        ModalFocus::ReturnToTrigger
    } else {
        ModalFocus::Keep
    }
}

/// Where copying the server address stands.
#[derive(Clone, Copy, Debug, PartialEq, Eq, Structural)]
pub enum CopyStatus {
    Idle,
    Copied,
    Failed,
}

/// The signed-in account.
#[derive(Clone, Debug)]
pub struct CurrentAccount {
    pub user_name: String,
    pub server_name: Option<String>,
    pub server_url: String,
}

/// The facts the account management panel reads.
#[derive(Clone, Debug)]
pub struct ManagementFacts {
    pub current: Option<CurrentAccount>,
    pub copy_status: CopyStatus,
    /// An account handoff is under way and blocks account changes.
    pub handoff_blocking: bool,
    /// The key of the active saved profile, if any.
    pub active_key: Option<String>,
}

/// The account management panel's texts and actions.
#[derive(Clone, Debug)]
pub struct ManagementActions {
    /// `user@server` for the avatar tile, with a current account.
    pub identity: Option<String>,
    /// The server shown under the name: its name, else its address.
    pub server: Option<String>,
    /// `user · server · address`, the copy button's tooltip.
    pub copy_tooltip: Option<String>,
    pub copy_label: &'static str,
    pub add_label: &'static str,
    pub add: Option<Message>,
    pub disconnect: Option<Message>,
    pub sign_out: Option<Message>,
}

/// The server an account is shown with: its name when it has one, else its
/// address.
pub open spec fn shown_server(c: CurrentAccount) -> Seq<char> {
    match c.server_name {
        Some(name) => name@,
        None => c.server_url@,
    }
}

/// The texts and actions of the account management panel.
pub fn management_actions(facts: ManagementFacts) -> (out: ManagementActions)
    ensures
        match facts.current {
            Some(c) => {
                &&& out.identity matches Some(i) && i@ == c.user_name@ + "@"@ + shown_server(c)
                &&& out.server matches Some(s) && s@ == shown_server(c)
                &&& out.copy_tooltip matches Some(t) && t@ == c.user_name@ + " · "@ + shown_server(c)
                    + " · "@ + c.server_url@
                &&& out.disconnect matches Some(Message::Account(AccountMessage::Disconnect))
            },
            None => {
                &&& out.identity is None
                &&& out.server is None
                &&& out.copy_tooltip is None
                &&& out.disconnect is None
            },
        },
        out.copy_label@ == match facts.copy_status {
            CopyStatus::Idle => "account-copy-address"@,
            CopyStatus::Copied => "account-copied"@,
            CopyStatus::Failed => "account-retry-copy"@,
        },
        out.add_label@ == (if facts.handoff_blocking { "account-switching"@ } else { "account-add"@ }),
        facts.handoff_blocking ==> out.add is None,
        !facts.handoff_blocking ==> out.add matches Some(Message::Account(AccountMessage::AddAccount)),
        match facts.active_key {
            Some(k) => out.sign_out matches Some(Message::Account(AccountMessage::AskSignOut(key)))
                && key@ == k@,
            None => out.sign_out is None,
        },
{
    let (identity, server, copy_tooltip, disconnect) = match &facts.current {
        Some(c) => {
            let shown: &str = match &c.server_name {
                Some(name) => name.as_str(),
                None => c.server_url.as_str(),
            };
            let mut identity = String::new();
            push_str_chars(&mut identity, c.user_name.as_str());
            identity.push('@');
            push_str_chars(&mut identity, shown);
            let mut tooltip = String::new();
            push_str_chars(&mut tooltip, c.user_name.as_str());
            push_str_chars(&mut tooltip, " · ");
            push_str_chars(&mut tooltip, shown);
            push_str_chars(&mut tooltip, " · ");
            push_str_chars(&mut tooltip, c.server_url.as_str());
            proof {
                reveal_strlit("@");
            }
            assert(identity@ =~= c.user_name@ + "@"@ + shown_server(*c));
            assert(tooltip@ =~= c.user_name@ + " · "@ + shown_server(*c) + " · "@ + c.server_url@);
            (
                Some(identity),
                Some(string_of(&chars_of(shown))),
                Some(tooltip),
                Some(Message::Account(AccountMessage::Disconnect)),
            )
        },
        None => (None, None, None, None),
    };
    let copy_label = match facts.copy_status {
        CopyStatus::Idle => "account-copy-address",
        CopyStatus::Copied => "account-copied",
        CopyStatus::Failed => "account-retry-copy",
    };
    let sign_out = match &facts.active_key {
        Some(k) => Some(Message::Account(AccountMessage::AskSignOut(string_of(&chars_of(k.as_str()))))),
        None => None,
    };
    ManagementActions {
        identity,
        server,
        copy_tooltip,
        copy_label,
        add_label: if facts.handoff_blocking { "account-switching" } else { "account-add" },
        add: if facts.handoff_blocking { None } else { Some(Message::Account(AccountMessage::AddAccount)) },
        disconnect,
        sign_out,
    }
}

} // verus!
