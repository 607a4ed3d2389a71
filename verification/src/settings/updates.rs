//! The page for updates.
use crate::text::concat2;
use crate::ui::{filled, Tone, Words, WordsData};
use vstd::prelude::*;

verus! {

/// How far looking for an update has come.
pub enum UpdateStatus {
    Idle,
    Checking,
    UpToDate { latest: String },
    Available { latest: String },
    Failed,
}

/// What a click on the button does.
#[derive(Clone, Copy, PartialEq, Eq, Structural, Debug)]
pub enum UpdateAction {
    /// Opens the page of the latest release.
    OpenReleasePage,
    /// Looks for an update.
    Check,
}

/// The page: the version that runs, a status, and one button.
pub struct UpdatesPage {
    pub title: &'static str,
    pub subtitle: &'static str,
    pub version: String,
    pub status: Words,
    pub status_tone: Tone,
    pub button_id: &'static str,
    pub button_icon: &'static str,
    pub button_label: &'static str,
    pub button_enabled: bool,
    /// Whether the button stands out as what the user should do.
    pub button_primary: bool,
    pub action: UpdateAction,
}

/// What the status says.
pub open spec fn status_words(status: UpdateStatus) -> WordsData {
    match status {
        UpdateStatus::Idle => WordsData::Key("Check GitHub Releases for a newer version."),
        UpdateStatus::Checking => WordsData::Key("Checking GitHub Releases…"),
        UpdateStatus::UpToDate { latest } => WordsData::Filled {
            template: "No newer release is available (latest: {}).",
            args: seq![latest@],
        },
        UpdateStatus::Available { latest } => WordsData::Filled {
            template: "Wake {} is available. Open the release page to download it.",
            args: seq![latest@],
        },
        UpdateStatus::Failed => WordsData::Key(
            "Couldn't check for updates. Check your connection and try again.",
        ),
    }
}

/// What the button says.
pub open spec fn button_words(status: UpdateStatus) -> &'static str {
    match status {
        UpdateStatus::Idle => "Check for Updates",
        UpdateStatus::Checking => "Checking…",
        UpdateStatus::UpToDate { .. } => "Check Again",
        UpdateStatus::Available { .. } => "View Update",
        UpdateStatus::Failed => "Try Again",
    }
}

/// What a click on the button does.
pub open spec fn update_action(status: UpdateStatus) -> UpdateAction {
    match status {
        UpdateStatus::Available { .. } => UpdateAction::OpenReleasePage,
        _ => UpdateAction::Check,
    }
}

/// Whether the button can be clicked: not while an update is looked for already.
pub open spec fn can_click(status: UpdateStatus) -> bool {
    !(status is Checking)
}

fn status_message(status: &UpdateStatus) -> (r: Words)
    ensures
        r.deep_view() == status_words(*status),
{
    match status {
        UpdateStatus::Idle => Words::Key("Check GitHub Releases for a newer version."),
        UpdateStatus::Checking => Words::Key("Checking GitHub Releases…"),
        UpdateStatus::UpToDate { latest } => filled(
            "No newer release is available (latest: {}).",
            latest.as_str(),
        ),
        UpdateStatus::Available { latest } => filled(
            "Wake {} is available. Open the release page to download it.",
            latest.as_str(),
        ),
        UpdateStatus::Failed => Words::Key(
            "Couldn't check for updates. Check your connection and try again.",
        ),
    }
}

fn button_label(status: &UpdateStatus) -> (r: &'static str)
    ensures
        r == button_words(*status),
{
    match status {
        UpdateStatus::Idle => "Check for Updates",
        UpdateStatus::Checking => "Checking…",
        UpdateStatus::UpToDate { .. } => "Check Again",
        UpdateStatus::Available { .. } => "View Update",
        UpdateStatus::Failed => "Try Again",
    }
}

/// The page. Where there is an update, the button leads to it; else it looks for one, unless that
/// is going on already.
pub fn render_updates(status: &UpdateStatus, version: &str) -> (r: UpdatesPage)
    ensures
        r.title == "Updates",
        r.subtitle == "Keep Wake up to date.",
        r.version@ == "Wake "@ + version@,
        r.status.deep_view() == status_words(*status),
        r.status_tone == (if *status is Failed {
            Tone::Danger
        } else {
            Tone::Muted
        }),
        r.button_id == "settings-check-updates",
        r.button_icon == (if *status is Available {
            "icons/download.svg"
        } else {
            "icons/refresh-cw.svg"
        }),
        r.button_label == button_words(*status),
        r.button_enabled == !(*status is Checking),
        r.button_primary == *status is Available,
        r.button_enabled == can_click(*status),
        r.action == update_action(*status),
        r.action == (if *status is Available {
            UpdateAction::OpenReleasePage
        } else {
            UpdateAction::Check
        }),
{
    let (checking, available, failed) = match status {
        UpdateStatus::Checking => (true, false, false),
        UpdateStatus::Available { .. } => (false, true, false),
        UpdateStatus::Failed => (false, false, true),
        _ => (false, false, false),
    };
    UpdatesPage {
        title: "Updates",
        subtitle: "Keep Wake up to date.",
        version: concat2("Wake ", version),
        status: status_message(status),
        status_tone: if failed {
            Tone::Danger
        } else {
            Tone::Muted
        },
        button_id: "settings-check-updates",
        button_icon: if available {
            "icons/download.svg"
        } else {
            "icons/refresh-cw.svg"
        },
        button_label: button_label(status),
        button_enabled: !checking,
        button_primary: available,
        action: if available {
            UpdateAction::OpenReleasePage
        } else {
            UpdateAction::Check
        },
    }
}

}
