//! The page for other machines whose sessions are copied here.
use crate::ui::Tone;
use vstd::prelude::*;

verus! {

/// Another machine: how it is called, whether it is copied from, and how the last copy went.
pub struct RemoteHost {
    pub name: String,
    pub status: String,
    pub enabled: bool,
    pub failed: bool,
}

/// What a [`RemoteHost`] holds.
pub struct HostData {
    pub name: Seq<char>,
    pub status: Seq<char>,
    pub enabled: bool,
    pub failed: bool,
}

impl DeepView for RemoteHost {
    type V = HostData;

    open spec fn deep_view(&self) -> HostData {
        HostData {
            name: self.name@,
            status: self.status@,
            enabled: self.enabled,
            failed: self.failed,
        }
    }
}

/// The row of a machine: its name and the state of its copy, a menu to copy now or remove it, and a
/// switch.
pub struct RemoteRow {
    pub ix: usize,
    pub name: String,
    pub name_tone: Tone,
    pub status: String,
    pub status_tone: Tone,
    /// Whether a line is drawn above the row.
    pub line_above: bool,
    pub sync_label: &'static str,
    pub sync_enabled: bool,
    pub remove_label: &'static str,
    pub enabled: bool,
    pub tooltip: &'static str,
}

/// What a [`RemoteRow`] holds.
pub struct RemoteRowData {
    pub ix: int,
    pub name: Seq<char>,
    pub name_tone: Tone,
    pub status: Seq<char>,
    pub status_tone: Tone,
    pub line_above: bool,
    pub sync_label: &'static str,
    pub sync_enabled: bool,
    pub remove_label: &'static str,
    pub enabled: bool,
    pub tooltip: &'static str,
}

impl DeepView for RemoteRow {
    type V = RemoteRowData;

    open spec fn deep_view(&self) -> RemoteRowData {
        RemoteRowData {
            ix: self.ix as int,
            name: self.name@,
            name_tone: self.name_tone,
            status: self.status@,
            status_tone: self.status_tone,
            line_above: self.line_above,
            sync_label: self.sync_label,
            sync_enabled: self.sync_enabled,
            remove_label: self.remove_label,
            enabled: self.enabled,
            tooltip: self.tooltip,
        }
    }
}

/// The row of a machine: one that is off is muted, and a copy that failed is told in red as long as
/// the machine is on. It cannot be copied from while it is off or a copy is going on.
pub open spec fn remote_row(h: HostData, ix: int, syncing: bool) -> RemoteRowData {
    RemoteRowData {
        ix,
        name: h.name,
        name_tone: if h.enabled { Tone::Foreground } else { Tone::Muted },
        status: h.status,
        status_tone: if h.failed && h.enabled { Tone::Danger } else { Tone::Muted },
        line_above: ix > 0,
        sync_label: "Sync now",
        sync_enabled: !(syncing || !h.enabled),
        remove_label: "Remove",
        enabled: h.enabled,
        tooltip: if h.enabled { "Disable host" } else { "Enable host" },
    }
}

/// The rows of all machines.
pub open spec fn remote_rows(hosts: Seq<HostData>, syncing: bool) -> Seq<RemoteRowData> {
    Seq::new(hosts.len(), |i: int| remote_row(hosts[i], i, syncing))
}

fn render_remote_row(h: RemoteHost, ix: usize, syncing: bool) -> (r: RemoteRow)
    ensures
        r.deep_view() == remote_row(h.deep_view(), ix as int, syncing),
{
    let enabled = h.enabled;
    RemoteRow {
        ix,
        name: h.name,
        name_tone: if enabled {
            Tone::Foreground
        } else {
            Tone::Muted
        },
        status: h.status,
        status_tone: if h.failed && enabled {
            Tone::Danger
        } else {
            Tone::Muted
        },
        line_above: ix > 0,
        sync_label: "Sync now",
        sync_enabled: !(syncing || !enabled),
        remove_label: "Remove",
        enabled,
        tooltip: if enabled {
            "Disable host"
        } else {
            "Enable host"
        },
    }
}

/// What a click in the row of a machine is on; a switch tells what it was set to.
#[derive(Clone, Copy, PartialEq, Eq, Structural, Debug)]
pub enum RemoteClick {
    Sync,
    Remove,
    Switch(bool),
}

/// What a click in the row of a machine starts.
pub enum RemoteAction {
    /// Copy from these machines.
    Sync(Vec<String>),
    /// Ask whether to remove this machine.
    ConfirmRemove(String),
    /// Copy from this machine from now on, or no longer.
    SetEnabled { name: String, enabled: bool },
}

/// What a [`RemoteAction`] holds.
pub enum RemoteActionData {
    Sync(Seq<Seq<char>>),
    ConfirmRemove(Seq<char>),
    SetEnabled { name: Seq<char>, enabled: bool },
}

impl DeepView for RemoteAction {
    type V = RemoteActionData;

    open spec fn deep_view(&self) -> RemoteActionData {
        match self {
            RemoteAction::Sync(names) => RemoteActionData::Sync(names.deep_view()),
            RemoteAction::ConfirmRemove(name) => RemoteActionData::ConfirmRemove(name@),
            RemoteAction::SetEnabled { name, enabled } => RemoteActionData::SetEnabled {
                name: name@,
                enabled: *enabled,
            },
        }
    }
}

/// What a click in a row starts: it is about the machine of that row alone. A menu entry that is off
/// starts nothing.
pub open spec fn remote_action(row: RemoteRowData, click: RemoteClick) -> Option<RemoteActionData> {
    match click {
        RemoteClick::Sync => if row.sync_enabled {
            Some(RemoteActionData::Sync(seq![row.name]))
        } else {
            None
        },
        RemoteClick::Remove => Some(RemoteActionData::ConfirmRemove(row.name)),
        RemoteClick::Switch(enabled) => Some(
            RemoteActionData::SetEnabled { name: row.name, enabled },
        ),
    }
}

/// What a click in a row starts.
pub fn remote_row_clicked(row: &RemoteRow, click: RemoteClick) -> (r: Option<RemoteAction>)
    ensures
        r.deep_view() == remote_action(row.deep_view(), click),
{
    match click {
        RemoteClick::Sync => if row.sync_enabled {
            let mut names: Vec<String> = Vec::new();
            names.push(row.name.clone());
            assert(names.deep_view() =~= seq![row.name@]);
            Some(RemoteAction::Sync(names))
        } else {
            None
        },
        RemoteClick::Remove => Some(RemoteAction::ConfirmRemove(row.name.clone())),
        RemoteClick::Switch(enabled) => Some(
            RemoteAction::SetEnabled { name: row.name.clone(), enabled },
        ),
    }
}

/// What a button in the head of the page starts.
#[derive(Clone, Copy, PartialEq, Eq, Structural, Debug)]
pub enum HeadAction {
    /// Copy from all machines.
    SyncAll,
    /// Open the form for another machine.
    OpenAddForm,
}

/// A button in the head of the page.
#[derive(Clone, Copy, Debug)]
pub struct HeadButton {
    pub id: &'static str,
    pub icon: &'static str,
    pub label: &'static str,
    pub enabled: bool,
    pub action: HeadAction,
}

/// The page: a button to copy from all machines where there are any, a button to add one, and the
/// machines or a sentence that there are none.
pub struct RemotesPage {
    pub title: &'static str,
    pub caption: &'static str,
    pub sync: Option<HeadButton>,
    pub add: HeadButton,
    pub rows: Vec<RemoteRow>,
    pub empty: Option<&'static str>,
}

/// The page.
pub fn render_remotes(hosts: Vec<RemoteHost>, syncing: bool) -> (r: RemotesPage)
    ensures
        r.title == "Remote hosts",
        r.caption
            == "Mirror agent sessions from other machines over SSH. Read-only: nothing on the remote is ever written.",
        r.sync == (if hosts@.len() > 0 {
            Some(
                HeadButton {
                    id: "settings-sync-remotes",
                    icon: "icons/refresh-cw.svg",
                    label: if syncing {
                        "Syncing…"
                    } else {
                        "Sync now"
                    },
                    enabled: !syncing,
                    action: HeadAction::SyncAll,
                },
            )
        } else {
            None
        }),
        r.add == (HeadButton {
            id: "settings-add-remote-host",
            icon: "icons/plus.svg",
            label: "Add host",
            enabled: true,
            action: HeadAction::OpenAddForm,
        }),
        r.rows.deep_view() == remote_rows(hosts.deep_view(), syncing),
        r.empty == (if hosts@.len() > 0 {
            None
        } else {
            Some("No remote hosts yet. Add one to mirror its sessions into Wake.")
        }),
{
    let has_hosts = hosts.len() > 0;
    let total: usize = hosts.len();
    let ghost raw = hosts@;
    let ghost all = hosts.deep_view();
    let mut rows: Vec<RemoteRow> = Vec::new();
    let mut ix: usize = 0;
    for h in it: hosts
        invariant
            it.seq() == raw,
            total == raw.len(),
            ix == it.index(),
            all == raw.map_values(|h: RemoteHost| h.deep_view()),
            rows.deep_view() == remote_rows(all, syncing).take(it.index() as int),
    {
        let ghost before = rows.deep_view();
        let row = render_remote_row(h, ix, syncing);
        rows.push(row);
        proof {
            assert(rows.deep_view() =~= before.push(row.deep_view()));
            assert(all[it.index() as int] == h.deep_view());
            assert(rows.deep_view() =~= remote_rows(all, syncing).take(it.index() as int + 1));
        }
        ix = ix + 1;
    }
    assert(remote_rows(all, syncing).take(all.len() as int) =~= remote_rows(all, syncing));
    RemotesPage {
        title: "Remote hosts",
        caption: "Mirror agent sessions from other machines over SSH. Read-only: nothing on the remote is ever written.",
        sync: if has_hosts {
            Some(
                HeadButton {
                    id: "settings-sync-remotes",
                    icon: "icons/refresh-cw.svg",
                    label: if syncing {
                        "Syncing…"
                    } else {
                        "Sync now"
                    },
                    enabled: !syncing,
                    action: HeadAction::SyncAll,
                },
            )
        } else {
            None
        },
        add: HeadButton {
            id: "settings-add-remote-host",
            icon: "icons/plus.svg",
            label: "Add host",
            enabled: true,
            action: HeadAction::OpenAddForm,
        },
        rows,
        empty: if has_hosts {
            None
        } else {
            Some("No remote hosts yet. Add one to mirror its sessions into Wake.")
        },
    }
}

/// While a copy is going on no other can be started from a row.
pub proof fn law_one_copy_at_a_time(hosts: Seq<HostData>)
    ensures
        forall|i: int|
            0 <= i < hosts.len() ==> !(#[trigger] remote_rows(hosts, true)[i]).sync_enabled
                && remote_action(remote_rows(hosts, true)[i], RemoteClick::Sync) is None,
{
}

/// A machine that is off is not copied from: its row starts no copy, and only the switch or the
/// menu's other entry does anything.
pub proof fn law_machines_that_are_off_stay_alone(hosts: Seq<HostData>, syncing: bool, i: int)
    requires
        0 <= i < hosts.len(),
        !hosts[i].enabled,
    ensures
        remote_action(remote_rows(hosts, syncing)[i], RemoteClick::Sync) is None,
{
}

}
