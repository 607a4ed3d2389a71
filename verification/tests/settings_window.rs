//! The settings window.
use wake::models::AgentId;
use wake::settings::about::render_about;
use wake::settings::connect::{
    render_connect, BinaryFacts, ConnectInfo, SetupSnippet, CONNECT_CLI_GUIDE_URL,
    CONNECT_GUIDE_URL,
};
use wake::settings::data::{format_storage_size, render_data, StorageSize};
use wake::settings::general::{language_failed, render_general, AppearancePreference, Locale};
use wake::settings::locations::{
    group_by_agent, render_location_row, render_locations, render_memory_location_row,
    render_memory_locations, DataSourceRow, LocationsAction, MemoryLocationRow, MenuItem,
};
use wake::settings::nav::{render_sidebar, SettingsPage};
use wake::settings::remotes::{
    remote_row_clicked, render_remotes, HeadAction, RemoteAction, RemoteClick, RemoteHost,
};
use wake::settings::state::{
    snapshot_wanted, LocationSettingsSnapshot, MemoryLocationSettingsSnapshot, SettingsView,
    Snapshot, SnapshotKind, COPIED_MS,
};
use wake::settings::updates::{render_updates, UpdateAction, UpdateStatus};
use wake::ui::{Tone, Words};

fn words(w: &Words) -> String {
    match w {
        Words::Key(k) => k.to_string(),
        Words::Filled { template, args } => format!("{template} {args:?}"),
        Words::Counted { one, many, count } => format!("{one} {many} {count}"),
        Words::Plain(p) => p.clone(),
    }
}

fn menu(items: &[MenuItem]) -> Vec<String> {
    items
        .iter()
        .map(|i| match i {
            MenuItem::Edit => "edit".to_string(),
            MenuItem::Reveal(p) => format!("reveal {p}"),
            MenuItem::Separator => "-".to_string(),
            MenuItem::Remove(p) => format!("remove {p}"),
        })
        .collect()
}

fn source(agent: AgentId, raw: &str, exists: bool, custom: Option<&str>) -> DataSourceRow {
    DataSourceRow {
        agent,
        display: format!("~{raw}"),
        raw: raw.to_string(),
        tally: "3 sessions".to_string(),
        enabled: true,
        exists,
        custom: custom.map(String::from),
    }
}

fn memory(agent: AgentId, raw: &str) -> MemoryLocationRow {
    MemoryLocationRow {
        agent,
        display: raw.to_string(),
        raw: raw.to_string(),
        tally: "1 file".to_string(),
        enabled: true,
        exists: true,
        custom: false,
        pattern: false,
    }
}

#[test]
fn the_sidebar_highlights_the_page_that_is_shown() {
    let s = render_sidebar(false, true, SettingsPage::Data);
    assert!(s.titlebar);
    assert!(!render_sidebar(false, false, SettingsPage::Data).titlebar);
    assert_eq!(s.title, "Settings");
    let labels: Vec<&str> = s.main.iter().chain(s.foot.iter()).map(|i| i.label).collect();
    assert_eq!(
        labels,
        vec![
            "General", "Session locations", "Memory locations", "Remote hosts", "Connect", "Data",
            "Updates", "About",
        ]
    );
    let active: Vec<&str> =
        s.main.iter().chain(s.foot.iter()).filter(|i| i.active).map(|i| i.id).collect();
    assert_eq!(active, vec!["settings-data-nav"]);
    assert_eq!((s.main[5].tone, s.main[0].tone), (Tone::SidebarActive, Tone::Sidebar));
}

#[test]
fn menus_of_locations_offer_what_can_be_done() {
    let a = AgentId::Zcode;
    let row = render_location_row(source(a, "/x", true, Some("stored")), 4);
    assert_eq!(row.ix, 4);
    assert_eq!(menu(&row.menu), vec!["edit", "reveal /x", "-", "remove stored"]);
    assert_eq!((row.display_tone, row.tally_tone), (Tone::Foreground, Tone::Muted));
    assert_eq!((row.tooltip, row.id.as_str(), row.display.as_str()), ("Disable location", "/x", "~/x"));
    let row = render_location_row(source(a, "/x", false, None), 0);
    assert_eq!(menu(&row.menu), vec!["edit"]);
    assert_eq!(row.tally_tone, Tone::Warning);
    let mut off = source(a, "/x", false, None);
    off.enabled = false;
    let row = render_location_row(off, 0);
    assert_eq!((row.display_tone, row.tally_tone), (Tone::Muted, Tone::Muted));
    assert_eq!(row.tooltip, "Enable location");

    let row = render_memory_location_row(memory(a, "/m"), 1);
    assert_eq!(menu(&row.menu), vec!["reveal /m"]);
    let mut own = memory(a, "/m");
    own.custom = true;
    assert_eq!(
        menu(&render_memory_location_row(own, 1).menu),
        vec!["edit", "reveal /m", "-", "remove /m"]
    );
    let mut pattern = memory(a, "<project>/NOTES.md");
    pattern.pattern = true;
    assert!(render_memory_location_row(pattern, 1).menu.is_empty());
}

#[test]
fn rows_are_grouped_by_agent_in_order() {
    let (a, b) = (AgentId::ClaudeCode, AgentId::Zcode);
    let groups = group_by_agent(vec![
        source(a, "1", true, None),
        source(a, "2", true, None),
        source(b, "3", true, None),
        source(a, "4", true, None),
    ]);
    let shape: Vec<(AgentId, usize)> = groups.iter().map(|g| (g.0, g.1.len())).collect();
    assert_eq!(shape, vec![(a, 2), (b, 1), (a, 1)]);
    assert_eq!(group_by_agent::<MemoryLocationRow>(vec![]).len(), 0);
}

#[test]
fn agents_that_were_not_found_come_in_a_fold() {
    let (a, b, c) = (AgentId::ClaudeCode, AgentId::Zcode, AgentId::Other(3));
    let rows = || {
        vec![
            source(a, "1", false, None),
            source(a, "2", true, None),
            source(b, "3", false, None),
            source(c, "4", false, Some("mine")),
        ]
    };
    let closed = render_locations(rows(), true, false);
    assert_eq!(closed.title, "Session locations");
    assert_eq!(closed.caption, "Choose where Wake looks for local agent sessions.");
    assert!(closed.restore_enabled);
    assert_eq!(closed.on_add, LocationsAction::AddLocation);
    assert_eq!(closed.on_restore, LocationsAction::RestoreLocations);
    let agents: Vec<AgentId> = closed.groups.iter().map(|g| g.agent).collect();
    assert_eq!(agents, vec![a, c]);
    let fold = closed.undetected.unwrap();
    assert_eq!((fold.label, fold.icon, fold.count), ("Not detected", "icons/chevron-right.svg", 1));
    assert!(fold.groups.is_empty());
    let open = render_locations(rows(), false, true);
    assert!(!open.restore_enabled);
    let fold = open.undetected.unwrap();
    assert_eq!(fold.icon, "icons/chevron-down.svg");
    let numbers: Vec<usize> = open
        .groups
        .iter()
        .chain(fold.groups.iter())
        .flat_map(|g| g.rows.iter().map(|r| r.ix))
        .collect();
    assert_eq!(numbers, vec![0, 1, 2, 3]);
    assert_eq!(fold.groups[0].rows[0].id, "3");
    assert!(render_locations(vec![source(a, "1", true, None)], false, true).undetected.is_none());
}

#[test]
fn memory_locations_have_no_fold() {
    let page = render_memory_locations(
        vec![memory(AgentId::Zcode, "/a"), memory(AgentId::Other(1), "/b")],
        false,
    );
    assert_eq!(page.title, "Memory locations");
    assert_eq!((page.add_label, page.restore_label), ("Add location", "Restore defaults"));
    assert_eq!((page.add_icon, page.menu_icon), ("icons/plus.svg", "icons/more-horizontal.svg"));
    assert_eq!(page.on_add, LocationsAction::AddMemoryLocation);
    assert_eq!(page.on_restore, LocationsAction::RestoreMemoryLocations);
    assert_eq!(page.groups.len(), 2);
    assert_eq!(page.groups[1].rows[0].ix, 1);
    assert!(page.undetected.is_none());
}

#[test]
fn the_language_menu_checks_the_chosen_language() {
    let locales = vec![
        Locale { tag: "en".to_string(), name: "English".to_string() },
        Locale { tag: "de".to_string(), name: "Deutsch".to_string() },
    ];
    let page = render_general(AppearancePreference::Dark, &locales, &Some("de".to_string()));
    assert_eq!(page.title, "General");
    let picked: Vec<bool> = page.appearance.control.iter().map(|b| b.selected).collect();
    assert_eq!(picked, vec![false, false, true]);
    assert_eq!(page.appearance.control[2].tone, Tone::Foreground);
    assert_eq!(words(&page.language.control.label), "Deutsch");
    let checked: Vec<(String, bool)> =
        page.language.control.options.iter().map(|o| (words(&o.name), o.checked)).collect();
    assert_eq!(
        checked,
        vec![
            ("System".to_string(), false),
            ("English".to_string(), false),
            ("Deutsch".to_string(), true),
        ]
    );
    let page = render_general(AppearancePreference::System, &locales, &None);
    assert_eq!(words(&page.language.control.label), "System");
    assert!(page.language.control.options[0].checked);
    let page = render_general(AppearancePreference::System, &locales, &Some("xx".to_string()));
    assert_eq!(words(&page.language.control.label), "System");
    assert_eq!(words(&language_failed("disk full")), "Couldn't save language: {} [\"disk full\"]");
}

#[test]
fn sizes_are_told_in_the_largest_unit() {
    let parts = |bytes: u64| match format_storage_size(bytes) {
        StorageSize::Exact(s) => s,
        StorageSize::Scaled { bytes, unit, suffix } => format!("{bytes}/{unit}{suffix}"),
    };
    assert_eq!(parts(0), "0 bytes");
    assert_eq!(parts(1023), "1023 bytes");
    assert_eq!(parts(1024), "1024/1024 KB");
    assert_eq!(parts(1048575), "1048575/1024 KB");
    assert_eq!(parts(1048576), "1048576/1048576 MB");
    assert_eq!(parts(1073741824), "1073741824/1073741824 GB");
    assert_eq!(parts(u64::MAX), format!("{}/1073741824 GB", u64::MAX));
}

#[test]
fn the_data_page_tells_of_mirrors_only_where_there_are_any() {
    let page = render_data("3 sessions", "2.0 MB", 5, "5 bytes", "~/d".to_string(), "/d".to_string());
    let summary: Vec<String> = page.summary.iter().map(words).collect();
    assert_eq!(summary, vec!["3 sessions · 2.0 MB", " ", "({} in remote mirrors) [\"5 bytes\"]"]);
    assert_eq!((page.title, page.section, page.card), ("Data", "Storage", "Wake data"));
    assert_eq!((page.path.as_str(), page.reveal.as_str()), ("~/d", "/d"));
    let page = render_data("3 sessions", "2.0 MB", 0, "", "~/d".to_string(), "/d".to_string());
    assert_eq!(page.summary.len(), 1);
}

#[test]
fn the_updates_page_follows_the_status() {
    let latest = || "2.0".to_string();
    let page = render_updates(&UpdateStatus::Idle, "1.0");
    assert_eq!(page.version, "Wake 1.0");
    assert_eq!(words(&page.status), "Check GitHub Releases for a newer version.");
    assert_eq!((page.button_label, page.action), ("Check for Updates", UpdateAction::Check));
    assert!(page.button_enabled && !page.button_primary);
    let page = render_updates(&UpdateStatus::Checking, "1.0");
    assert_eq!(page.button_label, "Checking…");
    assert!(!page.button_enabled);
    let page = render_updates(&UpdateStatus::UpToDate { latest: latest() }, "1.0");
    assert_eq!(words(&page.status), "No newer release is available (latest: {}). [\"2.0\"]");
    assert_eq!(page.button_label, "Check Again");
    let page = render_updates(&UpdateStatus::Available { latest: latest() }, "1.0");
    assert_eq!((page.button_label, page.action), ("View Update", UpdateAction::OpenReleasePage));
    assert_eq!(page.button_icon, "icons/download.svg");
    assert!(page.button_primary);
    let page = render_updates(&UpdateStatus::Failed, "1.0");
    assert_eq!((page.button_label, page.status_tone), ("Try Again", Tone::Danger));
}

#[test]
fn the_about_page_names_version_and_links() {
    let page = render_about("1.2.3");
    assert_eq!(words(&page.version), "Version {} [\"1.2.3\"]");
    assert_eq!(page.repository.url, "https://github.com/iAmCorey/Wake");
    assert_eq!(page.author.id, "about-author");
}

#[test]
fn remote_hosts_can_be_copied_from_one_at_a_time() {
    let host = |enabled: bool, failed: bool| RemoteHost {
        name: "box".to_string(),
        status: "ok".to_string(),
        enabled,
        failed,
    };
    let page = render_remotes(vec![host(true, true), host(false, true)], false);
    let sync = page.sync.unwrap();
    assert_eq!((sync.label, sync.enabled), ("Sync now", true));
    assert!(page.empty.is_none());
    let (on, off) = (&page.rows[0], &page.rows[1]);
    assert_eq!((on.name_tone, on.status_tone, on.line_above), (Tone::Foreground, Tone::Danger, false));
    assert_eq!((off.name_tone, off.status_tone, off.line_above), (Tone::Muted, Tone::Muted, true));
    assert_eq!((on.sync_enabled, off.sync_enabled), (true, false));
    assert_eq!((on.tooltip, off.tooltip), ("Disable host", "Enable host"));
    assert_eq!((sync.action, page.add.action), (HeadAction::SyncAll, HeadAction::OpenAddForm));
    match remote_row_clicked(on, RemoteClick::Sync) {
        Some(RemoteAction::Sync(names)) => assert_eq!(names, vec![on.name.clone()]),
        _ => panic!("copy"),
    }
    assert!(remote_row_clicked(off, RemoteClick::Sync).is_none());
    match remote_row_clicked(off, RemoteClick::Remove) {
        Some(RemoteAction::ConfirmRemove(name)) => assert_eq!(name, off.name),
        _ => panic!("ask"),
    }
    match remote_row_clicked(off, RemoteClick::Switch(true)) {
        Some(RemoteAction::SetEnabled { name, enabled }) => {
            assert_eq!((name.as_str(), enabled), (off.name.as_str(), true))
        }
        _ => panic!("switch"),
    }
    let page = render_remotes(vec![host(true, false)], true);
    assert_eq!((page.sync.unwrap().label, page.rows[0].sync_enabled), ("Syncing…", false));
    let page = render_remotes(vec![], false);
    assert!(page.sync.is_none() && page.rows.is_empty());
    assert_eq!(page.empty.unwrap(), "No remote hosts yet. Add one to mirror its sessions into Wake.");
    assert_eq!((page.add.label, page.add.enabled), ("Add host", true));
}

fn info() -> ConnectInfo {
    let snippet = |client: &'static str| SetupSnippet {
        agent: AgentId::Zcode,
        client,
        hint: "Paste it",
        copy_label: "Copy command",
        text: "first\r\nsecond\n".to_string(),
    };
    ConnectInfo::probe(
        BinaryFacts::probe("wake-mcp", Some("/b/wake-mcp".to_string()), true, "~/wake-mcp".to_string()),
        BinaryFacts::probe("wake-cli", None, true, "wake-cli".to_string()),
        Some("ln -s".to_string()),
        vec![snippet("One"), snippet("Two")],
    )
}

#[test]
fn the_connect_page_shows_snippets_that_are_open() {
    let mut view = SettingsView::new(AppearancePreference::System);
    view.toggle_snippet(1);
    let page = render_connect(&view, &info(), "npx install");
    assert_eq!(page.server.guide.unwrap().1, CONNECT_GUIDE_URL);
    assert_eq!(page.command_line.guide.unwrap().1, CONNECT_CLI_GUIDE_URL);
    assert!(page.clients.guide.is_none() && page.skill.guide.is_none());
    let (one, two) = (&page.client_rows[0], &page.client_rows[1]);
    assert_eq!((one.toggle_label, one.toggle_icon), ("Show", "icons/chevron-right.svg"));
    assert!(one.lines.is_none() && one.line_below);
    assert_eq!((two.toggle_label, two.toggle_id.as_str()), ("Hide", "connect-show-1"));
    assert_eq!(two.lines.as_ref().unwrap(), &vec!["first".to_string(), "second".to_string()]);
    assert!(!two.line_below);
    assert_eq!((two.copy.id.as_str(), two.copy.label), ("connect-copy-1", "Copy command"));
    assert_eq!(page.server_card.details.len(), 1);
    assert_eq!(page.server_card.copy.text, "/b/wake-mcp");
    assert!(page.server_card.extra.is_none());
    let cli = &page.command_line_card;
    assert_eq!(cli.copy.text, "wake-cli");
    assert_eq!(cli.details[1].tone, Tone::Danger);
    assert_eq!(cli.extra.as_ref().unwrap().text, "ln -s");
    assert_eq!(page.skill_card.copy.text, "npx install");
    assert_eq!(page.skill_card.details.len(), 1);
    view.toggle_snippet(1);
    assert!(!view.is_shown(1));
}

#[test]
fn only_the_last_copy_is_marked_until_its_timer_runs_out() {
    let mut view = SettingsView::new(AppearancePreference::System);
    assert_eq!(COPIED_MS, 1600);
    let first = view.show_copied("connect-copy-0".to_string());
    let second = view.show_copied("connect-copy-1".to_string());
    let page = render_connect(&view, &info(), "x");
    assert_eq!((page.client_rows[0].copy.label, page.client_rows[0].copy.icon), ("Copy command", "icons/copy.svg"));
    assert_eq!((page.client_rows[1].copy.label, page.client_rows[1].copy.icon), ("Copied", "icons/check.svg"));
    assert!(!view.copied_timer(first));
    assert!(view.is_copied("connect-copy-1"));
    assert!(view.copied_timer(second));
    assert!(!view.is_copied("connect-copy-1"));
}

#[test]
fn the_window_remembers_what_was_chosen() {
    let mut view = SettingsView::new(AppearancePreference::Light);
    assert!(view.choose_appearance(AppearancePreference::Dark, None).is_none());
    assert_eq!(view.appearance(), AppearancePreference::Dark);
    let told = view.choose_appearance(AppearancePreference::Light, Some("full".to_string()));
    assert_eq!(words(&told.unwrap()), "Couldn't save appearance: {} [\"full\"]");
    assert_eq!(view.appearance(), AppearancePreference::Dark);
    assert!(!view.shows_unavailable());
    view.toggle_unavailable();
    assert!(view.shows_unavailable());
    assert_eq!(snapshot_wanted(SettingsPage::Locations), SnapshotKind::Sessions);
    assert_eq!(snapshot_wanted(SettingsPage::MemoryLocations), SnapshotKind::Memories);
    assert_eq!(snapshot_wanted(SettingsPage::About), SnapshotKind::Neither);
    view.refresh_snapshots(Snapshot::Sessions(LocationSettingsSnapshot {
        rows: vec![source(AgentId::Zcode, "/x", true, None)],
        diverged: true,
    }));
    view.refresh_snapshots(Snapshot::Memories(MemoryLocationSettingsSnapshot {
        rows: vec![],
        diverged: true,
    }));
    view.refresh_snapshots(Snapshot::Neither);
    assert_eq!((view.locations().rows.len(), view.locations().diverged), (1, true));
    assert!(view.memory_locations().diverged);
}
