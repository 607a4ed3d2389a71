//! The sidebar of the settings window.
use crate::ui::Tone;
use vstd::prelude::*;

verus! {

/// A page of the settings window.
#[derive(Clone, Copy, PartialEq, Eq, Structural, Debug)]
pub enum SettingsPage {
    General,
    Locations,
    MemoryLocations,
    Remotes,
    Connect,
    Data,
    Updates,
    About,
}

/// An entry of the sidebar. The one whose page is shown is highlighted, the others light up under
/// the pointer.
#[derive(Clone, Copy, Debug)]
pub struct NavItem {
    pub id: &'static str,
    pub label: &'static str,
    pub icon: &'static str,
    pub page: SettingsPage,
    pub active: bool,
    pub tone: Tone,
}

/// The entry for a page while `selected` is shown.
pub open spec fn nav_item(
    id: &'static str,
    label: &'static str,
    icon: &'static str,
    page: SettingsPage,
    selected: SettingsPage,
) -> NavItem {
    NavItem {
        id,
        label,
        icon,
        page,
        active: page == selected,
        tone: if page == selected { Tone::SidebarActive } else { Tone::Sidebar },
    }
}

/// The entry for a page while `selected` is shown.
pub fn render_nav_item(
    id: &'static str,
    label: &'static str,
    icon: &'static str,
    page: SettingsPage,
    selected: SettingsPage,
) -> (r: NavItem)
    ensures
        r == nav_item(id, label, icon, page, selected),
{
    let active = page == selected;
    NavItem {
        id,
        label,
        icon,
        page,
        active,
        tone: if active {
            Tone::SidebarActive
        } else {
            Tone::Sidebar
        },
    }
}

/// The sidebar: a title, the pages, and two pages at the foot. It has a title bar of its own where
/// the window has none from the system.
pub struct Sidebar {
    pub titlebar: bool,
    pub title: &'static str,
    pub main: Vec<NavItem>,
    pub foot: Vec<NavItem>,
}

/// The entries of the pages.
pub open spec fn main_items(selected: SettingsPage) -> Seq<NavItem> {
    seq![
        nav_item(
            "settings-general-nav",
            "General",
            "icons/settings.svg",
            SettingsPage::General,
            selected,
        ),
        nav_item(
            "settings-locations-nav",
            "Session locations",
            "icons/hard-drive.svg",
            SettingsPage::Locations,
            selected,
        ),
        nav_item(
            "settings-memory-locations-nav",
            "Memory locations",
            "icons/brain.svg",
            SettingsPage::MemoryLocations,
            selected,
        ),
        nav_item(
            "settings-remotes-nav",
            "Remote hosts",
            "icons/server.svg",
            SettingsPage::Remotes,
            selected,
        ),
        nav_item(
            "settings-connect-nav",
            "Connect",
            "icons/plug.svg",
            SettingsPage::Connect,
            selected,
        ),
        nav_item("settings-data-nav", "Data", "icons/database.svg", SettingsPage::Data, selected),
    ]
}

/// The entries at the foot.
pub open spec fn foot_items(selected: SettingsPage) -> Seq<NavItem> {
    seq![
        nav_item(
            "settings-updates-nav",
            "Updates",
            "icons/download.svg",
            SettingsPage::Updates,
            selected,
        ),
        nav_item("settings-about-nav", "About", "icons/info.svg", SettingsPage::About, selected),
    ]
}

/// The sidebar while `selected` is shown.
pub fn render_sidebar(
    macos: bool,
    client_decorations: bool,
    selected: SettingsPage,
) -> (r: Sidebar)
    ensures
        r.titlebar == (macos || client_decorations),
        r.title == "Settings",
        r.main@ == main_items(selected),
        r.foot@ == foot_items(selected),
{
    let mut main: Vec<NavItem> = Vec::new();
    main.push(
        render_nav_item(
            "settings-general-nav",
            "General",
            "icons/settings.svg",
            SettingsPage::General,
            selected,
        ),
    );
    main.push(
        render_nav_item(
            "settings-locations-nav",
            "Session locations",
            "icons/hard-drive.svg",
            SettingsPage::Locations,
            selected,
        ),
    );
    main.push(
        render_nav_item(
            "settings-memory-locations-nav",
            "Memory locations",
            "icons/brain.svg",
            SettingsPage::MemoryLocations,
            selected,
        ),
    );
    main.push(
        render_nav_item(
            "settings-remotes-nav",
            "Remote hosts",
            "icons/server.svg",
            SettingsPage::Remotes,
            selected,
        ),
    );
    main.push(
        render_nav_item(
            "settings-connect-nav",
            "Connect",
            "icons/plug.svg",
            SettingsPage::Connect,
            selected,
        ),
    );
    main.push(
        render_nav_item(
            "settings-data-nav",
            "Data",
            "icons/database.svg",
            SettingsPage::Data,
            selected,
        ),
    );
    let mut foot: Vec<NavItem> = Vec::new();
    foot.push(
        render_nav_item(
            "settings-updates-nav",
            "Updates",
            "icons/download.svg",
            SettingsPage::Updates,
            selected,
        ),
    );
    foot.push(
        render_nav_item(
            "settings-about-nav",
            "About",
            "icons/info.svg",
            SettingsPage::About,
            selected,
        ),
    );
    assert(main@ =~= main_items(selected));
    assert(foot@ =~= foot_items(selected));
    Sidebar { titlebar: macos || client_decorations, title: "Settings", main, foot }
}

/// Whatever page is shown has exactly one entry in the sidebar, and that one is highlighted.
pub proof fn law_one_entry_is_highlighted(selected: SettingsPage)
    ensures
        ({
            let all = main_items(selected) + foot_items(selected);
            &&& exists|i: int| 0 <= i < all.len() && (#[trigger] all[i]).page == selected
            &&& forall|i: int|
                0 <= i < all.len() ==> (#[trigger] all[i]).active == (all[i].page == selected)
            &&& forall|i: int, j: int|
                #![trigger all[i], all[j]]
                0 <= i < j < all.len() ==> all[i].page != all[j].page
        }),
{
    let all = main_items(selected) + foot_items(selected);
    let at: int = match selected {
        SettingsPage::General => 0,
        SettingsPage::Locations => 1,
        SettingsPage::MemoryLocations => 2,
        SettingsPage::Remotes => 3,
        SettingsPage::Connect => 4,
        SettingsPage::Data => 5,
        SettingsPage::Updates => 6,
        SettingsPage::About => 7,
    };
    assert(all[at].page == selected);
}

}
