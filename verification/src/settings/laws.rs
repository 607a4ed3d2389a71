//! What holds of every page of the settings window: that each row, button and menu is about the
//! thing that it stands for.
use crate::models::AgentId;
use crate::settings::connect;
use crate::settings::connect::{BinaryFacts, CopyData, SetupSnippet};
use crate::settings::data;
use crate::settings::data::SizeData;
use crate::settings::general;
use crate::settings::general::AppearancePreference;
use crate::settings::locations;
use crate::settings::locations::{
    DataSourceRow, Location, LocationRowData, MemoryLocationRow, MenuData,
};
use crate::settings::nav;
use crate::settings::nav::SettingsPage;
use crate::settings::remotes;
use crate::settings::remotes::{HostData, RemoteActionData, RemoteClick};
use crate::settings::state;
use crate::settings::state::{SettingsData, SnapshotKind};
use crate::settings::updates;
use crate::settings::updates::{UpdateAction, UpdateStatus};
use crate::text;
use crate::ui::{Tone, WordsData};
use vstd::prelude::*;

verus! {

/// The appearance switch offers the three preferences in order, and the one that is chosen stands
/// out, and no other.
pub proof fn law_the_chosen_appearance_stands_out(current: AppearancePreference, i: int)
    requires
        0 <= i < general::appearance_switch(current).len(),
    ensures
        ({
            let all = general::appearance_switch(current);
            &&& all.len() == 3
            &&& all[0].preference == AppearancePreference::System
            &&& all[1].preference == AppearancePreference::Light
            &&& all[2].preference == AppearancePreference::Dark
            &&& all[i].selected <==> all[i].preference == current
            &&& all[i].tone == Tone::Foreground <==> all[i].preference == current
            &&& all[i].preference == AppearancePreference::System ==> all[i].label == "System"
            &&& all[i].preference == AppearancePreference::Light ==> all[i].label == "Light"
            &&& all[i].preference == AppearancePreference::Dark ==> all[i].label == "Dark"
        }),
{
}

proof fn lemma_named_from(
    available: Seq<(Seq<char>, Seq<char>)>,
    tag: Seq<char>,
    from: int,
    i: int,
)
    requires
        0 <= from <= i <= available.len(),
        forall|j: int| from <= j < i ==> (#[trigger] available[j]).0 != tag,
        i < available.len() ==> available[i].0 == tag,
    ensures
        general::name_of_tag(available, tag, from) == (if i < available.len() {
            Some(available[i].1)
        } else {
            None
        }),
    decreases i - from,
{
    if from < i {
        assert(available[from].0 != tag);
        lemma_named_from(available, tag, from + 1, i);
    }
}

/// The language menu says the name of the language that is chosen, and that of the system where none
/// is or the app cannot speak it.
pub proof fn law_the_menu_names_the_chosen_language(
    available: Seq<(Seq<char>, Seq<char>)>,
    tag: Seq<char>,
    i: int,
)
    requires
        0 <= i <= available.len(),
        forall|j: int| 0 <= j < i ==> (#[trigger] available[j]).0 != tag,
        i < available.len() ==> available[i].0 == tag,
    ensures
        i < available.len() ==> general::language_label(available, Some(tag)) == WordsData::Plain(
            available[i].1,
        ),
        i == available.len() ==> general::language_label(available, Some(tag)) == WordsData::Key(
            "System",
        ),
        general::language_label(available, None) == WordsData::Key("System"),
{
    lemma_named_from(available, tag, 0, i);
}

/// The language menu offers the system first and then every language, in order and by its name; an
/// entry is checked exactly if it is the chosen one.
pub proof fn law_the_menu_offers_every_language(
    available: Seq<(Seq<char>, Seq<char>)>,
    current: Option<Seq<char>>,
    i: int,
)
    requires
        0 <= i < available.len(),
    ensures
        ({
            let all = general::language_options(available, current);
            &&& all.len() == available.len() + 1
            &&& all[0].tag is None
            &&& all[0].checked <==> current is None
            &&& all[i + 1].tag == Some(available[i].0)
            &&& all[i + 1].name == WordsData::Plain(available[i].1)
            &&& all[i + 1].checked <==> current == Some(available[i].0)
        }),
{
}

/// Only the two location pages need their locations read again, each its own.
pub proof fn law_pages_read_what_they_show(page: SettingsPage)
    ensures
        state::snapshot_of(page) == SnapshotKind::Sessions <==> page == SettingsPage::Locations,
        state::snapshot_of(page) == SnapshotKind::Memories <==> page
            == SettingsPage::MemoryLocations,
{
}

/// A copy marks its button and nothing else; the timer of the last copy takes the mark away, and
/// that of an earlier one does nothing.
pub proof fn law_copies_mark_their_button(s: SettingsData, id: Seq<char>, generation: u64)
    ensures
        ({
            let after = state::after_copying(s, id);
            let later = state::after_timer(s, generation);
            &&& after.copied == Some(id)
            &&& after.copied_generation != s.copied_generation
            &&& after == (SettingsData {
                copied: after.copied,
                copied_generation: after.copied_generation,
                ..s
            })
            &&& generation != s.copied_generation ==> later == s
            &&& generation == s.copied_generation ==> later == (SettingsData { copied: None, ..s })
        }),
{
}

/// The menu of a location offers what it can do and nothing else, and what takes the location off
/// the list stands at the end, apart from the rest.
pub proof fn law_menus_offer_what_is_possible(
    edit: bool,
    reveal: Option<Seq<char>>,
    remove: Option<Seq<char>>,
)
    ensures
        ({
            let menu = locations::menu_of(edit, reveal, remove);
            &&& menu.contains(MenuData::Edit) <==> edit
            &&& forall|i: int|
                0 <= i < menu.len() && (#[trigger] menu[i]) is Reveal ==> (reveal matches Some(p)
                    && menu[i] == MenuData::Reveal(p))
            &&& reveal matches Some(p) ==> menu.contains(MenuData::Reveal(p))
            &&& forall|i: int|
                0 <= i < menu.len() && (#[trigger] menu[i]) is Remove ==> (remove matches Some(p)
                    && menu[i] == MenuData::Remove(p))
            &&& remove matches Some(p) ==> menu.len() >= 2 && menu.last() == MenuData::Remove(p)
                && menu[menu.len() - 2] is Separator
            &&& menu.contains(MenuData::Separator) <==> remove is Some
        }),
{
    let menu = locations::menu_of(edit, reveal, remove);
    if edit {
        assert(menu[0] == MenuData::Edit);
    }
    if let Some(p) = reveal {
        let at = if edit {
            1int
        } else {
            0int
        };
        assert(menu[at] == MenuData::Reveal(p));
    }
    if remove is Some {
        assert(menu[menu.len() - 2] == MenuData::Separator);
    }
}

/// Whether a row shows a location as it is: its path and its count, muted where it is off, and with
/// a warning where it is on but not there; the switch offers the other state.
pub open spec fn shows(
    row: LocationRowData,
    agent: AgentId,
    raw: Seq<char>,
    display: Seq<char>,
    tally: Seq<char>,
    enabled: bool,
    exists: bool,
) -> bool {
    &&& row.agent == agent
    &&& row.id == raw
    &&& row.display == display
    &&& row.tally == tally
    &&& row.enabled == enabled
    &&& row.display_tone == Tone::Foreground <==> enabled
    &&& row.tally_tone == Tone::Warning <==> enabled && !exists
    &&& enabled ==> row.tooltip == "Disable location"
    &&& !enabled ==> row.tooltip == "Enable location"
}

/// The row of a session location shows it as it is. It can be edited, shown where it is there, and
/// taken off the list where the user has added it, under the path that is stored.
pub proof fn law_session_locations_are_shown_as_they_are(r: DataSourceRow, ix: int)
    ensures
        ({
            let row = r.spec_row(ix);
            &&& row.ix == ix
            &&& shows(row, r.agent, r.raw@, r.display@, r.tally@, r.enabled, r.exists)
            &&& row.menu.contains(MenuData::Edit)
            &&& row.menu.contains(MenuData::Reveal(r.raw@)) <==> r.exists
            &&& match r.custom {
                Some(p) => row.menu.last() == MenuData::Remove(p@),
                None => forall|i: int|
                    0 <= i < row.menu.len() ==> !((#[trigger] row.menu[i]) is Remove),
            }
        }),
{
    let reveal = if r.exists {
        Some(r.raw@)
    } else {
        None
    };
    law_menus_offer_what_is_possible(true, reveal, r.custom.deep_view());
}

/// The row of a memory location shows it as it is. Only one that the user has added can be edited and
/// taken off the list; only one that is a path, and is there, can be shown.
pub proof fn law_memory_locations_are_shown_as_they_are(r: MemoryLocationRow, ix: int)
    ensures
        ({
            let row = r.spec_row(ix);
            &&& row.ix == ix
            &&& shows(row, r.agent, r.raw@, r.display@, r.tally@, r.enabled, r.exists)
            &&& row.menu.contains(MenuData::Edit) <==> r.custom
            &&& row.menu.contains(MenuData::Reveal(r.raw@)) <==> r.exists && !r.pattern
            &&& r.custom ==> row.menu.last() == MenuData::Remove(r.raw@)
            &&& !r.custom ==> forall|i: int|
                0 <= i < row.menu.len() ==> !((#[trigger] row.menu[i]) is Remove)
        }),
{
    let reveal = if !r.pattern && r.exists {
        Some(r.raw@)
    } else {
        None
    };
    let remove = if r.custom {
        Some(r.raw@)
    } else {
        None
    };
    law_menus_offer_what_is_possible(r.custom, reveal, remove);
}

/// A group on a page is that of its agent, and its rows are those of its locations, in order.
pub proof fn law_groups_show_their_rows<R: Location>(
    groups: Seq<(AgentId, Seq<R>)>,
    start: int,
    i: int,
    k: int,
)
    requires
        0 <= i < groups.len(),
        0 <= k < groups[i].1.len(),
    ensures
        ({
            let shown = locations::rendered(groups, start);
            &&& shown.len() == groups.len()
            &&& shown[i].agent == groups[i].0
            &&& shown[i].rows.len() == groups[i].1.len()
            &&& shown[i].rows[k] == groups[i].1[k].spec_row(shown[i].rows[k].ix)
        }),
    decreases groups.len(),
{
    let before = groups.drop_last();
    lemma_rendered_len(before, start);
    if i < before.len() {
        law_groups_show_their_rows(before, start, i, k);
        assert(locations::rendered(groups, start)[i] == locations::rendered(before, start)[i]);
    } else {
        groups[i].1[k].lemma_row_number(start + locations::row_count(before) + k);
    }
}

proof fn lemma_rendered_len<R: Location>(groups: Seq<(AgentId, Seq<R>)>, start: int)
    ensures
        locations::rendered(groups, start).len() == groups.len(),
    decreases groups.len(),
{
    if groups.len() > 0 {
        lemma_rendered_len(groups.drop_last(), start);
    }
}

/// A group of session locations is shown at once if one of its locations is there or was added by
/// the user, and is in the fold if not; both keep their order.
pub proof fn law_the_fold_holds_what_was_not_found(
    groups: Seq<(AgentId, Seq<DataSourceRow>)>,
    next: (AgentId, Seq<DataSourceRow>),
)
    ensures
        ({
            let found = exists|i: int|
                0 <= i < next.1.len() && ((#[trigger] next.1[i]).exists || next.1[i].custom is Some);
            let more = groups.push(next);
            &&& locations::detected(more, found) == locations::detected(groups, found).push(next)
            &&& locations::detected(more, !found) == locations::detected(groups, !found)
            &&& locations::detected(seq![], found).len() == 0
        }),
{
    assert(groups.push(next).drop_last() =~= groups);
}

/// A button that copies copies its own text, and says that it has only while it is the one that just
/// did.
pub proof fn law_copy_buttons_copy_their_text(
    copied: Option<Seq<char>>,
    id: Seq<char>,
    label: &'static str,
    t: Seq<char>,
)
    ensures
        ({
            let b = connect::copy_of(copied, id, label, t);
            &&& b.id == id
            &&& b.text == t
            &&& copied == Some(id) ==> b.label == "Copied" && b.icon == "icons/check.svg"
            &&& copied != Some(id) ==> b.label == label && b.icon == "icons/copy.svg"
        }),
{
}

/// The row of a client is about that client: its snippet is what is copied, and its lines are shown
/// only while the row is open. A line is drawn below every row but the last.
pub proof fn law_clients_show_their_own_snippet(
    snippets: Seq<SetupSnippet>,
    open: Set<usize>,
    copied: Option<Seq<char>>,
    i: int,
)
    requires
        0 <= i < snippets.len(),
    ensures
        ({
            let rows = connect::client_rows(snippets, open, copied);
            let (r, s) = (rows[i], snippets[i]);
            &&& rows.len() == snippets.len()
            &&& r.ix == i
            &&& r.agent == s.agent
            &&& r.client == s.client
            &&& r.hint == s.hint
            &&& r.copy.text == s.text@
            &&& r.line_below <==> i < snippets.len() - 1
            &&& r.lines is Some <==> open.contains(i as usize)
            &&& r.lines matches Some(lines) ==> lines == text::lines_from(s.text@, 0)
            &&& open.contains(i as usize) ==> r.toggle_label == "Hide"
            &&& !open.contains(i as usize) ==> r.toggle_label == "Show"
        }),
{
}

/// The card of a program shows where it is and copies that path; it warns exactly if the program is
/// not there.
pub proof fn law_cards_show_their_program(
    name: Seq<char>,
    id: Seq<char>,
    f: BinaryFacts,
    extra: Option<CopyData>,
    copied: Option<Seq<char>>,
)
    ensures
        ({
            let card = connect::binary_card_of(name, id, f, extra, copied);
            &&& card.primary == WordsData::Plain(name)
            &&& card.copy.text == f.path@
            &&& card.copy.id == id
            &&& card.extra == extra
            &&& card.details[0].words == WordsData::Plain(f.display@)
            &&& f.exists ==> card.details.len() == 1
            &&& !f.exists ==> card.details.len() == 2 && card.details[1].tone == Tone::Danger
        }),
{
}

/// A size is told with the name of its unit.
pub proof fn law_units_are_named(bytes: u64)
    ensures
        data::size_words(bytes) matches SizeData::Scaled { bytes: b, unit, suffix } ==> {
            &&& suffix == " KB" <==> unit == 1024
            &&& suffix == " MB" <==> unit == 1024 * 1024
            &&& suffix == " GB" <==> unit == 1024 * 1024 * 1024
            &&& b == bytes && unit <= bytes
        },
        data::size_words(bytes) matches SizeData::Exact(t) ==> t == text::decimal(bytes as nat)
            + " bytes"@,
{
    reveal_strlit(" KB");
    reveal_strlit(" MB");
    reveal_strlit(" GB");
    assert(" KB"@[1] == 'K' && " MB"@[1] == 'M' && " GB"@[1] == 'G');
}

/// What other machines take up is told exactly if they take up anything.
pub proof fn law_mirrors_are_told_of(
    tally: Seq<char>,
    size: Seq<char>,
    remote_bytes: u64,
    remote_size: Seq<char>,
)
    ensures
        ({
            let words = data::summary_words(tally, size, remote_bytes, remote_size);
            &&& words[0] == WordsData::Plain(tally + " · "@ + size)
            &&& remote_bytes == 0 ==> words.len() == 1
            &&& remote_bytes > 0 ==> words.len() == 3 && (words[2] matches WordsData::Filled {
                template,
                args,
            } && args == seq![remote_size])
        }),
{
}

/// The row of a machine is about that machine, and a click in it starts something for that machine
/// alone: a copy only where the machine is on and no other copy is going on.
pub proof fn law_clicks_are_about_their_machine(
    hosts: Seq<HostData>,
    syncing: bool,
    i: int,
    switched: bool,
)
    requires
        0 <= i < hosts.len(),
    ensures
        ({
            let rows = remotes::remote_rows(hosts, syncing);
            let (r, h) = (rows[i], hosts[i]);
            &&& rows.len() == hosts.len()
            &&& r.ix == i
            &&& r.name == h.name
            &&& r.status == h.status
            &&& r.enabled == h.enabled
            &&& r.sync_enabled <==> h.enabled && !syncing
            &&& r.status_tone == Tone::Danger <==> h.enabled && h.failed
            &&& r.name_tone == Tone::Foreground <==> h.enabled
            &&& r.line_above <==> i > 0
            &&& h.enabled ==> r.tooltip == "Disable host"
            &&& !h.enabled ==> r.tooltip == "Enable host"
            &&& h.enabled && !syncing ==> remotes::remote_action(r, RemoteClick::Sync) == Some(
                RemoteActionData::Sync(seq![h.name]),
            )
            &&& !h.enabled || syncing ==> remotes::remote_action(r, RemoteClick::Sync) is None
            &&& remotes::remote_action(r, RemoteClick::Remove) == Some(
                RemoteActionData::ConfirmRemove(h.name),
            )
            &&& remotes::remote_action(r, RemoteClick::Switch(switched)) == Some(
                RemoteActionData::SetEnabled { name: h.name, enabled: switched },
            )
        }),
{
}

/// Every entry of the sidebar is called what its page is.
pub proof fn law_entries_are_called_as_their_page(selected: SettingsPage, i: int)
    ensures
        ({
            let all = nav::main_items(selected) + nav::foot_items(selected);
            0 <= i < all.len() ==> {
                &&& all[i].label == (match all[i].page {
                    SettingsPage::General => "General",
                    SettingsPage::Locations => "Session locations",
                    SettingsPage::MemoryLocations => "Memory locations",
                    SettingsPage::Remotes => "Remote hosts",
                    SettingsPage::Connect => "Connect",
                    SettingsPage::Data => "Data",
                    SettingsPage::Updates => "Updates",
                    SettingsPage::About => "About",
                })
                &&& all[i].tone == Tone::SidebarActive <==> all[i].page == selected
            }
        }),
{
}

/// A status that knows of a release names it, and the button says what it does: it leads to a new
/// release, and else looks for one.
pub proof fn law_the_status_names_the_release(status: UpdateStatus)
    ensures
        status matches UpdateStatus::Available { latest } ==> (updates::status_words(
            status,
        ) matches WordsData::Filled { template, args } && args == seq![latest@]),
        status matches UpdateStatus::UpToDate { latest } ==> (updates::status_words(
            status,
        ) matches WordsData::Filled { template, args } && args == seq![latest@]),
        updates::button_words(status) == "View Update" <==> status is Available,
        updates::button_words(status) == "Try Again" <==> status is Failed,
{
    reveal_strlit("Check for Updates");
    reveal_strlit("Checking…");
    reveal_strlit("Check Again");
    reveal_strlit("View Update");
    reveal_strlit("Try Again");
    assert("Check for Updates"@[0] == 'C' && "Checking…"@[0] == 'C' && "Check Again"@[0] == 'C');
    assert("View Update"@[0] == 'V' && "Try Again"@[0] == 'T');
}

/// The button leads to a release exactly if there is a new one, and looks for one otherwise; it
/// cannot be clicked exactly while one is looked for.
pub proof fn law_the_button_does_what_it_says(status: UpdateStatus)
    ensures
        updates::update_action(status) == UpdateAction::OpenReleasePage <==> status is Available,
        updates::update_action(status) == UpdateAction::Check <==> !(status is Available),
        updates::can_click(status) <==> !(status is Checking),
        updates::button_words(status) == "View Update" <==> updates::update_action(status)
            == UpdateAction::OpenReleasePage,
{
    law_the_status_names_the_release(status);
}

/// An appearance that was saved is the one from then on, and one that was not saved changes nothing;
/// neither touches anything else.
pub proof fn law_only_saved_appearances_count(s: SettingsData, preference: AppearancePreference)
    ensures
        state::after_choice(s, preference, true).appearance == preference,
        state::after_choice(s, preference, false) == s,
        state::after_choice(s, preference, true) == (SettingsData { appearance: preference, ..s }),
{
}

/// A click on a row opens its snippet if it is closed and closes it if it is open; the others stay as
/// they are, and a second click undoes the first.
pub proof fn law_a_click_toggles_one_snippet(shown: Set<usize>, ix: usize, other: usize)
    ensures
        state::toggled(shown, ix).contains(ix) <==> !shown.contains(ix),
        other != ix ==> (state::toggled(shown, ix).contains(other) <==> shown.contains(other)),
        state::toggled(state::toggled(shown, ix), ix) == shown,
{
    assert(state::toggled(state::toggled(shown, ix), ix) =~= shown);
}

}
