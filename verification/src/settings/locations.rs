//! The pages for session locations and memory locations.
use crate::models::AgentId;
use crate::ui::Tone;
use vstd::prelude::*;

verus! {

/// An entry of the menu at the end of a row.
pub enum MenuItem {
    /// Opens the form to change the location.
    Edit,
    /// Shows this path in the file manager.
    Reveal(String),
    Separator,
    /// Takes the location with this stored path off the list.
    Remove(String),
}

/// What a [`MenuItem`] holds.
pub enum MenuData {
    Edit,
    Reveal(Seq<char>),
    Separator,
    Remove(Seq<char>),
}

impl DeepView for MenuItem {
    type V = MenuData;

    open spec fn deep_view(&self) -> MenuData {
        match self {
            MenuItem::Edit => MenuData::Edit,
            MenuItem::Reveal(p) => MenuData::Reveal(p@),
            MenuItem::Separator => MenuData::Separator,
            MenuItem::Remove(p) => MenuData::Remove(p@),
        }
    }
}

/// The menu of a row: what it offers comes in one order, and what takes the row away stands apart.
pub open spec fn menu_of(
    edit: bool,
    reveal: Option<Seq<char>>,
    remove: Option<Seq<char>>,
) -> Seq<MenuData> {
    (if edit { seq![MenuData::Edit] } else { seq![] }) + (match reveal {
        Some(p) => seq![MenuData::Reveal(p)],
        None => seq![],
    }) + (match remove {
        Some(p) => seq![MenuData::Separator, MenuData::Remove(p)],
        None => seq![],
    })
}

/// The menu of a row.
pub fn row_menu(edit: bool, reveal: Option<String>, remove: Option<String>) -> (r: Vec<MenuItem>)
    ensures
        r.deep_view() == menu_of(edit, reveal.deep_view(), remove.deep_view()),
{
    let mut menu: Vec<MenuItem> = Vec::new();
    if edit {
        menu.push(MenuItem::Edit);
    }
    if let Some(path) = reveal {
        menu.push(MenuItem::Reveal(path));
    }
    if let Some(path) = remove {
        menu.push(MenuItem::Separator);
        menu.push(MenuItem::Remove(path));
    }
    assert(menu.deep_view() =~= menu_of(edit, reveal.deep_view(), remove.deep_view()));
    menu
}

/// A row of a location page: the path and a count or a state below it, a menu, and a switch that
/// turns the location on and off. `id` is what the location is switched by.
pub struct LocationRow {
    pub ix: usize,
    pub agent: AgentId,
    pub id: String,
    pub display: String,
    pub display_tone: Tone,
    pub tally: String,
    pub tally_tone: Tone,
    pub enabled: bool,
    pub tooltip: &'static str,
    pub menu: Vec<MenuItem>,
}

/// What a [`LocationRow`] holds.
#[verifier::ext_equal]
pub struct LocationRowData {
    pub ix: int,
    pub agent: AgentId,
    pub id: Seq<char>,
    pub display: Seq<char>,
    pub display_tone: Tone,
    pub tally: Seq<char>,
    pub tally_tone: Tone,
    pub enabled: bool,
    pub tooltip: &'static str,
    pub menu: Seq<MenuData>,
}

impl DeepView for LocationRow {
    type V = LocationRowData;

    open spec fn deep_view(&self) -> LocationRowData {
        LocationRowData {
            ix: self.ix as int,
            agent: self.agent,
            id: self.id@,
            display: self.display@,
            display_tone: self.display_tone,
            tally: self.tally@,
            tally_tone: self.tally_tone,
            enabled: self.enabled,
            tooltip: self.tooltip,
            menu: self.menu.deep_view(),
        }
    }
}

/// A row: a location that is off is muted, and one that is on but not there is warned of.
pub open spec fn row_data(
    ix: int,
    agent: AgentId,
    id: Seq<char>,
    display: Seq<char>,
    tally: Seq<char>,
    enabled: bool,
    exists: bool,
    menu: Seq<MenuData>,
) -> LocationRowData {
    LocationRowData {
        ix,
        agent,
        id,
        display,
        display_tone: if enabled { Tone::Foreground } else { Tone::Muted },
        tally,
        tally_tone: if !enabled || exists { Tone::Muted } else { Tone::Warning },
        enabled,
        tooltip: if enabled { "Disable location" } else { "Enable location" },
        menu,
    }
}

/// A row of a location page.
pub fn location_row(
    ix: usize,
    agent: AgentId,
    id: String,
    display: String,
    tally: String,
    enabled: bool,
    exists: bool,
    menu: Vec<MenuItem>,
) -> (r: LocationRow)
    ensures
        r.deep_view() == row_data(
            ix as int,
            agent,
            id@,
            display@,
            tally@,
            enabled,
            exists,
            menu.deep_view(),
        ),
{
    LocationRow {
        ix,
        agent,
        id,
        display,
        display_tone: if enabled {
            Tone::Foreground
        } else {
            Tone::Muted
        },
        tally,
        tally_tone: if !enabled || exists {
            Tone::Muted
        } else {
            Tone::Warning
        },
        enabled,
        tooltip: if enabled {
            "Disable location"
        } else {
            "Enable location"
        },
        menu,
    }
}

/// A location that a page lists.
pub trait Location: Sized {
    /// The agent that it belongs to.
    spec fn spec_agent(&self) -> AgentId;

    /// Its row, as number `ix` of the page.
    spec fn spec_row(&self, ix: int) -> LocationRowData;

    /// The row has the number it was given.
    proof fn lemma_row_number(&self, ix: int)
        ensures
            self.spec_row(ix).ix == ix,
    ;

    /// The agent that it belongs to.
    fn agent(&self) -> (r: AgentId)
        ensures
            r == self.spec_agent(),
    ;

    /// Its row, as number `ix` of the page.
    fn render(self, ix: usize) -> (r: LocationRow)
        ensures
            r.deep_view() == self.spec_row(ix as int),
    ;
}

/// A place where sessions are looked for; `custom` is how the user's own entry is stored.
pub struct DataSourceRow {
    pub agent: AgentId,
    pub display: String,
    pub raw: String,
    pub tally: String,
    pub enabled: bool,
    pub exists: bool,
    pub custom: Option<String>,
}

impl Location for DataSourceRow {
    open spec fn spec_agent(&self) -> AgentId {
        self.agent
    }

    /// Every session location can be edited, one that is there shown, and the user's own removed.
    open spec fn spec_row(&self, ix: int) -> LocationRowData {
        row_data(
            ix,
            self.agent,
            self.raw@,
            self.display@,
            self.tally@,
            self.enabled,
            self.exists,
            menu_of(
                true,
                if self.exists { Some(self.raw@) } else { None },
                self.custom.deep_view(),
            ),
        )
    }

    proof fn lemma_row_number(&self, ix: int) {
    }

    fn agent(&self) -> (r: AgentId) {
        self.agent
    }

    fn render(self, ix: usize) -> (r: LocationRow) {
        let reveal = if self.exists {
            Some(self.raw.clone())
        } else {
            None
        };
        location_row(
            ix,
            self.agent,
            self.raw,
            self.display,
            self.tally,
            self.enabled,
            self.exists,
            row_menu(true, reveal, self.custom),
        )
    }
}

/// The row of a session location.
pub fn render_location_row(row: DataSourceRow, ix: usize) -> (r: LocationRow)
    ensures
        r.deep_view() == row.spec_row(ix as int),
{
    row.render(ix)
}

/// A place where memories are looked for: the user's own (`custom`), or a pattern that stands for a
/// file in each project.
pub struct MemoryLocationRow {
    pub agent: AgentId,
    pub display: String,
    pub raw: String,
    pub tally: String,
    pub enabled: bool,
    pub exists: bool,
    pub custom: bool,
    pub pattern: bool,
}

impl Location for MemoryLocationRow {
    open spec fn spec_agent(&self) -> AgentId {
        self.agent
    }

    /// Only the user's own memory locations can be edited and removed, and only one that is a path
    /// and is there can be shown.
    open spec fn spec_row(&self, ix: int) -> LocationRowData {
        row_data(
            ix,
            self.agent,
            self.raw@,
            self.display@,
            self.tally@,
            self.enabled,
            self.exists,
            menu_of(
                self.custom,
                if !self.pattern && self.exists { Some(self.raw@) } else { None },
                if self.custom { Some(self.raw@) } else { None },
            ),
        )
    }

    proof fn lemma_row_number(&self, ix: int) {
    }

    fn agent(&self) -> (r: AgentId) {
        self.agent
    }

    fn render(self, ix: usize) -> (r: LocationRow) {
        let reveal = if !self.pattern && self.exists {
            Some(self.raw.clone())
        } else {
            None
        };
        let remove = if self.custom {
            Some(self.raw.clone())
        } else {
            None
        };
        location_row(
            ix,
            self.agent,
            self.raw,
            self.display,
            self.tally,
            self.enabled,
            self.exists,
            row_menu(self.custom, reveal, remove),
        )
    }
}

/// The row of a memory location.
pub fn render_memory_location_row(row: MemoryLocationRow, ix: usize) -> (r: LocationRow)
    ensures
        r.deep_view() == row.spec_row(ix as int),
{
    row.render(ix)
}

/// Rows in groups: rows that follow one another and belong to one agent make a group.
pub open spec fn grouped<R: Location>(rows: Seq<R>) -> Seq<(AgentId, Seq<R>)>
    decreases rows.len(),
{
    if rows.len() == 0 {
        seq![]
    } else {
        let before = grouped(rows.drop_last());
        let row = rows.last();
        if before.len() > 0 && before.last().0 == row.spec_agent() {
            before.drop_last().push((before.last().0, before.last().1.push(row)))
        } else {
            before.push((row.spec_agent(), seq![row]))
        }
    }
}

/// What a list of groups holds.
pub open spec fn groups_view<R>(groups: Seq<(AgentId, Vec<R>)>) -> Seq<(AgentId, Seq<R>)> {
    Seq::new(groups.len(), |i: int| (groups[i].0, groups[i].1@))
}

/// Puts rows in groups by agent.
pub fn group_by_agent<R: Location>(rows: Vec<R>) -> (r: Vec<(AgentId, Vec<R>)>)
    ensures
        groups_view(r@) == grouped(rows@),
{
    let mut groups: Vec<(AgentId, Vec<R>)> = Vec::new();
    let ghost all = rows@;
    assert(groups_view(groups@) =~= seq![]);
    for row in it: rows
        invariant
            it.seq() == all,
            groups_view(groups@) == grouped(all.take(it.index() as int)),
    {
        let ghost before = groups_view(groups@);
        proof {
            assert(all.take(it.index() as int + 1).drop_last() =~= all.take(it.index() as int));
            assert(all.take(it.index() as int + 1).last() == row);
        }
        let agent = row.agent();
        let n: usize = groups.len();
        if n > 0 && groups[n - 1].0 == agent {
            assert(before.last() == (groups@[n - 1].0, groups@[n - 1].1@));
            groups[n - 1].1.push(row);
            assert(groups_view(groups@) =~= before.drop_last().push(
                (before.last().0, before.last().1.push(row)),
            ));
        } else {
            let mut first: Vec<R> = Vec::new();
            first.push(row);
            groups.push((agent, first));
            assert(first@ =~= seq![row]);
            assert(groups_view(groups@) =~= before.push((agent, seq![row])));
        }
    }
    assert(all.take(all.len() as int) =~= all);
    groups
}

/// The rows of all groups, in order.
pub open spec fn flat<R>(groups: Seq<(AgentId, Seq<R>)>) -> Seq<R>
    decreases groups.len(),
{
    if groups.len() == 0 {
        seq![]
    } else {
        flat(groups.drop_last()) + groups.last().1
    }
}

/// Grouping keeps every row where it was; no group is empty; its rows all belong to its agent; and
/// groups that follow one another belong to different agents.
pub proof fn law_groups_keep_the_rows<R: Location>(rows: Seq<R>)
    ensures
        flat(grouped(rows)) == rows,
        forall|i: int| 0 <= i < grouped(rows).len() ==> (#[trigger] grouped(rows)[i]).1.len() > 0,
        forall|i: int, k: int|
            #![trigger grouped(rows)[i].1[k]]
            0 <= i < grouped(rows).len() && 0 <= k < grouped(rows)[i].1.len() ==> grouped(
                rows,
            )[i].1[k].spec_agent() == grouped(rows)[i].0,
        forall|i: int, j: int|
            #![trigger grouped(rows)[i], grouped(rows)[j]]
            0 <= i && j == i + 1 && j < grouped(rows).len() ==> grouped(rows)[i].0 != grouped(
                rows,
            )[j].0,
    decreases rows.len(),
{
    let g = grouped(rows);
    if rows.len() > 0 {
        let before = grouped(rows.drop_last());
        let row = rows.last();
        law_groups_keep_the_rows(rows.drop_last());
        assert(rows =~= rows.drop_last().push(row));
        if before.len() > 0 && before.last().0 == row.spec_agent() {
            assert(g.drop_last() =~= before.drop_last());
            assert(flat(g) =~= flat(before).push(row));
            assert forall|i: int, k: int|
                #![trigger g[i].1[k]]
                0 <= i < g.len() && 0 <= k < g[i].1.len() implies g[i].1[k].spec_agent()
                == g[i].0 by {
                if i < g.len() - 1 {
                    assert(before[i].1[k].spec_agent() == before[i].0);
                } else if k < before.last().1.len() {
                    assert(before[i].1[k].spec_agent() == before[i].0);
                }
            }
            assert forall|i: int, j: int|
                #![trigger g[i], g[j]]
                0 <= i && j == i + 1 && j < g.len() implies g[i].0 != g[j].0 by {
                assert(before[i].0 != before[j].0);
            }
        } else {
            assert(g.drop_last() =~= before);
            assert(flat(g) =~= flat(before).push(row));
            assert forall|i: int, k: int|
                #![trigger g[i].1[k]]
                0 <= i < g.len() && 0 <= k < g[i].1.len() implies g[i].1[k].spec_agent()
                == g[i].0 by {
                if i < before.len() {
                    assert(before[i].1[k].spec_agent() == before[i].0);
                }
            }
            assert forall|i: int, j: int|
                #![trigger g[i], g[j]]
                0 <= i && j == i + 1 && j < g.len() implies g[i].0 != g[j].0 by {
                if j < before.len() {
                    assert(before[i].0 != before[j].0);
                }
            }
        }
    }
}

/// A group on the page: the agent's mark and name, and a card with its rows, a line between any two
/// of them.
pub struct AgentGroup {
    pub agent: AgentId,
    pub rows: Vec<LocationRow>,
}

/// What an [`AgentGroup`] holds.
#[verifier::ext_equal]
pub struct GroupData {
    pub agent: AgentId,
    pub rows: Seq<LocationRowData>,
}

impl DeepView for AgentGroup {
    type V = GroupData;

    open spec fn deep_view(&self) -> GroupData {
        GroupData { agent: self.agent, rows: self.rows.deep_view() }
    }
}

/// The rows of a group, numbered from `start`.
pub open spec fn numbered<R: Location>(rows: Seq<R>, start: int) -> Seq<LocationRowData> {
    Seq::new(rows.len(), |i: int| rows[i].spec_row(start + i))
}

/// How many rows the groups have together.
pub open spec fn row_count<R>(groups: Seq<(AgentId, Seq<R>)>) -> int {
    flat(groups).len() as int
}

/// The groups on a page, their rows numbered on from `start`.
pub open spec fn rendered<R: Location>(
    groups: Seq<(AgentId, Seq<R>)>,
    start: int,
) -> Seq<GroupData>
    decreases groups.len(),
{
    if groups.len() == 0 {
        seq![]
    } else {
        let before = groups.drop_last();
        rendered(before, start).push(
            GroupData {
                agent: groups.last().0,
                rows: numbered(groups.last().1, start + row_count(before)),
            },
        )
    }
}

/// A group on the page, its rows numbered from `start`. A line is drawn above every row but the
/// first.
fn render_agent_group<R: Location>(agent: AgentId, rows: Vec<R>, start: usize) -> (r: AgentGroup)
    requires
        start + rows@.len() <= usize::MAX,
    ensures
        r.deep_view() == (GroupData { agent, rows: numbered(rows@, start as int) }),
{
    let ghost all = rows@;
    let total: usize = rows.len();
    let mut out: Vec<LocationRow> = Vec::new();
    let mut ix: usize = start;
    for row in it: rows
        invariant
            it.seq() == all,
            total == all.len(),
            start + total <= usize::MAX,
            ix == start + it.index(),
            out.deep_view() == numbered(all, start as int).take(it.index() as int),
    {
        let ghost before = out.deep_view();
        let shown = row.render(ix);
        out.push(shown);
        assert(out.deep_view() =~= before.push(shown.deep_view()));
        assert(out.deep_view() =~= numbered(all, start as int).take(it.index() as int + 1));
        ix = ix + 1;
    }
    assert(numbered(all, start as int).take(all.len() as int) =~= numbered(all, start as int));
    AgentGroup { agent, rows: out }
}

proof fn lemma_flat_len_grows<R>(groups: Seq<(AgentId, Seq<R>)>, k: int)
    requires
        0 <= k < groups.len(),
    ensures
        row_count(groups.take(k + 1)) == row_count(groups.take(k)) + groups[k].1.len(),
        row_count(groups.take(k + 1)) <= row_count(groups),
    decreases groups.len(),
{
    assert(groups.take(k + 1).drop_last() =~= groups.take(k));
    if k + 1 == groups.len() {
        assert(groups.take(k + 1) =~= groups);
    } else {
        lemma_flat_len_grows(groups.drop_last(), k);
        assert(groups.drop_last().take(k + 1) =~= groups.take(k + 1));
        assert(groups.drop_last().take(k) =~= groups.take(k));
    }
}

/// The groups on a page, their rows numbered on from `row_offset`, which ends up behind the last.
pub fn render_agent_groups<R: Location>(
    groups: Vec<(AgentId, Vec<R>)>,
    row_offset: &mut usize,
) -> (r: Vec<AgentGroup>)
    requires
        *old(row_offset) + row_count(groups_view(groups@)) <= usize::MAX,
    ensures
        r.deep_view() == rendered(groups_view(groups@), *old(row_offset) as int),
        *final(row_offset) == *old(row_offset) + row_count(groups_view(groups@)),
{
    let ghost raw = groups@;
    let ghost all = groups_view(groups@);
    let start: usize = *row_offset;
    let mut next: usize = start;
    let mut out: Vec<AgentGroup> = Vec::new();
    assert(out.deep_view() =~= seq![]);
    assert(all.take(0) =~= seq![]);
    for group in it: groups
        invariant
            it.seq() == raw,
            all == groups_view(raw),
            start + row_count(all) <= usize::MAX,
            next == start + row_count(all.take(it.index() as int)),
            out.deep_view() == rendered(all.take(it.index() as int), start as int),
    {
        let ghost n = it.index() as int;
        proof {
            lemma_flat_len_grows(all, n);
            assert(all.take(n + 1).drop_last() =~= all.take(n));
            assert(all.take(n + 1).last() == all[n]);
        }
        let (agent, rows) = group;
        let count: usize = rows.len();
        let ghost before = out.deep_view();
        let shown = render_agent_group(agent, rows, next);
        out.push(shown);
        assert(out.deep_view() =~= before.push(shown.deep_view()));
        next = next + count;
    }
    assert(all.take(all.len() as int) =~= all);
    *row_offset = next;
    out
}

/// All rows of some groups on a page, in order.
pub open spec fn shown_rows(groups: Seq<GroupData>) -> Seq<LocationRowData>
    decreases groups.len(),
{
    if groups.len() == 0 {
        seq![]
    } else {
        shown_rows(groups.drop_last()) + groups.last().rows
    }
}

/// The rows of a page are numbered on, group after group, so that no two have one number.
pub proof fn law_rows_are_numbered_on<R: Location>(groups: Seq<(AgentId, Seq<R>)>, start: int)
    ensures
        shown_rows(rendered(groups, start)).len() == row_count(groups),
        forall|i: int|
            0 <= i < row_count(groups) ==> (#[trigger] shown_rows(rendered(groups, start))[i]).ix
                == start + i,
    decreases groups.len(),
{
    if groups.len() > 0 {
        let before = groups.drop_last();
        let r = rendered(groups, start);
        law_rows_are_numbered_on(before, start);
        assert(r.drop_last() =~= rendered(before, start));
        let rows = groups.last().1;
        let at = start + row_count(before);
        assert forall|i: int| 0 <= i < row_count(groups) implies (#[trigger] shown_rows(r)[i]).ix
            == start + i by {
            if i < row_count(before) {
                assert(shown_rows(r)[i] == shown_rows(rendered(before, start))[i]);
            } else {
                let k = i - row_count(before);
                assert(shown_rows(r)[i] == rows[k].spec_row(at + k));
                rows[k].lemma_row_number(at + k);
            }
        }
    }
}

/// No session location is lost on its page: each belongs to a group that is shown at once or to one
/// in the fold.
pub proof fn law_every_location_is_on_the_page(rows: Seq<DataSourceRow>)
    ensures
        row_count(detected(grouped(rows), true)) + row_count(detected(grouped(rows), false))
            == rows.len(),
{
    law_groups_keep_the_rows(rows);
    lemma_detected_counts(grouped(rows));
}

/// What the head of a location page can start.
#[derive(Clone, Copy, PartialEq, Eq, Structural, Debug)]
pub enum LocationsAction {
    /// Open the form for a new session location.
    AddLocation,
    /// Restore the session locations that Wake comes with.
    RestoreLocations,
    /// Open the form for a new memory location.
    AddMemoryLocation,
    /// Restore the memory locations that Wake comes with.
    RestoreMemoryLocations,
}

/// The frame of a location page: its head, with a button to add a location and a menu to restore
/// the defaults, which is off while nothing differs from them; and its groups.
pub struct LocationsPage {
    pub title: &'static str,
    pub caption: &'static str,
    pub add_icon: &'static str,
    pub add_label: &'static str,
    pub on_add: LocationsAction,
    pub menu_icon: &'static str,
    pub restore_label: &'static str,
    pub restore_enabled: bool,
    pub on_restore: LocationsAction,
    pub groups: Vec<AgentGroup>,
    pub undetected: Option<Undetected>,
}

/// The fold at the end of the session page for agents that are not installed.
pub struct Undetected {
    pub label: &'static str,
    pub icon: &'static str,
    pub count: usize,
    pub groups: Vec<AgentGroup>,
}

/// The frame of a location page.
pub fn locations_page(
    title: &'static str,
    caption: &'static str,
    diverged: bool,
    on_add: LocationsAction,
    on_restore: LocationsAction,
    groups: Vec<AgentGroup>,
    undetected: Option<Undetected>,
) -> (r: LocationsPage)
    ensures
        r == (LocationsPage {
            title,
            caption,
            add_icon: "icons/plus.svg",
            add_label: "Add location",
            on_add,
            menu_icon: "icons/more-horizontal.svg",
            restore_label: "Restore defaults",
            restore_enabled: diverged,
            on_restore,
            groups,
            undetected,
        }),
{
    LocationsPage {
        title,
        caption,
        add_icon: "icons/plus.svg",
        add_label: "Add location",
        on_add,
        menu_icon: "icons/more-horizontal.svg",
        restore_label: "Restore defaults",
        restore_enabled: diverged,
        on_restore,
        groups,
        undetected,
    }
}

/// The page of memory locations.
pub fn render_memory_locations(rows: Vec<MemoryLocationRow>, diverged: bool) -> (r: LocationsPage)
    ensures
        r.title == "Memory locations",
        r.caption == "Choose which memory and instruction files Wake indexes.",
        r.add_icon == "icons/plus.svg",
        r.add_label == "Add location",
        r.on_add == LocationsAction::AddMemoryLocation,
        r.menu_icon == "icons/more-horizontal.svg",
        r.restore_label == "Restore defaults",
        r.on_restore == LocationsAction::RestoreMemoryLocations,
        r.restore_enabled == diverged,
        r.groups.deep_view() == rendered(grouped(rows@), 0),
        r.undetected is None,
{
    let total: usize = rows.len();
    proof {
        law_groups_keep_the_rows(rows@);
    }
    let mut row_offset: usize = 0;
    let groups = render_agent_groups(group_by_agent(rows), &mut row_offset);
    locations_page(
        "Memory locations",
        "Choose which memory and instruction files Wake indexes.",
        diverged,
        LocationsAction::AddMemoryLocation,
        LocationsAction::RestoreMemoryLocations,
        groups,
        None,
    )
}

/// Whether an agent's group is shown at once: one of its locations is there, or the user's own.
pub open spec fn is_detected(rows: Seq<DataSourceRow>) -> bool {
    exists|i: int| 0 <= i < rows.len() && ((#[trigger] rows[i]).exists || rows[i].custom is Some)
}

/// The groups that are shown at once, or those that are not, in order.
pub open spec fn detected(
    groups: Seq<(AgentId, Seq<DataSourceRow>)>,
    wanted: bool,
) -> Seq<(AgentId, Seq<DataSourceRow>)>
    decreases groups.len(),
{
    if groups.len() == 0 {
        seq![]
    } else {
        let before = detected(groups.drop_last(), wanted);
        if is_detected(groups.last().1) == wanted {
            before.push(groups.last())
        } else {
            before
        }
    }
}

fn any_detected(rows: &Vec<DataSourceRow>) -> (r: bool)
    ensures
        r == is_detected(rows@),
{
    let mut i: usize = 0;
    while i < rows.len()
        invariant
            i <= rows.len(),
            forall|j: int|
                0 <= j < i ==> !((#[trigger] rows@[j]).exists || rows@[j].custom is Some),
        decreases rows.len() - i,
    {
        if rows[i].exists || rows[i].custom.is_some() {
            assert(rows@[i as int].exists || rows@[i as int].custom is Some);
            return true;
        }
        i = i + 1;
    }
    false
}

/// Groups of session locations.
pub type SourceGroups = Vec<(AgentId, Vec<DataSourceRow>)>;

fn partition(groups: SourceGroups) -> (r: (SourceGroups, SourceGroups))
    ensures
        groups_view(r.0@) == detected(groups_view(groups@), true),
        groups_view(r.1@) == detected(groups_view(groups@), false),
{
    let ghost raw = groups@;
    let ghost all = groups_view(groups@);
    let mut yes: SourceGroups = Vec::new();
    let mut no: SourceGroups = Vec::new();
    assert(groups_view(yes@) =~= seq![]);
    assert(groups_view(no@) =~= seq![]);
    for group in it: groups
        invariant
            it.seq() == raw,
            all == groups_view(raw),
            groups_view(yes@) == detected(all.take(it.index() as int), true),
            groups_view(no@) == detected(all.take(it.index() as int), false),
    {
        let ghost n = it.index() as int;
        let ghost (y, x) = (groups_view(yes@), groups_view(no@));
        proof {
            assert(all.take(n + 1).drop_last() =~= all.take(n));
            assert(all.take(n + 1).last() == (group.0, group.1@));
        }
        if any_detected(&group.1) {
            yes.push(group);
            assert(groups_view(yes@) =~= y.push((group.0, group.1@)));
        } else {
            no.push(group);
            assert(groups_view(no@) =~= x.push((group.0, group.1@)));
        }
    }
    assert(all.take(all.len() as int) =~= all);
    (yes, no)
}

proof fn lemma_detected_counts(groups: Seq<(AgentId, Seq<DataSourceRow>)>)
    ensures
        row_count(detected(groups, true)) + row_count(detected(groups, false)) == row_count(groups),
        detected(groups, true).len() + detected(groups, false).len() == groups.len(),
    decreases groups.len(),
{
    if groups.len() > 0 {
        let before = groups.drop_last();
        lemma_detected_counts(before);
        let (y, n) = (detected(before, true), detected(before, false));
        assert(y.push(groups.last()).drop_last() =~= y);
        assert(n.push(groups.last()).drop_last() =~= n);
    }
}

/// The page of session locations. Agents of which nothing was found come in a fold at the end,
/// which is there only if there are any; its groups are shown only while it is open.
pub fn render_locations(
    rows: Vec<DataSourceRow>,
    diverged: bool,
    show_unavailable: bool,
) -> (r: LocationsPage)
    ensures
        r.title == "Session locations",
        r.caption == "Choose where Wake looks for local agent sessions.",
        r.add_icon == "icons/plus.svg",
        r.add_label == "Add location",
        r.on_add == LocationsAction::AddLocation,
        r.menu_icon == "icons/more-horizontal.svg",
        r.restore_label == "Restore defaults",
        r.on_restore == LocationsAction::RestoreLocations,
        r.restore_enabled == diverged,
        ({
            let here = detected(grouped(rows@), true);
            let gone = detected(grouped(rows@), false);
            &&& r.groups.deep_view() == rendered(here, 0)
            &&& match r.undetected {
                None => gone.len() == 0,
                Some(u) => {
                    &&& gone.len() > 0
                    &&& u.label == "Not detected"
                    &&& u.icon == (if show_unavailable {
                        "icons/chevron-down.svg"
                    } else {
                        "icons/chevron-right.svg"
                    })
                    &&& u.count == gone.len()
                    &&& u.groups.deep_view() == (if show_unavailable {
                        rendered(gone, row_count(here))
                    } else {
                        seq![]
                    })
                },
            }
        }),
{
    let total: usize = rows.len();
    proof {
        law_groups_keep_the_rows(rows@);
        lemma_detected_counts(grouped(rows@));
    }
    let (available, unavailable) = partition(group_by_agent(rows));
    let count: usize = unavailable.len();
    let mut row_offset: usize = 0;
    let groups = render_agent_groups(available, &mut row_offset);
    let undetected = if count > 0 {
        let folded = if show_unavailable {
            render_agent_groups(unavailable, &mut row_offset)
        } else {
            let none: Vec<AgentGroup> = Vec::new();
            assert(none.deep_view() =~= seq![]);
            none
        };
        Some(
            Undetected {
                label: "Not detected",
                icon: if show_unavailable {
                    "icons/chevron-down.svg"
                } else {
                    "icons/chevron-right.svg"
                },
                count,
                groups: folded,
            },
        )
    } else {
        None
    };
    locations_page(
        "Session locations",
        "Choose where Wake looks for local agent sessions.",
        diverged,
        LocationsAction::AddLocation,
        LocationsAction::RestoreLocations,
        groups,
        undetected,
    )
}

}
