//! What the settings window remembers between two clicks.
use crate::settings::general::{appearance_failed, AppearancePreference};
use crate::settings::locations::{DataSourceRow, MemoryLocationRow};
use crate::settings::nav::SettingsPage;
use crate::text::same_text;
use crate::ui::{Words, WordsData};
use std::collections::HashSet;
use vstd::prelude::*;

verus! {

/// How long a button says that it has copied, in milliseconds.
pub const COPIED_MS: u64 = 1600;

/// The session locations when they were last read.
pub struct LocationSettingsSnapshot {
    pub rows: Vec<DataSourceRow>,
    pub diverged: bool,
}

/// The memory locations when they were last read.
pub struct MemoryLocationSettingsSnapshot {
    pub rows: Vec<MemoryLocationRow>,
    pub diverged: bool,
}

/// The locations that a page shows.
#[derive(Clone, Copy, PartialEq, Eq, Structural, Debug)]
pub enum SnapshotKind {
    Sessions,
    Memories,
    Neither,
}

/// The locations that a page shows.
pub open spec fn snapshot_of(page: SettingsPage) -> SnapshotKind {
    match page {
        SettingsPage::Locations => SnapshotKind::Sessions,
        SettingsPage::MemoryLocations => SnapshotKind::Memories,
        _ => SnapshotKind::Neither,
    }
}

/// The locations that a page shows: only they have to be read again while it is shown.
pub fn snapshot_wanted(page: SettingsPage) -> (r: SnapshotKind)
    ensures
        r == snapshot_of(page),
{
    match page {
        SettingsPage::Locations => SnapshotKind::Sessions,
        SettingsPage::MemoryLocations => SnapshotKind::Memories,
        _ => SnapshotKind::Neither,
    }
}

/// What was read again.
pub enum Snapshot {
    Sessions(LocationSettingsSnapshot),
    Memories(MemoryLocationSettingsSnapshot),
    Neither,
}

/// The state of the settings window. `copied` is the button that has just copied something.
pub struct SettingsView {
    appearance: AppearancePreference,
    show_unavailable: bool,
    connect_shown: HashSet<usize>,
    copied: Option<String>,
    copied_generation: u64,
    locations: LocationSettingsSnapshot,
    memory_locations: MemoryLocationSettingsSnapshot,
}

/// What a [`SettingsView`] holds.
#[verifier::ext_equal]
pub struct SettingsData {
    pub appearance: AppearancePreference,
    pub show_unavailable: bool,
    pub connect_shown: Set<usize>,
    pub copied: Option<Seq<char>>,
    pub copied_generation: u64,
    pub locations: LocationSettingsSnapshot,
    pub memory_locations: MemoryLocationSettingsSnapshot,
}

impl View for SettingsView {
    type V = SettingsData;

    closed spec fn view(&self) -> SettingsData {
        SettingsData {
            appearance: self.appearance,
            show_unavailable: self.show_unavailable,
            connect_shown: self.connect_shown@,
            copied: self.copied.deep_view(),
            copied_generation: self.copied_generation,
            locations: self.locations,
            memory_locations: self.memory_locations,
        }
    }
}

/// The state once the user has chosen an appearance, which was saved or not.
pub open spec fn after_choice(
    s: SettingsData,
    preference: AppearancePreference,
    saved: bool,
) -> SettingsData {
    if saved {
        SettingsData { appearance: preference, ..s }
    } else {
        s
    }
}

/// The open snippets once that of row `ix` was opened or closed.
pub open spec fn toggled(shown: Set<usize>, ix: usize) -> Set<usize> {
    if shown.contains(ix) {
        shown.remove(ix)
    } else {
        shown.insert(ix)
    }
}

/// The state once the button `id` has copied something.
pub open spec fn after_copying(s: SettingsData, id: Seq<char>) -> SettingsData {
    SettingsData {
        copied: Some(id),
        copied_generation: s.copied_generation.wrapping_add(1),
        ..s
    }
}

/// The state once the timer of a copy has run out: only that of the last copy counts.
pub open spec fn after_timer(s: SettingsData, generation: u64) -> SettingsData {
    SettingsData {
        copied: if s.copied_generation == generation { None } else { s.copied },
        ..s
    }
}

impl SettingsView {
    /// The state of a window that was just opened.
    pub fn new(appearance: AppearancePreference) -> (r: Self)
        ensures
            r@.appearance == appearance,
            !r@.show_unavailable,
            r@.connect_shown == Set::<usize>::empty(),
            r@.copied is None,
            r@.copied_generation == 0,
            r@.locations.rows@.len() == 0,
            !r@.locations.diverged,
            r@.memory_locations.rows@.len() == 0,
            !r@.memory_locations.diverged,
    {
        SettingsView {
            appearance,
            show_unavailable: false,
            connect_shown: HashSet::new(),
            copied: None,
            copied_generation: 0,
            locations: LocationSettingsSnapshot { rows: Vec::new(), diverged: false },
            memory_locations: MemoryLocationSettingsSnapshot { rows: Vec::new(), diverged: false },
        }
    }

    /// How the app looks.
    pub fn appearance(&self) -> (r: AppearancePreference)
        ensures
            r == self@.appearance,
    {
        self.appearance
    }

    /// Whether the fold of agents that were not found is open.
    pub fn shows_unavailable(&self) -> (r: bool)
        ensures
            r == self@.show_unavailable,
    {
        self.show_unavailable
    }

    /// The session locations when they were last read.
    pub fn locations(&self) -> (r: &LocationSettingsSnapshot)
        ensures
            *r == self@.locations,
    {
        &self.locations
    }

    /// The memory locations when they were last read.
    pub fn memory_locations(&self) -> (r: &MemoryLocationSettingsSnapshot)
        ensures
            *r == self@.memory_locations,
    {
        &self.memory_locations
    }

    /// Whether the snippet of a row is open.
    pub fn is_shown(&self, ix: usize) -> (r: bool)
        ensures
            r == self@.connect_shown.contains(ix),
    {
        broadcast use vstd::std_specs::hash::group_hash_axioms;

        self.connect_shown.contains(&ix)
    }

    /// Whether a button has just copied something.
    pub fn is_copied(&self, id: &str) -> (r: bool)
        ensures
            r == (self@.copied == Some(id@)),
    {
        match &self.copied {
            Some(c) => same_text(c.as_str(), id),
            None => false,
        }
    }

    /// Takes in an appearance that the user has chosen, and that was saved unless there is an
    /// error: then the old one stays, and the user is told.
    pub fn choose_appearance(
        &mut self,
        preference: AppearancePreference,
        error: Option<String>,
    ) -> (r: Option<Words>)
        ensures
            match error {
                None => r is None && final(self)@ == (SettingsData {
                    appearance: preference,
                    ..old(self)@
                }),
                Some(e) => final(self)@ == old(self)@ && (r matches Some(w) && w.deep_view()
                    == (WordsData::Filled {
                    template: "Couldn't save appearance: {}",
                    args: seq![e@],
                })),
            },
            final(self)@ == after_choice(old(self)@, preference, error is None),
    {
        match error {
            None => {
                self.appearance = preference;
                None
            },
            Some(e) => Some(appearance_failed(e.as_str())),
        }
    }

    /// Opens or closes the fold of agents that were not found.
    pub fn toggle_unavailable(&mut self)
        ensures
            final(self)@ == (SettingsData {
                show_unavailable: !old(self)@.show_unavailable,
                ..old(self)@
            }),
    {
        self.show_unavailable = !self.show_unavailable;
    }

    /// Opens or closes the snippet of a row.
    pub fn toggle_snippet(&mut self, ix: usize)
        ensures
            final(self)@ == (SettingsData {
                connect_shown: if old(self)@.connect_shown.contains(ix) {
                    old(self)@.connect_shown.remove(ix)
                } else {
                    old(self)@.connect_shown.insert(ix)
                },
                ..old(self)@
            }),
            final(self)@.connect_shown == toggled(old(self)@.connect_shown, ix),
    {
        broadcast use vstd::std_specs::hash::group_hash_axioms;

        if !self.connect_shown.remove(&ix) {
            self.connect_shown.insert(ix);
        }
    }

    /// Marks a button that has copied something. The mark goes when the timer for the number that
    /// comes back has run out after [`COPIED_MS`].
    pub fn show_copied(&mut self, id: String) -> (generation: u64)
        ensures
            final(self)@ == after_copying(old(self)@, id@),
            generation == final(self)@.copied_generation,
    {
        self.copied_generation = self.copied_generation.wrapping_add(1);
        self.copied = Some(id);
        self.copied_generation
    }

    /// Takes in that the timer of a copy has run out; tells whether anything changed on the page.
    pub fn copied_timer(&mut self, generation: u64) -> (changed: bool)
        ensures
            final(self)@ == after_timer(old(self)@, generation),
            changed == (old(self)@.copied_generation == generation),
    {
        if self.copied_generation == generation {
            self.copied = None;
            true
        } else {
            false
        }
    }

    /// Takes in locations that were read again.
    pub fn refresh_snapshots(&mut self, fresh: Snapshot)
        ensures
            final(self)@ == (match fresh {
                Snapshot::Sessions(s) => SettingsData { locations: s, ..old(self)@ },
                Snapshot::Memories(s) => SettingsData { memory_locations: s, ..old(self)@ },
                Snapshot::Neither => old(self)@,
            }),
    {
        match fresh {
            Snapshot::Sessions(s) => {
                self.locations = s;
            },
            Snapshot::Memories(s) => {
                self.memory_locations = s;
            },
            Snapshot::Neither => {},
        }
    }
}

/// A second copy keeps its mark when the timer of the first runs out, and loses it with its own.
pub proof fn law_only_the_last_timer_counts(s: SettingsData, first: Seq<char>, second: Seq<char>)
    ensures
        ({
            let one = after_copying(s, first);
            let two = after_copying(one, second);
            &&& after_timer(two, one.copied_generation).copied == Some(second)
            &&& after_timer(two, two.copied_generation).copied is None
        }),
{
}

/// Opening a snippet and closing it again leaves everything as it was.
pub proof fn law_toggling_twice_changes_nothing(shown: Set<usize>, ix: usize)
    ensures
        ({
            let once = if shown.contains(ix) { shown.remove(ix) } else { shown.insert(ix) };
            let twice = if once.contains(ix) { once.remove(ix) } else { once.insert(ix) };
            twice =~= shown
        }),
{
}

}
