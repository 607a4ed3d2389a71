//! A value kept as long as the stamp of its source stays the same.
use vstd::prelude::*;

verus! {

/// A value with the stamp at which it was read, once it has been read at all.
pub struct MtimeCache<T> {
    entry: Option<(i64, T)>,
}

/// The entry after a reading at `stamp`: a reading that failed leaves the last good one, with its
/// old stamp, so that the next reading is tried again.
pub open spec fn entry_after<T>(
    entry: Option<(i64, T)>,
    stamp: i64,
    built: Option<T>,
) -> Option<(i64, T)> {
    match (entry, built) {
        (Some((s, v)), _) if s == stamp => entry,
        (_, Some(v)) => Some((stamp, v)),
        (_, None) => entry,
    }
}

impl<T> View for MtimeCache<T> {
    type V = Option<(i64, T)>;

    closed spec fn view(&self) -> Option<(i64, T)> {
        self.entry
    }
}

impl<T> MtimeCache<T> {
    /// A cache that holds nothing.
    pub fn new() -> (r: Self)
        ensures
            r@ is None,
    {
        MtimeCache { entry: None }
    }

    /// Whether the source has to be read at `stamp`.
    pub fn is_stale(&self, stamp: i64) -> (r: bool)
        ensures
            r == !(self@ matches Some(e) && e.0 == stamp),
    {
        match &self.entry {
            Some(e) => e.0 != stamp,
            None => true,
        }
    }

    /// The last good value.
    pub fn value(&self) -> (r: Option<&T>)
        ensures
            match self@ {
                Some(e) => r == Some(&e.1),
                None => r is None,
            },
    {
        match &self.entry {
            Some(e) => Some(&e.1),
            None => None,
        }
    }

    /// The value at `stamp`, where `built` is what reading the source came to: the value kept if
    /// the stamp is the one it was read at, else what was read, and the last good value where
    /// nothing could be read. `None` only where nothing was ever read.
    pub fn get_or_stale(&mut self, stamp: i64, built: Option<T>) -> (r: Option<&T>)
        ensures
            final(self)@ == entry_after(old(self)@, stamp, built),
            match final(self)@ {
                Some(e) => r == Some(&e.1),
                None => r is None,
            },
    {
        if self.is_stale(stamp) {
            if let Some(v) = built {
                self.entry = Some((stamp, v));
            }
        }
        self.value()
    }
}

/// A reading that fails never loses what was read before, and is tried again at the same stamp
/// unless the value kept is of that stamp.
pub proof fn law_a_failed_reading_loses_nothing<T>(entry: Option<(i64, T)>, stamp: i64)
    ensures
        entry_after(entry, stamp, None) == entry,
{
}

/// A reading that succeeds is what is given until the stamp changes.
pub proof fn law_a_reading_is_kept<T>(
    entry: Option<(i64, T)>,
    stamp: i64,
    built: T,
    later: Option<T>,
)
    ensures
        ({
            let once = entry_after(entry, stamp, Some(built));
            &&& once matches Some(e) && e.0 == stamp
            &&& entry_after(once, stamp, later) == once
        }),
{
}

/// A reading at another stamp replaces what was kept, if it succeeds; at the same stamp nothing does.
pub proof fn law_a_new_stamp_brings_the_new_value<T>(
    entry: Option<(i64, T)>,
    stamp: i64,
    built: Option<T>,
)
    ensures
        ({
            let fresh = entry matches Some(e) && e.0 == stamp;
            let after = entry_after(entry, stamp, built);
            &&& fresh ==> after == entry
            &&& !fresh && built is Some ==> after == Some((stamp, built->0))
            &&& !fresh && built is None ==> after == entry
        }),
{
}

}
