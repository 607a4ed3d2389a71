//! The page that tells where the app keeps its data.
use crate::text;
use crate::text::{concat2, concat3, decimal_of};
use crate::ui::{filled, Tone, Words, WordsData};
use vstd::prelude::*;

verus! {

/// How many bytes a kilobyte has here.
pub const KIB: u64 = 1024;

/// How many bytes a megabyte has here.
pub const MIB: u64 = 1048576;

/// How many bytes a gigabyte has here.
pub const GIB: u64 = 1073741824;

/// A size in words: in bytes, or as a number of larger units with one decimal place, of which this
/// gives the parts.
pub enum StorageSize {
    Exact(String),
    Scaled { bytes: u64, unit: u64, suffix: &'static str },
}

/// What a [`StorageSize`] holds.
pub enum SizeData {
    Exact(Seq<char>),
    Scaled { bytes: u64, unit: u64, suffix: &'static str },
}

impl DeepView for StorageSize {
    type V = SizeData;

    open spec fn deep_view(&self) -> SizeData {
        match self {
            StorageSize::Exact(s) => SizeData::Exact(s@),
            StorageSize::Scaled { bytes, unit, suffix } => SizeData::Scaled {
                bytes: *bytes,
                unit: *unit,
                suffix: *suffix,
            },
        }
    }
}

/// A size in words: in the largest unit that it has one of.
pub open spec fn size_words(bytes: u64) -> SizeData {
    if bytes >= GIB {
        SizeData::Scaled { bytes, unit: GIB, suffix: " GB" }
    } else if bytes >= MIB {
        SizeData::Scaled { bytes, unit: MIB, suffix: " MB" }
    } else if bytes >= KIB {
        SizeData::Scaled { bytes, unit: KIB, suffix: " KB" }
    } else {
        SizeData::Exact(text::decimal(bytes as nat) + " bytes"@)
    }
}

/// A size in words.
pub fn format_storage_size(bytes: u64) -> (r: StorageSize)
    ensures
        r.deep_view() == size_words(bytes),
{
    if bytes >= GIB {
        StorageSize::Scaled { bytes, unit: GIB, suffix: " GB" }
    } else if bytes >= MIB {
        StorageSize::Scaled { bytes, unit: MIB, suffix: " MB" }
    } else if bytes >= KIB {
        StorageSize::Scaled { bytes, unit: KIB, suffix: " KB" }
    } else {
        StorageSize::Exact(concat2(decimal_of(bytes).as_str(), " bytes"))
    }
}

/// A size is always at least one of the unit that it is told in, and less than one of the next.
pub proof fn law_sizes_use_the_largest_unit(bytes: u64)
    ensures
        size_words(bytes) matches SizeData::Scaled { bytes: b, unit, suffix } ==> b == bytes && unit
            <= bytes && (unit < GIB ==> bytes < unit * KIB),
        size_words(bytes) is Exact <==> bytes < KIB,
{
}

/// The page.
pub struct DataPage {
    pub title: &'static str,
    pub subtitle: &'static str,
    pub section: &'static str,
    pub card: &'static str,
    pub path: String,
    pub summary: Vec<Words>,
    pub details_tone: Tone,
    pub button_id: &'static str,
    pub button_icon: &'static str,
    /// What the button shows in the file manager.
    pub reveal: String,
}

/// How much there is: the sessions, what everything takes up, and how much of that is copied from
/// other machines, where any is.
pub open spec fn summary_words(
    tally: Seq<char>,
    size: Seq<char>,
    remote_bytes: u64,
    remote_size: Seq<char>,
) -> Seq<WordsData> {
    seq![WordsData::Plain(tally + " · "@ + size)] + (if remote_bytes > 0 {
        seq![
            WordsData::Plain(" "@),
            WordsData::Filled { template: "({} in remote mirrors)", args: seq![remote_size] },
        ]
    } else {
        seq![]
    })
}

/// The page. `tally` tells the number of sessions, `size` and `remote_size` the sizes.
pub fn render_data(
    tally: &str,
    size: &str,
    remote_bytes: u64,
    remote_size: &str,
    display_path: String,
    raw_path: String,
) -> (r: DataPage)
    ensures
        r.title == "Data",
        r.subtitle == "See where Wake stores local data. Sessions refresh automatically.",
        r.section == "Storage",
        r.card == "Wake data",
        r.path == display_path,
        r.summary.deep_view() == summary_words(tally@, size@, remote_bytes, remote_size@),
        r.details_tone == Tone::Muted,
        r.button_id == "settings-show-data",
        r.button_icon == "icons/folder.svg",
        r.reveal == raw_path,
{
    let mut summary: Vec<Words> = Vec::new();
    summary.push(Words::Plain(concat3(tally, " · ", size)));
    if remote_bytes > 0 {
        summary.push(Words::Plain(" ".to_owned()));
        summary.push(filled("({} in remote mirrors)", remote_size));
    }
    assert(summary.deep_view() =~= summary_words(tally@, size@, remote_bytes, remote_size@));
    DataPage {
        title: "Data",
        subtitle: "See where Wake stores local data. Sessions refresh automatically.",
        section: "Storage",
        card: "Wake data",
        path: display_path,
        summary,
        details_tone: Tone::Muted,
        button_id: "settings-show-data",
        button_icon: "icons/folder.svg",
        reveal: raw_path,
    }
}

}
