//! The page for appearance and language.
use crate::text::same_text;
use crate::ui::{filled, Tone, Words, WordsData};
use vstd::prelude::*;

verus! {

/// How the app looks: as the system does, or one way.
#[derive(Clone, Copy, PartialEq, Eq, Structural, Debug)]
pub enum AppearancePreference {
    System,
    Light,
    Dark,
}

/// A part of the appearance switch. The part that is chosen stands out.
#[derive(Clone, Copy, Debug)]
pub struct AppearanceButton {
    pub id: &'static str,
    pub label: &'static str,
    pub preference: AppearancePreference,
    pub selected: bool,
    pub tone: Tone,
}

/// The part of the switch for a preference while `current` is chosen.
pub open spec fn button_for(
    id: &'static str,
    label: &'static str,
    preference: AppearancePreference,
    current: AppearancePreference,
) -> AppearanceButton {
    AppearanceButton {
        id,
        label,
        preference,
        selected: current == preference,
        tone: if current == preference { Tone::Foreground } else { Tone::Muted },
    }
}

/// The part of the switch for a preference while `current` is chosen.
pub fn appearance_button(
    id: &'static str,
    label: &'static str,
    preference: AppearancePreference,
    current: AppearancePreference,
) -> (r: AppearanceButton)
    ensures
        r == button_for(id, label, preference, current),
{
    let selected = current == preference;
    AppearanceButton {
        id,
        label,
        preference,
        selected,
        tone: if selected {
            Tone::Foreground
        } else {
            Tone::Muted
        },
    }
}

/// The appearance switch.
pub open spec fn appearance_switch(current: AppearancePreference) -> Seq<AppearanceButton> {
    seq![
        button_for("appearance-system", "System", AppearancePreference::System, current),
        button_for("appearance-light", "Light", AppearancePreference::Light, current),
        button_for("appearance-dark", "Dark", AppearancePreference::Dark, current),
    ]
}

/// What the user is told where the appearance could not be saved.
pub fn appearance_failed(error: &str) -> (r: Words)
    ensures
        r.deep_view() == (WordsData::Filled {
            template: "Couldn't save appearance: {}",
            args: seq![error@],
        }),
{
    filled("Couldn't save appearance: {}", error)
}

/// What the user is told where the language could not be saved.
pub fn language_failed(error: &str) -> (r: Words)
    ensures
        r.deep_view() == (WordsData::Filled {
            template: "Couldn't save language: {}",
            args: seq![error@],
        }),
{
    filled("Couldn't save language: {}", error)
}

/// A language that the app can speak.
pub struct Locale {
    pub tag: String,
    pub name: String,
}

impl DeepView for Locale {
    type V = (Seq<char>, Seq<char>);

    open spec fn deep_view(&self) -> (Seq<char>, Seq<char>) {
        (self.tag@, self.name@)
    }
}

/// An entry of the language menu; no tag stands for the language of the system.
pub struct LanguageOption {
    pub tag: Option<String>,
    pub name: Words,
    pub checked: bool,
}

/// What a [`LanguageOption`] holds.
pub struct OptionData {
    pub tag: Option<Seq<char>>,
    pub name: WordsData,
    pub checked: bool,
}

impl DeepView for LanguageOption {
    type V = OptionData;

    open spec fn deep_view(&self) -> OptionData {
        OptionData {
            tag: self.tag.deep_view(),
            name: self.name.deep_view(),
            checked: self.checked,
        }
    }
}

/// The language menu: its label, and its entries.
pub struct LanguageControl {
    pub label: Words,
    pub options: Vec<LanguageOption>,
}

/// The name of the first language with a tag.
pub open spec fn name_of_tag(
    available: Seq<(Seq<char>, Seq<char>)>,
    tag: Seq<char>,
    i: int,
) -> Option<Seq<char>>
    decreases available.len() - i,
{
    if i < 0 || i >= available.len() {
        None
    } else if available[i].0 == tag {
        Some(available[i].1)
    } else {
        name_of_tag(available, tag, i + 1)
    }
}

/// What the menu says while `current` is chosen: the name of that language, and that of the system
/// where none is chosen, or one that the app cannot speak.
pub open spec fn language_label(
    available: Seq<(Seq<char>, Seq<char>)>,
    current: Option<Seq<char>>,
) -> WordsData {
    match current {
        None => WordsData::Key("System"),
        Some(tag) => match name_of_tag(available, tag, 0) {
            Some(name) => WordsData::Plain(name),
            None => WordsData::Key("System"),
        },
    }
}

/// The entries of the menu: the system, then every language there is; the chosen one is checked.
pub open spec fn language_options(
    available: Seq<(Seq<char>, Seq<char>)>,
    current: Option<Seq<char>>,
) -> Seq<OptionData> {
    seq![OptionData { tag: None, name: WordsData::Key("System"), checked: current is None }]
        + Seq::new(
        available.len(),
        |i: int|
            OptionData {
                tag: Some(available[i].0),
                name: WordsData::Plain(available[i].1),
                checked: current == Some(available[i].0),
            },
    )
}

fn is_tag(current: &Option<String>, tag: &str) -> (r: bool)
    ensures
        r == (current.deep_view() == Some(tag@)),
{
    match current {
        Some(t) => same_text(t.as_str(), tag),
        None => false,
    }
}

fn find_label(available: &Vec<Locale>, current: &Option<String>) -> (r: Words)
    ensures
        r.deep_view() == language_label(available.deep_view(), current.deep_view()),
{
    let ghost all = available.deep_view();
    if let Some(tag) = current {
        let mut i: usize = 0;
        while i < available.len()
            invariant
                i <= available.len(),
                all == available.deep_view(),
                current.deep_view() == Some(tag@),
                name_of_tag(all, tag@, 0) == name_of_tag(all, tag@, i as int),
            decreases available.len() - i,
        {
            assert(all[i as int] == available@[i as int].deep_view());
            if same_text(available[i].tag.as_str(), tag.as_str()) {
                return Words::Plain(available[i].name.clone());
            }
            i = i + 1;
        }
    }
    Words::Key("System")
}

/// The language menu.
pub fn language_control(available: &Vec<Locale>, current: &Option<String>) -> (r: LanguageControl)
    ensures
        r.label.deep_view() == language_label(available.deep_view(), current.deep_view()),
        r.options.deep_view() == language_options(available.deep_view(), current.deep_view()),
{
    let ghost all = available.deep_view();
    let ghost expected = language_options(all, current.deep_view());
    let mut options: Vec<LanguageOption> = Vec::new();
    options.push(
        LanguageOption { tag: None, name: Words::Key("System"), checked: current.is_none() },
    );
    assert(options.deep_view() =~= expected.take(1));
    let mut i: usize = 0;
    while i < available.len()
        invariant
            i <= available.len(),
            all == available.deep_view(),
            expected == language_options(all, current.deep_view()),
            options.deep_view() == expected.take(i + 1),
        decreases available.len() - i,
    {
        let ghost before = options.deep_view();
        let locale = &available[i];
        let option = LanguageOption {
            tag: Some(locale.tag.clone()),
            name: Words::Plain(locale.name.clone()),
            checked: is_tag(current, locale.tag.as_str()),
        };
        options.push(option);
        proof {
            assert(all[i as int] == locale.deep_view());
            assert(options.deep_view() =~= before.push(option.deep_view()));
            assert(expected[i + 1] == option.deep_view());
            assert(options.deep_view() =~= expected.take(i + 2));
        }
        i = i + 1;
    }
    assert(expected.take(expected.len() as int) =~= expected);
    LanguageControl { label: find_label(available, current), options }
}

/// A setting: its name, what it does, and its control.
pub struct SettingRow<C> {
    pub title: &'static str,
    pub subtitle: &'static str,
    pub control: C,
}

/// A setting.
pub fn setting_row<C>(
    title: &'static str,
    subtitle: &'static str,
    control: C,
) -> (r: SettingRow<C>)
    ensures
        r == (SettingRow { title, subtitle, control }),
{
    SettingRow { title, subtitle, control }
}

/// The page for appearance and language.
pub struct GeneralPage {
    pub title: &'static str,
    pub subtitle: &'static str,
    pub appearance: SettingRow<Vec<AppearanceButton>>,
    pub language: SettingRow<LanguageControl>,
}

/// The page for appearance and language.
pub fn render_general(
    appearance: AppearancePreference,
    available: &Vec<Locale>,
    language: &Option<String>,
) -> (r: GeneralPage)
    ensures
        r.title == "General",
        r.subtitle == "Customize how Wake looks and reads.",
        r.appearance.title == "Appearance",
        r.appearance.subtitle == "Follow the system or keep Wake light or dark.",
        r.appearance.control@ == appearance_switch(appearance),
        r.language.title == "Language",
        r.language.subtitle == "Follow the system language, or pick one.",
        r.language.control.label.deep_view() == language_label(
            available.deep_view(),
            language.deep_view(),
        ),
        r.language.control.options.deep_view() == language_options(
            available.deep_view(),
            language.deep_view(),
        ),
{
    let mut buttons: Vec<AppearanceButton> = Vec::new();
    buttons.push(
        appearance_button("appearance-system", "System", AppearancePreference::System, appearance),
    );
    buttons.push(
        appearance_button("appearance-light", "Light", AppearancePreference::Light, appearance),
    );
    buttons.push(
        appearance_button("appearance-dark", "Dark", AppearancePreference::Dark, appearance),
    );
    assert(buttons@ =~= appearance_switch(appearance));
    GeneralPage {
        title: "General",
        subtitle: "Customize how Wake looks and reads.",
        appearance: setting_row(
            "Appearance",
            "Follow the system or keep Wake light or dark.",
            buttons,
        ),
        language: setting_row(
            "Language",
            "Follow the system language, or pick one.",
            language_control(available, language),
        ),
    }
}

/// Of the language menu exactly the chosen entry is checked, as long as no two languages have one
/// tag.
pub proof fn law_one_language_is_checked(
    available: Seq<(Seq<char>, Seq<char>)>,
    current: Option<Seq<char>>,
    i: int,
    j: int,
)
    requires
        0 <= i < j < language_options(available, current).len(),
        forall|a: int, b: int|
            #![trigger available[a], available[b]]
            0 <= a < b < available.len() ==> available[a].0 != available[b].0,
    ensures
        !(language_options(available, current)[i].checked && language_options(
            available,
            current,
        )[j].checked),
{
    if i > 0 {
        assert(available[i - 1].0 != available[j - 1].0);
    }
}

}
