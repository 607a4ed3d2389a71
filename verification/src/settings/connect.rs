//! The page that connects other programs with the index: it only shows and copies.
use crate::models::AgentId;
use crate::settings::state::SettingsView;
use crate::text;
use crate::text::{concat2, decimal_of, text_lines};
use crate::ui::{Tone, Words, WordsData};
use vstd::prelude::*;

verus! {

/// The guide for programs that connect over the protocol server.
pub const CONNECT_GUIDE_URL: &'static str = "https://github.com/iAmCorey/Wake/blob/main/docs/mcp.md";

/// The guide for the command line.
pub const CONNECT_CLI_GUIDE_URL: &'static str = "https://github.com/iAmCorey/Wake/blob/main/docs/cli.md";

/// What is known of a program beside the app.
pub struct BinaryFacts {
    pub path: String,
    pub display: String,
    pub exists: bool,
}

/// Where a program beside the app is: by its bare name where it was not found.
pub fn binary_path(stem: &str, found: &Option<String>) -> (r: String)
    ensures
        r@ == found.deep_view().unwrap_or(stem@),
{
    match found {
        Some(p) => p.clone(),
        None => stem.to_owned(),
    }
}

impl BinaryFacts {
    /// What is known of the program `stem`: where it was found, whether that is a file, and how
    /// its path is shown.
    pub fn probe(stem: &str, found: Option<String>, is_file: bool, display: String) -> (r: Self)
        ensures
            r.path@ == found.deep_view().unwrap_or(stem@),
            r.display == display,
            r.exists == (found is Some && is_file),
    {
        BinaryFacts {
            path: binary_path(stem, &found),
            display,
            exists: found.is_some() && is_file,
        }
    }
}

/// How a client is connected: its name, a hint, and the text to give it.
pub struct SetupSnippet {
    pub agent: AgentId,
    pub client: &'static str,
    pub hint: &'static str,
    pub copy_label: &'static str,
    pub text: String,
}

/// What the page shows. `cli_path_command` makes the command line known to the shell, where one
/// command can.
pub struct ConnectInfo {
    pub mcp: BinaryFacts,
    pub cli: BinaryFacts,
    pub cli_path_command: Option<String>,
    pub snippets: Vec<SetupSnippet>,
}

impl ConnectInfo {
    /// What the page shows, gathered once when the window opens.
    pub fn probe(
        mcp: BinaryFacts,
        cli: BinaryFacts,
        cli_path_command: Option<String>,
        snippets: Vec<SetupSnippet>,
    ) -> (r: Self)
        ensures
            r == (ConnectInfo { mcp, cli, cli_path_command, snippets }),
    {
        ConnectInfo { mcp, cli, cli_path_command, snippets }
    }
}

/// A button that copies `text`, and says so for a while.
pub struct CopyButton {
    pub id: String,
    pub icon: &'static str,
    pub label: &'static str,
    pub text: String,
}

/// What a [`CopyButton`] holds.
pub struct CopyData {
    pub id: Seq<char>,
    pub icon: &'static str,
    pub label: &'static str,
    pub text: Seq<char>,
}

impl DeepView for CopyButton {
    type V = CopyData;

    open spec fn deep_view(&self) -> CopyData {
        CopyData { id: self.id@, icon: self.icon, label: self.label, text: self.text@ }
    }
}

/// A button that copies `text`, while the button `copied` has just copied something.
pub open spec fn copy_of(
    copied: Option<Seq<char>>,
    id: Seq<char>,
    label: &'static str,
    text: Seq<char>,
) -> CopyData {
    CopyData {
        id,
        icon: if copied == Some(id) { "icons/check.svg" } else { "icons/copy.svg" },
        label: if copied == Some(id) { "Copied" } else { label },
        text,
    }
}

/// A button that copies `text`.
pub fn copy_button(
    view: &SettingsView,
    id: String,
    label: &'static str,
    text: String,
) -> (r: CopyButton)
    ensures
        r.deep_view() == copy_of(view@.copied, id@, label, text@),
{
    let copied = view.is_copied(id.as_str());
    CopyButton {
        id,
        icon: if copied {
            "icons/check.svg"
        } else {
            "icons/copy.svg"
        },
        label: if copied {
            "Copied"
        } else {
            label
        },
        text,
    }
}

/// The row of a client: its snippet can be copied, and is shown line by line while it is open.
pub struct ClientRow {
    pub ix: usize,
    pub agent: AgentId,
    pub client: &'static str,
    pub hint: &'static str,
    /// Whether a line is drawn below the row.
    pub line_below: bool,
    pub toggle_id: String,
    pub toggle_icon: &'static str,
    pub toggle_label: &'static str,
    pub copy: CopyButton,
    pub lines: Option<Vec<String>>,
}

/// What a [`ClientRow`] holds.
pub struct ClientData {
    pub ix: int,
    pub agent: AgentId,
    pub client: &'static str,
    pub hint: &'static str,
    pub line_below: bool,
    pub toggle_id: Seq<char>,
    pub toggle_icon: &'static str,
    pub toggle_label: &'static str,
    pub copy: CopyData,
    pub lines: Option<Seq<Seq<char>>>,
}

impl DeepView for ClientRow {
    type V = ClientData;

    open spec fn deep_view(&self) -> ClientData {
        ClientData {
            ix: self.ix as int,
            agent: self.agent,
            client: self.client,
            hint: self.hint,
            line_below: self.line_below,
            toggle_id: self.toggle_id@,
            toggle_icon: self.toggle_icon,
            toggle_label: self.toggle_label,
            copy: self.copy.deep_view(),
            lines: self.lines.deep_view(),
        }
    }
}

/// The row of a client, as number `ix` of `count`.
pub open spec fn client_row(
    s: SetupSnippet,
    ix: int,
    count: int,
    shown: bool,
    copied: Option<Seq<char>>,
) -> ClientData {
    ClientData {
        ix,
        agent: s.agent,
        client: s.client,
        hint: s.hint,
        line_below: ix + 1 < count,
        toggle_id: "connect-show-"@ + text::decimal(ix as nat),
        toggle_icon: if shown { "icons/chevron-down.svg" } else { "icons/chevron-right.svg" },
        toggle_label: if shown { "Hide" } else { "Show" },
        copy: copy_of(
            copied,
            "connect-copy-"@ + text::decimal(ix as nat),
            s.copy_label,
            s.text@,
        ),
        lines: if shown { Some(text::lines_from(s.text@, 0)) } else { None },
    }
}

/// The rows of all clients, of which those in `open` show their snippet.
pub open spec fn client_rows(
    snippets: Seq<SetupSnippet>,
    open: Set<usize>,
    copied: Option<Seq<char>>,
) -> Seq<ClientData> {
    Seq::new(
        snippets.len(),
        |i: int|
            client_row(
                snippets[i],
                i,
                snippets.len() as int,
                open.contains(i as usize),
                copied,
            ),
    )
}

fn render_client(
    view: &SettingsView,
    s: &SetupSnippet,
    ix: usize,
    count: usize,
) -> (r: ClientRow)
    requires
        ix < count,
    ensures
        r.deep_view() == client_row(
            *s,
            ix as int,
            count as int,
            view@.connect_shown.contains(ix),
            view@.copied,
        ),
{
    let shown = view.is_shown(ix);
    let number = decimal_of(ix as u64);
    ClientRow {
        ix,
        agent: s.agent,
        client: s.client,
        hint: s.hint,
        line_below: ix + 1 < count,
        toggle_id: concat2("connect-show-", number.as_str()),
        toggle_icon: if shown {
            "icons/chevron-down.svg"
        } else {
            "icons/chevron-right.svg"
        },
        toggle_label: if shown {
            "Hide"
        } else {
            "Show"
        },
        copy: copy_button(
            view,
            concat2("connect-copy-", number.as_str()),
            s.copy_label,
            s.text.clone(),
        ),
        lines: if shown {
            Some(text_lines(s.text.as_str()))
        } else {
            None
        },
    }
}

/// A line below the name on a card.
pub struct Detail {
    pub words: Words,
    pub tone: Tone,
    pub mono: bool,
}

/// What a [`Detail`] holds.
pub struct DetailData {
    pub words: WordsData,
    pub tone: Tone,
    pub mono: bool,
}

impl DeepView for Detail {
    type V = DetailData;

    open spec fn deep_view(&self) -> DetailData {
        DetailData { words: self.words.deep_view(), tone: self.tone, mono: self.mono }
    }
}

/// The lines of a card: what is copied, and a warning where it is missing.
pub open spec fn card_details(display: Seq<char>, exists: bool) -> Seq<DetailData> {
    seq![DetailData { words: WordsData::Plain(display), tone: Tone::Muted, mono: true }] + (if exists {
        seq![]
    } else {
        seq![
            DetailData {
                words: WordsData::Key("Not found next to the Wake app — reinstall Wake"),
                tone: Tone::Danger,
                mono: false,
            },
        ]
    })
}

fn mono_details(display: String, exists: bool) -> (r: Vec<Detail>)
    ensures
        r.deep_view() == card_details(display@, exists),
{
    let mut out: Vec<Detail> = Vec::new();
    out.push(Detail { words: Words::Plain(display), tone: Tone::Muted, mono: true });
    if !exists {
        out.push(
            Detail {
                words: Words::Key("Not found next to the Wake app — reinstall Wake"),
                tone: Tone::Danger,
                mono: false,
            },
        );
    }
    assert(out.deep_view() =~= card_details(display@, exists));
    out
}

/// A card: a name, lines below it, and buttons, of which the one that every card has comes last.
pub struct ConnectCard {
    pub primary: Words,
    pub details: Vec<Detail>,
    pub extra: Option<CopyButton>,
    pub copy: CopyButton,
}

/// What a [`ConnectCard`] holds.
pub struct CardData {
    pub primary: WordsData,
    pub details: Seq<DetailData>,
    pub extra: Option<CopyData>,
    pub copy: CopyData,
}

impl DeepView for ConnectCard {
    type V = CardData;

    open spec fn deep_view(&self) -> CardData {
        CardData {
            primary: self.primary.deep_view(),
            details: self.details.deep_view(),
            extra: self.extra.deep_view(),
            copy: self.copy.deep_view(),
        }
    }
}

/// The card of a program.
pub open spec fn binary_card_of(
    name: Seq<char>,
    id: Seq<char>,
    f: BinaryFacts,
    extra: Option<CopyData>,
    copied: Option<Seq<char>>,
) -> CardData {
    CardData {
        primary: WordsData::Plain(name),
        details: card_details(f.display@, f.exists),
        extra,
        copy: copy_of(copied, id, "Copy path", f.path@),
    }
}

fn binary_card(
    view: &SettingsView,
    name: &str,
    id: &str,
    f: &BinaryFacts,
    extra: Option<CopyButton>,
) -> (r: ConnectCard)
    ensures
        r.deep_view() == binary_card_of(name@, id@, *f, extra.deep_view(), view@.copied),
{
    ConnectCard {
        primary: Words::Plain(name.to_owned()),
        details: mono_details(f.display.clone(), f.exists),
        extra,
        copy: copy_button(view, id.to_owned(), "Copy path", f.path.clone()),
    }
}

/// A heading, with a link to a guide where it begins a subject.
#[derive(Clone, Copy, Debug)]
pub struct Section {
    pub label: &'static str,
    pub guide: Option<(&'static str, &'static str)>,
}

/// The page: the protocol server and its clients, then the command line and the skill that uses it.
pub struct ConnectPage {
    pub title: &'static str,
    pub subtitle: &'static str,
    pub guide_label: &'static str,
    pub server: Section,
    pub server_card: ConnectCard,
    pub clients: Section,
    pub client_rows: Vec<ClientRow>,
    pub command_line: Section,
    pub command_line_card: ConnectCard,
    pub skill: Section,
    pub skill_card: ConnectCard,
}

/// The page. `skill_install` is the command that installs the skill.
pub fn render_connect(
    view: &SettingsView,
    info: &ConnectInfo,
    skill_install: &str,
) -> (r: ConnectPage)
    ensures
        r.title == "Connect",
        r.subtitle == "Let your coding agents look up your past sessions from Wake.",
        r.guide_label == "Setup guide",
        r.server == (Section {
            label: "MCP server",
            guide: Some(("connect-setup-guide", CONNECT_GUIDE_URL)),
        }),
        r.server_card.deep_view() == binary_card_of(
            "wake-mcp"@,
            "connect-copy-path"@,
            info.mcp,
            None,
            view@.copied,
        ),
        r.clients == (Section { label: "MCP clients", guide: None }),
        r.client_rows.deep_view() == client_rows(
            info.snippets@,
            view@.connect_shown,
            view@.copied,
        ),
        r.command_line == (Section {
            label: "Command line",
            guide: Some(("connect-cli-setup-guide", CONNECT_CLI_GUIDE_URL)),
        }),
        r.command_line_card.deep_view() == binary_card_of(
            "wake-cli"@,
            "connect-copy-cli-path"@,
            info.cli,
            match info.cli_path_command {
                Some(cmd) => Some(
                    copy_of(
                        view@.copied,
                        "connect-copy-cli-command"@,
                        "Copy command",
                        cmd@,
                    ),
                ),
                None => None,
            },
            view@.copied,
        ),
        r.skill == (Section { label: "Skill", guide: None }),
        r.skill_card.deep_view() == (CardData {
            primary: WordsData::Key("Wake skill"),
            details: card_details(skill_install@, true),
            extra: None,
            copy: copy_of(
                view@.copied,
                "connect-copy-skill"@,
                "Copy command",
                skill_install@,
            ),
        }),
{
    let count: usize = info.snippets.len();
    let ghost expected = client_rows(info.snippets@, view@.connect_shown, view@.copied);
    let mut rows: Vec<ClientRow> = Vec::new();
    let mut ix: usize = 0;
    while ix < count
        invariant
            ix <= count,
            count == info.snippets@.len(),
            expected == client_rows(info.snippets@, view@.connect_shown, view@.copied),
            rows.deep_view() == expected.take(ix as int),
        decreases count - ix,
    {
        let ghost before = rows.deep_view();
        let row = render_client(view, &info.snippets[ix], ix, count);
        rows.push(row);
        proof {
            assert(rows.deep_view() =~= before.push(row.deep_view()));
            assert(rows.deep_view() =~= expected.take(ix + 1));
        }
        ix = ix + 1;
    }
    assert(expected.take(expected.len() as int) =~= expected);
    let copy_cli_command = match &info.cli_path_command {
        Some(cmd) => Some(
            copy_button(
                view,
                "connect-copy-cli-command".to_owned(),
                "Copy command",
                cmd.clone(),
            ),
        ),
        None => None,
    };
    ConnectPage {
        title: "Connect",
        subtitle: "Let your coding agents look up your past sessions from Wake.",
        guide_label: "Setup guide",
        server: Section {
            label: "MCP server",
            guide: Some(("connect-setup-guide", CONNECT_GUIDE_URL)),
        },
        server_card: binary_card(view, "wake-mcp", "connect-copy-path", &info.mcp, None),
        clients: Section { label: "MCP clients", guide: None },
        client_rows: rows,
        command_line: Section {
            label: "Command line",
            guide: Some(("connect-cli-setup-guide", CONNECT_CLI_GUIDE_URL)),
        },
        command_line_card: binary_card(
            view,
            "wake-cli",
            "connect-copy-cli-path",
            &info.cli,
            copy_cli_command,
        ),
        skill: Section { label: "Skill", guide: None },
        skill_card: ConnectCard {
            primary: Words::Key("Wake skill"),
            details: mono_details(skill_install.to_owned(), true),
            extra: None,
            copy: copy_button(
                view,
                "connect-copy-skill".to_owned(),
                "Copy command",
                skill_install.to_owned(),
            ),
        },
    }
}

/// No two clients share a button: their numbers tell the buttons apart.
pub proof fn law_client_buttons_differ(
    snippets: Seq<SetupSnippet>,
    open: Set<usize>,
    copied: Option<Seq<char>>,
    i: int,
    j: int,
)
    requires
        0 <= i < j < snippets.len(),
    ensures
        ({
            let rows = client_rows(snippets, open, copied);
            &&& rows[i].copy.id != rows[j].copy.id
            &&& rows[i].toggle_id != rows[j].toggle_id
        }),
{
    let rows = client_rows(snippets, open, copied);
    let (a, b) = (text::decimal(i as nat), text::decimal(j as nat));
    let (copy, show) = ("connect-copy-"@, "connect-show-"@);
    if rows[i].copy.id == rows[j].copy.id {
        assert(a =~= (copy + a).skip(copy.len() as int));
        assert(b =~= (copy + b).skip(copy.len() as int));
        text::law_decimal_tells_numbers_apart(i as nat, j as nat);
    }
    if rows[i].toggle_id == rows[j].toggle_id {
        assert(a =~= (show + a).skip(show.len() as int));
        assert(b =~= (show + b).skip(show.len() as int));
        text::law_decimal_tells_numbers_apart(i as nat, j as nat);
    }
}

}
