//! The page that tells what the app is.
use crate::ui::{filled, Words, WordsData};
use vstd::prelude::*;

verus! {

/// A link that opens a page in the browser.
#[derive(Clone, Copy, Debug)]
pub struct AboutLink {
    pub id: &'static str,
    pub label: &'static str,
    pub url: &'static str,
}

/// A link that opens a page in the browser.
pub fn about_link(id: &'static str, label: &'static str, url: &'static str) -> (r: AboutLink)
    ensures
        r == (AboutLink { id, label, url }),
{
    AboutLink { id, label, url }
}

/// The page, from top to bottom.
pub struct AboutPage {
    pub image: &'static str,
    pub name: &'static str,
    pub version: Words,
    pub tagline: &'static str,
    pub repository: AboutLink,
    pub copyright: &'static str,
    pub credit: &'static str,
    pub author: AboutLink,
}

/// The page.
pub fn render_about(version: &str) -> (r: AboutPage)
    ensures
        r.image == "brands/wake.svg",
        r.name == "Wake",
        r.version.deep_view() == (WordsData::Filled {
            template: "Version {}",
            args: seq![version@],
        }),
        r.tagline == "All your AI agent sessions, in one place.",
        r.repository == (AboutLink {
            id: "about-github",
            label: "GitHub ↗",
            url: "https://github.com/iAmCorey/Wake",
        }),
        r.copyright == "© 2026 Corey Chiu · MIT License",
        r.credit == "Built with ❤️ by ",
        r.author == (AboutLink {
            id: "about-author",
            label: "Corey Chiu",
            url: "https://coreychiu.com?utm_source=wake",
        }),
{
    AboutPage {
        image: "brands/wake.svg",
        name: "Wake",
        version: filled("Version {}", version),
        tagline: "All your AI agent sessions, in one place.",
        repository: about_link("about-github", "GitHub ↗", "https://github.com/iAmCorey/Wake"),
        copyright: "© 2026 Corey Chiu · MIT License",
        credit: "Built with ❤️ by ",
        author: about_link(
            "about-author",
            "Corey Chiu",
            "https://coreychiu.com?utm_source=wake",
        ),
    }
}

}
