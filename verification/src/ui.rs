//! What the pages are made of: words to translate, tones, buttons.
use vstd::prelude::*;

verus! {

/// A piece of text on a page.
pub enum Words {
    /// A text that is translated.
    Key(&'static str),
    /// A translated text with its gaps filled, in order.
    Filled { template: &'static str, args: Vec<String> },
    /// A translated text that tells a number, in the singular or the plural.
    Counted { one: &'static str, many: &'static str, count: usize },
    /// A text that stays as it is.
    Plain(String),
}

/// What [`Words`] hold.
pub enum WordsData {
    Key(&'static str),
    Filled { template: &'static str, args: Seq<Seq<char>> },
    Counted { one: &'static str, many: &'static str, count: usize },
    Plain(Seq<char>),
}

impl DeepView for Words {
    type V = WordsData;

    open spec fn deep_view(&self) -> WordsData {
        match self {
            Words::Key(k) => WordsData::Key(*k),
            Words::Filled { template, args } => WordsData::Filled {
                template: *template,
                args: args.deep_view(),
            },
            Words::Counted { one, many, count } => WordsData::Counted {
                one: *one,
                many: *many,
                count: *count,
            },
            Words::Plain(s) => WordsData::Plain(s@),
        }
    }
}

fn copied_texts(texts: &Vec<String>) -> (r: Vec<String>)
    ensures
        r.deep_view() == texts.deep_view(),
{
    let mut out: Vec<String> = Vec::new();
    let ghost all = texts.deep_view();
    let mut i: usize = 0;
    assert(out.deep_view() =~= all.take(0));
    while i < texts.len()
        invariant
            i <= texts.len(),
            all == texts.deep_view(),
            out.deep_view() == all.take(i as int),
        decreases texts.len() - i,
    {
        let ghost before = out.deep_view();
        out.push(texts[i].clone());
        assert(out.deep_view() =~= before.push(texts@[i as int]@));
        assert(out.deep_view() =~= all.take(i + 1));
        i = i + 1;
    }
    assert(all.take(all.len() as int) =~= all);
    out
}

impl Words {
    /// A copy.
    pub fn copied(&self) -> (r: Words)
        ensures
            r.deep_view() == self.deep_view(),
    {
        match self {
            Words::Key(k) => Words::Key(*k),
            Words::Filled { template, args } => Words::Filled {
                template: *template,
                args: copied_texts(args),
            },
            Words::Counted { one, many, count } => Words::Counted {
                one: *one,
                many: *many,
                count: *count,
            },
            Words::Plain(s) => Words::Plain(s.clone()),
        }
    }
}

/// A translated text with one gap, filled.
pub fn filled(template: &'static str, arg: &str) -> (r: Words)
    ensures
        r.deep_view() == (WordsData::Filled { template, args: seq![arg@] }),
{
    let mut args: Vec<String> = Vec::new();
    args.push(arg.to_owned());
    assert(args.deep_view() =~= seq![arg@]);
    Words::Filled { template, args }
}

/// A translated text with two gaps, filled.
pub fn filled2(template: &'static str, first: &str, second: &str) -> (r: Words)
    ensures
        r.deep_view() == (WordsData::Filled { template, args: seq![first@, second@] }),
{
    let mut args: Vec<String> = Vec::new();
    args.push(first.to_owned());
    args.push(second.to_owned());
    assert(args.deep_view() =~= seq![first@, second@]);
    Words::Filled { template, args }
}

/// The colour that a text is drawn in.
#[derive(Clone, Copy, PartialEq, Eq, Structural, Debug)]
pub enum Tone {
    Foreground,
    Muted,
    Danger,
    Warning,
    Primary,
    Sidebar,
    SidebarActive,
}

}
