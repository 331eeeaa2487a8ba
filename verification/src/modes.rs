//! The modes of the launcher and when the search text switches to each.
use crate::dmenu::DmenuArgs;
use crate::emoji::EmojiArgs;
use crate::text::{starts_with, starts_with_char};
use vstd::prelude::*;

verus! {

/// Whether `c` has the Unicode `Alphabetic` property (`char::is_alphabetic`).
pub uninterp spec fn is_alphabetic(c: char) -> bool;

/// Whether `c` is alphabetic: the named property [`is_alphabetic`], which the
/// question mark, the equals sign and the colon do not have (in the Unicode
/// Character Database they are punctuation and a math symbol, outside `Alphabetic`).
pub open spec fn alphabetic(c: char) -> bool {
    is_alphabetic(c) && c != '?' && c != '=' && c != ':'
}

/// `char::is_alphabetic`, documented as whether the character has the Unicode
/// `Alphabetic` property of `DerivedCoreProperties.txt`. Claimed: the result is that
/// named property, and it is false for `?`, `=` and `:`; nothing more is said of
/// which characters have it.
#[verifier::external_body]
fn char_is_alphabetic(c: char) -> (b: bool)
    ensures
        b == is_alphabetic(c),
        b == alphabetic(c),
{
    c.is_alphabetic()
}

/// Whether the first character of `s` is alphabetic.
pub open spec fn starts_alphabetic(s: Seq<char>) -> bool {
    s.len() > 0 && alphabetic(s[0])
}

fn starts_with_alphabetic(s: &str) -> (b: bool)
    ensures
        b == starts_alphabetic(s@),
{
    if s.unicode_len() == 0 {
        false
    } else {
        char_is_alphabetic(s.get_char(0))
    }
}

/// A message to a mode.
pub enum ModeMsg {
    /// The mode became the current one.
    Activate,
    /// The mode is no longer the current one.
    Deactivate,
    /// The user confirmed the current selection (Enter).
    ActivateCurrent,
    /// The search text changed.
    SetQueryString(String),
}

/// The modes of the launcher.
#[derive(Clone, Copy, PartialEq, Eq, Debug, Structural)]
pub enum ModeKind {
    /// Live search of installed applications.
    AppLauncher,
    /// The help text.
    Help,
    /// The calculator.
    Calculator,
    /// The emoji picker.
    Emojis,
    /// Choosing one of the lines read from the input.
    Dmenu,
}

/// Whether a mode takes over for the search text `query`: text starting with a
/// letter searches applications, `?` shows help, `=` the calculator and `:` the
/// emoji picker; dmenu mode is only entered from the command line.
pub open spec fn accepts(kind: ModeKind, query: Seq<char>) -> bool {
    match kind {
        ModeKind::AppLauncher => starts_alphabetic(query),
        ModeKind::Help => starts_with(query, '?'),
        ModeKind::Calculator => starts_with(query, '='),
        ModeKind::Emojis => starts_with(query, ':'),
        ModeKind::Dmenu => false,
    }
}

/// The name of a mode's view; unique among the modes.
pub open spec fn mode_name(kind: ModeKind) -> Seq<char> {
    match kind {
        ModeKind::AppLauncher => "app_launcher"@,
        ModeKind::Help => "help"@,
        ModeKind::Calculator => "calc"@,
        ModeKind::Emojis => "emojis"@,
        ModeKind::Dmenu => "dmenu"@,
    }
}

impl ModeKind {
    /// The name of the mode's view in the window's stack of modes.
    pub fn name(&self) -> (r: &'static str)
        ensures
            r@ == mode_name(*self),
    {
        match self {
            ModeKind::AppLauncher => "app_launcher",
            ModeKind::Help => "help",
            ModeKind::Calculator => "calc",
            ModeKind::Emojis => "emojis",
            ModeKind::Dmenu => "dmenu",
        }
    }

    /// Whether the mode takes over for the search text `query`.
    pub fn should_switch_to_this_mode(&self, query: &str) -> (b: bool)
        ensures
            b == accepts(*self, query@),
    {
        match self {
            ModeKind::AppLauncher => starts_with_alphabetic(query),
            ModeKind::Help => starts_with_char(query, '?'),
            ModeKind::Calculator => starts_with_char(query, '='),
            ModeKind::Emojis => starts_with_char(query, ':'),
            ModeKind::Dmenu => false,
        }
    }
}

/// At most one mode takes over for any search text, dmenu mode for none and no
/// mode for the empty text.
pub proof fn lemma_modes_exclusive(query: Seq<char>)
    ensures
        forall|a: ModeKind, b: ModeKind| #[trigger] accepts(a, query) && #[trigger] accepts(b, query) ==> a == b,
        !accepts(ModeKind::Dmenu, query),
        query.len() == 0 ==> forall|k: ModeKind| !#[trigger] accepts(k, query),
{
}

/// The application launcher mode.
#[derive(Default)]
pub struct AppLauncherModeFactory;

/// The help mode.
#[derive(Default)]
pub struct HelpModeFactory;

/// The calculator mode.
#[derive(Default)]
pub struct CalculatorModeFactory;

/// The emoji picker mode, with the options it was started with.
pub struct EmojiPickerFactory(pub EmojiArgs);

/// The dmenu mode, with its options and the lines it offers.
pub struct DmenuModeFactory(pub DmenuArgs, pub Vec<String>);

impl AppLauncherModeFactory {
    pub fn name(&self) -> (r: &'static str)
        ensures
            r@ == mode_name(ModeKind::AppLauncher),
    {
        ModeKind::AppLauncher.name()
    }

    pub fn should_switch_to_this_mode(&self, query: &str) -> (b: bool)
        ensures
            b == accepts(ModeKind::AppLauncher, query@),
    {
        ModeKind::AppLauncher.should_switch_to_this_mode(query)
    }
}

impl HelpModeFactory {
    pub fn name(&self) -> (r: &'static str)
        ensures
            r@ == mode_name(ModeKind::Help),
    {
        ModeKind::Help.name()
    }

    pub fn should_switch_to_this_mode(&self, query: &str) -> (b: bool)
        ensures
            b == accepts(ModeKind::Help, query@),
    {
        ModeKind::Help.should_switch_to_this_mode(query)
    }
}

impl CalculatorModeFactory {
    pub fn name(&self) -> (r: &'static str)
        ensures
            r@ == mode_name(ModeKind::Calculator),
    {
        ModeKind::Calculator.name()
    }

    pub fn should_switch_to_this_mode(&self, query: &str) -> (b: bool)
        ensures
            b == accepts(ModeKind::Calculator, query@),
    {
        ModeKind::Calculator.should_switch_to_this_mode(query)
    }
}

impl EmojiPickerFactory {
    pub fn name(&self) -> (r: &'static str)
        ensures
            r@ == mode_name(ModeKind::Emojis),
    {
        ModeKind::Emojis.name()
    }

    pub fn should_switch_to_this_mode(&self, query: &str) -> (b: bool)
        ensures
            b == accepts(ModeKind::Emojis, query@),
    {
        ModeKind::Emojis.should_switch_to_this_mode(query)
    }
}

impl DmenuModeFactory {
    pub fn name(&self) -> (r: &'static str)
        ensures
            r@ == mode_name(ModeKind::Dmenu),
    {
        ModeKind::Dmenu.name()
    }

    pub fn should_switch_to_this_mode(&self, query: &str) -> (b: bool)
        ensures
            b == accepts(ModeKind::Dmenu, query@),
    {
        ModeKind::Dmenu.should_switch_to_this_mode(query)
    }
}

} // verus!
