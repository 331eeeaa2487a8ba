//! The launcher window's decisions: which mode is current, what the search text
//! does, and what launching or outputting ends in. The window performs the actions
//! that these functions return and hands back the events.
use crate::desktop_entry::{
    action_launch_command, action_launch_of, launch_command, launch_of, AppEntry,
    DesktopEntryActionObject, LaunchCommand,
};
use crate::dmenu::DmenuArgs;
use crate::emoji::EmojiArgs;
use crate::modes::{accepts, lemma_modes_exclusive, starts_alphabetic, ModeKind, ModeMsg};
use crate::text::starts_with;
use crate::output::{outputs, text_output, OutputAction, OutputChoice};
use vstd::prelude::*;

verus! {

/// The subcommand the launcher was started with.
pub enum Command {
    /// Open the emoji picker.
    Emoji(EmojiArgs),
    /// Open the calculator.
    Calc,
    /// Offer lines of the input to choose from.
    Dmenu(DmenuArgs),
}

/// The command line options that the window's decisions depend on.
pub struct Args {
    /// The subcommand, if any.
    pub command: Option<Command>,
    /// Where text output goes.
    pub output: OutputChoice,
    /// Notify after copying to the clipboard.
    pub notify: bool,
}

/// A message to the window.
pub enum AppMsg {
    /// The search text is now the given text.
    InputChanged(String),
    /// The user confirmed the current selection.
    ActivateCurrent,
    /// Launch an application.
    LaunchDesktopEntry(AppEntry),
    /// Run an action of an application.
    LaunchDesktopAction(DesktopEntryActionObject),
    /// Output a text (copy it to the clipboard or write it out).
    TextOutput { text: String, notify: bool },
    /// Close the launcher.
    Quit,
}

/// What the window does in answer to a message.
pub enum AppAction {
    /// Create the mode, with the given initial search text, and add its view.
    CreateMode(ModeKind, String),
    /// Send a message to a mode.
    SendToMode(ModeKind, ModeMsg),
    /// Show this placeholder in the search entry.
    SetPlaceholder(String),
    /// Send the window an `InputChanged` with the current search text.
    RefreshInput,
    /// Start a command line.
    Launch(LaunchCommand),
    /// Report that an application has no command line to launch (its id).
    MissingExec(String),
    /// Output a text.
    Output(OutputAction),
    /// Close the launcher.
    Quit,
}

/// The modes that the search text can switch to, in the order in which they are
/// asked, when no subcommand was given: the modes of the prefix characters `?`, `=`
/// and `:` first, so that their character always selects them.
pub open spec fn default_factories() -> Seq<ModeKind> {
    seq![ModeKind::Help, ModeKind::Calculator, ModeKind::Emojis, ModeKind::AppLauncher]
}

/// The placeholder of the search entry before any mode is current.
pub open spec fn help_placeholder() -> Seq<char> {
    "Type ? for help. Esc to quit."@
}

/// The mode that a subcommand opens.
pub open spec fn command_mode(c: Command) -> ModeKind {
    match c {
        Command::Emoji(_) => ModeKind::Emojis,
        Command::Calc => ModeKind::Calculator,
        Command::Dmenu(_) => ModeKind::Dmenu,
    }
}

/// The first of `factories` that takes over for `query`.
pub open spec fn first_accepting(factories: Seq<ModeKind>, query: Seq<char>) -> Option<ModeKind>
    decreases factories.len(),
{
    if factories.len() == 0 {
        None
    } else if accepts(factories[0], query) {
        Some(factories[0])
    } else {
        first_accepting(factories.drop_first(), query)
    }
}

/// The mode chosen for a query accepts it, and some mode is chosen whenever one of
/// the factories accepts the query.
pub proof fn lemma_first_accepting(factories: Seq<ModeKind>, query: Seq<char>)
    ensures
        first_accepting(factories, query) matches Some(k) ==> factories.contains(k) && accepts(k, query),
        (exists|i: int| 0 <= i < factories.len() && accepts(#[trigger] factories[i], query))
            ==> first_accepting(factories, query) is Some,
    decreases factories.len(),
{
    if factories.len() > 0 {
        lemma_first_accepting(factories.drop_first(), query);
        if let Some(k) = first_accepting(factories, query) {
            if !accepts(factories[0], query) {
                let j = choose|j: int| 0 <= j < factories.drop_first().len() && factories.drop_first()[j] == k;
                assert(factories[j + 1] == k);
            }
        }
        if exists|i: int| 0 <= i < factories.len() && accepts(#[trigger] factories[i], query) {
            let i = choose|i: int| 0 <= i < factories.len() && accepts(#[trigger] factories[i], query);
            if i > 0 {
                assert(factories.drop_first()[i - 1] == factories[i]);
            }
        }
    }
}

/// The mode chosen for a query does not depend on the order in which the factories
/// are asked: it is the one factory that accepts the query, if any.
pub proof fn lemma_first_accepting_is_the_acceptor(factories: Seq<ModeKind>, query: Seq<char>, k: ModeKind)
    requires
        factories.contains(k),
        accepts(k, query),
    ensures
        first_accepting(factories, query) == Some(k),
{
    lemma_first_accepting(factories, query);
    lemma_modes_exclusive(query);
    let i = choose|i: int| 0 <= i < factories.len() && factories[i] == k;
    assert(accepts(factories[i], query));
}

/// The window's state.
pub struct AppModel {
    mode_factories: Vec<ModeKind>,
    initialized_modes: Vec<ModeKind>,
    current_mode: Option<ModeKind>,
    has_command: bool,
    output: OutputChoice,
}

/// The plain value of an [`AppModel`].
pub struct AppModelView {
    /// The modes that the search text can switch to, in the order they are asked.
    pub mode_factories: Seq<ModeKind>,
    /// The modes that were switched to before and so exist already.
    pub initialized_modes: Seq<ModeKind>,
    /// The current mode.
    pub current_mode: Option<ModeKind>,
    /// Whether a subcommand was given.
    pub has_command: bool,
    /// Where text output goes.
    pub output: OutputChoice,
}

impl View for AppModel {
    type V = AppModelView;

    closed spec fn view(&self) -> AppModelView {
        AppModelView {
            mode_factories: self.mode_factories@,
            initialized_modes: self.initialized_modes@,
            current_mode: self.current_mode,
            has_command: self.has_command,
            output: self.output,
        }
    }
}

/// The plain value of a [`ModeMsg`].
pub enum ModeMsgView {
    Activate,
    Deactivate,
    ActivateCurrent,
    SetQueryString(Seq<char>),
}

/// The plain value of a mode message.
pub open spec fn mode_msg_view(m: ModeMsg) -> ModeMsgView {
    match m {
        ModeMsg::Activate => ModeMsgView::Activate,
        ModeMsg::Deactivate => ModeMsgView::Deactivate,
        ModeMsg::ActivateCurrent => ModeMsgView::ActivateCurrent,
        ModeMsg::SetQueryString(s) => ModeMsgView::SetQueryString(s@),
    }
}

/// The plain value of an action, where it carries no launch or output.
pub enum ActionView {
    CreateMode(ModeKind, Seq<char>),
    SendToMode(ModeKind, ModeMsgView),
    SetPlaceholder(Seq<char>),
    RefreshInput,
    Launch(Seq<char>, Option<Seq<char>>),
    MissingExec(Seq<char>),
    Output,
    Quit,
}

/// The plain value of an action (an output is told apart only by its kind).
pub open spec fn action_view(a: AppAction) -> ActionView {
    match a {
        AppAction::CreateMode(k, s) => ActionView::CreateMode(k, s@),
        AppAction::SendToMode(k, m) => ActionView::SendToMode(k, mode_msg_view(m)),
        AppAction::SetPlaceholder(s) => ActionView::SetPlaceholder(s@),
        AppAction::RefreshInput => ActionView::RefreshInput,
        AppAction::Launch(c) => ActionView::Launch(c.command_line@, c.name.deep_view()),
        AppAction::MissingExec(id) => ActionView::MissingExec(id@),
        AppAction::Output(_) => ActionView::Output,
        AppAction::Quit => ActionView::Quit,
    }
}

/// The plain values of a list of actions.
pub open spec fn actions_view(actions: Seq<AppAction>) -> Seq<ActionView> {
    actions.map_values(|a: AppAction| action_view(a))
}

/// The state and actions after the search text became `text`:
/// - an empty text without a subcommand leaves the current mode (deactivating it);
/// - otherwise, with no current mode, the first factory that accepts the text
///   becomes current (created first if it does not exist yet, then activated);
/// - the current mode, if any, then gets the text.
pub open spec fn input_changed(s: AppModelView, text: Seq<char>) -> (AppModelView, Seq<ActionView>) {
    if text.len() == 0 && !s.has_command {
        match s.current_mode {
            Some(m) => (
                AppModelView { current_mode: None, ..s },
                seq![ActionView::SendToMode(m, ModeMsgView::Deactivate)],
            ),
            None => (s, Seq::empty()),
        }
    } else {
        let (s1, switched) = match s.current_mode {
            Some(_) => (s, Seq::<ActionView>::empty()),
            None => match first_accepting(s.mode_factories, text) {
                None => (s, Seq::<ActionView>::empty()),
                Some(m) => if s.initialized_modes.contains(m) {
                    (
                        AppModelView { current_mode: Some(m), ..s },
                        seq![ActionView::SendToMode(m, ModeMsgView::Activate)],
                    )
                } else {
                    (
                        AppModelView {
                            current_mode: Some(m),
                            initialized_modes: s.initialized_modes.push(m),
                            ..s
                        },
                        seq![
                            ActionView::CreateMode(m, text),
                            ActionView::SendToMode(m, ModeMsgView::Activate),
                        ],
                    )
                },
            },
        };
        match s1.current_mode {
            Some(m) => (s1, switched.push(ActionView::SendToMode(m, ModeMsgView::SetQueryString(text)))),
            None => (s1, switched),
        }
    }
}

/// The state and actions of a new window: the placeholder points to the help; with
/// a subcommand its mode is then created, the placeholder asks to type to search,
/// the mode is activated and current, and the search text is handed on; without
/// one, the four searchable modes wait for text.
pub open spec fn initial(command: Option<Command>, output: OutputChoice) -> (AppModelView, Seq<ActionView>) {
    match command {
        None => (
            AppModelView {
                mode_factories: default_factories(),
                initialized_modes: Seq::empty(),
                current_mode: None,
                has_command: false,
                output,
            },
            seq![ActionView::SetPlaceholder(help_placeholder())],
        ),
        Some(c) => (
            AppModelView {
                mode_factories: Seq::empty(),
                initialized_modes: Seq::empty(),
                current_mode: Some(command_mode(c)),
                has_command: true,
                output,
            },
            seq![
                ActionView::SetPlaceholder(help_placeholder()),
                ActionView::CreateMode(command_mode(c), Seq::empty()),
                ActionView::SetPlaceholder("Type to search"@),
                ActionView::SendToMode(command_mode(c), ModeMsgView::Activate),
                ActionView::RefreshInput,
            ],
        ),
    }
}

/// Search text never switches to a mode that is not among the factories; in
/// particular a window started without a subcommand never enters dmenu mode.
pub proof fn lemma_search_switches_only_to_factories(s: AppModelView, text: Seq<char>, m: ModeKind)
    requires
        !s.mode_factories.contains(m),
        s.current_mode != Some(m),
    ensures
        input_changed(s, text).0.current_mode != Some(m),
{
    lemma_first_accepting(s.mode_factories, text);
}

/// Without a subcommand, the window can switch only to the four searchable modes.
pub proof fn lemma_no_dmenu_without_command(output: OutputChoice, text: Seq<char>)
    ensures
        input_changed(initial(None, output).0, text).0.current_mode != Some(ModeKind::Dmenu),
{
    let s = initial(None, output).0;
    assert(!default_factories().contains(ModeKind::Dmenu)) by {
        if default_factories().contains(ModeKind::Dmenu) {
            let k = choose|k: int| 0 <= k < 4 && default_factories()[k] == ModeKind::Dmenu;
        }
    }
    lemma_search_switches_only_to_factories(s, text, ModeKind::Dmenu);
}

/// A mode is created at most once: search text creates a mode only where it does
/// not exist yet, and the mode then exists.
pub proof fn lemma_mode_created_once(s: AppModelView, text: Seq<char>, m: ModeKind)
    requires
        input_changed(s, text).1.contains(ActionView::CreateMode(m, text)),
    ensures
        !s.initialized_modes.contains(m),
        input_changed(s, text).0.initialized_modes.contains(m),
{
    let r = input_changed(s, text);
    let k = choose|k: int| 0 <= k < r.1.len() && r.1[k] == ActionView::CreateMode(m, text);
    assert(r.0.initialized_modes.last() == m);
}

/// An empty search text without a subcommand leaves no mode current.
pub proof fn lemma_empty_text_leaves_mode(s: AppModelView)
    requires
        !s.has_command,
    ensures
        input_changed(s, Seq::empty()).0.current_mode is None,
{
}

/// The state and actions after a message: search text is handled by
/// [`input_changed`]; every other message leaves the state as it is.
pub open spec fn app_step(s: AppModelView, message: AppMsg) -> (AppModelView, Seq<ActionView>) {
    match message {
        AppMsg::InputChanged(text) => input_changed(s, text@),
        AppMsg::ActivateCurrent => (s, match s.current_mode {
            Some(m) => seq![ActionView::SendToMode(m, ModeMsgView::ActivateCurrent)],
            None => Seq::empty(),
        }),
        AppMsg::LaunchDesktopEntry(e) => (s, match launch_of(e@) {
            Some((line, name)) => seq![ActionView::Launch(line, name), ActionView::Quit],
            None => seq![ActionView::MissingExec(e@.appid), ActionView::Quit],
        }),
        AppMsg::LaunchDesktopAction(a) => (s, match action_launch_of(a.spec_entry(), a.spec_kind()) {
            Some((line, name)) => seq![ActionView::Launch(line, name), ActionView::Quit],
            None => seq![ActionView::MissingExec(a.spec_entry().appid), ActionView::Quit],
        }),
        AppMsg::TextOutput { .. } => (s, seq![ActionView::Output, ActionView::Quit]),
        AppMsg::Quit => (s, seq![ActionView::Quit]),
    }
}

/// The state after a sequence of messages, and all the actions in answer, in order.
pub open spec fn app_run(s: AppModelView, messages: Seq<AppMsg>) -> (AppModelView, Seq<ActionView>)
    decreases messages.len(),
{
    if messages.len() == 0 {
        (s, Seq::empty())
    } else {
        let (s1, a1) = app_run(s, messages.drop_last());
        let (s2, a2) = app_step(s1, messages.last());
        (s2, a1 + a2)
    }
}

/// The modes that a list of actions creates, in order.
pub open spec fn created_modes(actions: Seq<ActionView>) -> Seq<ModeKind>
    decreases actions.len(),
{
    if actions.len() == 0 {
        Seq::empty()
    } else {
        let rest = created_modes(actions.drop_last());
        match actions.last() {
            ActionView::CreateMode(m, _) => rest.push(m),
            _ => rest,
        }
    }
}

proof fn lemma_created_modes_add(a: Seq<ActionView>, b: Seq<ActionView>)
    ensures
        created_modes(a + b) == created_modes(a) + created_modes(b),
    decreases b.len(),
{
    if b.len() == 0 {
        assert(a + b =~= a);
        assert(created_modes(a) + created_modes(b) =~= created_modes(a));
    } else {
        lemma_created_modes_add(a, b.drop_last());
        assert((a + b).drop_last() =~= a + b.drop_last());
        assert((a + b).last() == b.last());
        match b.last() {
            ActionView::CreateMode(m, _) => {
                assert(created_modes(a) + created_modes(b) =~= (created_modes(a) + created_modes(b.drop_last())).push(m));
            },
            _ => {},
        }
    }
}

proof fn lemma_creates_none(a: Seq<ActionView>)
    requires
        forall|i: int| 0 <= i < a.len() ==> !(#[trigger] a[i] is CreateMode),
    ensures
        created_modes(a) == Seq::<ModeKind>::empty(),
    decreases a.len(),
{
    if a.len() > 0 {
        assert(!(a[a.len() - 1] is CreateMode));
        lemma_creates_none(a.drop_last());
    }
}

proof fn lemma_creates_first(a: Seq<ActionView>, m: ModeKind)
    requires
        a.len() > 0,
        a[0] matches ActionView::CreateMode(k, _) && k == m,
        forall|i: int| 1 <= i < a.len() ==> !(#[trigger] a[i] is CreateMode),
    ensures
        created_modes(a) == seq![m],
    decreases a.len(),
{
    if a.len() == 1 {
        assert(created_modes(a.drop_last()) == Seq::<ModeKind>::empty());
        assert(created_modes(a) =~= seq![m]);
    } else {
        assert(!(a[a.len() - 1] is CreateMode));
        lemma_creates_first(a.drop_last(), m);
    }
}

/// One message creates at most one mode: one that did not exist yet, is among the
/// factories, and becomes the current mode. The created modes are added to those
/// that exist, and the factories never change.
pub proof fn lemma_step_creates(s: AppModelView, message: AppMsg)
    ensures
        app_step(s, message).0.initialized_modes == s.initialized_modes + created_modes(app_step(s, message).1),
        app_step(s, message).0.mode_factories == s.mode_factories,
        created_modes(app_step(s, message).1).len() <= 1,
        forall|k: ModeKind| #[trigger] created_modes(app_step(s, message).1).contains(k) ==> {
            &&& !s.initialized_modes.contains(k)
            &&& s.mode_factories.contains(k)
            &&& app_step(s, message).0.current_mode == Some(k)
        },
{
    let (s2, a) = app_step(s, message);
    match message {
        AppMsg::InputChanged(text) => {
            let t = text@;
            lemma_first_accepting(s.mode_factories, t);
            let created = !(t.len() == 0 && !s.has_command) && s.current_mode is None && (
            first_accepting(s.mode_factories, t) matches Some(m) && !s.initialized_modes.contains(m));
            if created {
                let m = first_accepting(s.mode_factories, t)->Some_0;
                lemma_creates_first(a, m);
                assert(s2.initialized_modes =~= s.initialized_modes + seq![m]);
                assert forall|k: ModeKind| #[trigger] created_modes(a).contains(k) implies k == m by {
                    assert(seq![m][0] == m);
                }
            } else {
                lemma_creates_none(a);
                assert(s2.initialized_modes =~= s.initialized_modes + Seq::<ModeKind>::empty());
            }
        },
        _ => {
            lemma_creates_none(a);
            assert(s2.initialized_modes =~= s.initialized_modes + Seq::<ModeKind>::empty());
        },
    }
}

/// Over any sequence of messages, each mode is created at most once: the modes
/// that exist are those that existed before followed by those that the actions
/// created, none of them twice, and each created mode is one of the factories.
pub proof fn lemma_modes_created_once_over_runs(s: AppModelView, messages: Seq<AppMsg>)
    requires
        s.initialized_modes.no_duplicates(),
    ensures
        app_run(s, messages).0.initialized_modes == s.initialized_modes + created_modes(app_run(s, messages).1),
        app_run(s, messages).0.initialized_modes.no_duplicates(),
        app_run(s, messages).0.mode_factories == s.mode_factories,
        forall|k: ModeKind| #[trigger] created_modes(app_run(s, messages).1).contains(k) ==> s.mode_factories.contains(k),
    decreases messages.len(),
{
    if messages.len() > 0 {
        let prev = messages.drop_last();
        lemma_modes_created_once_over_runs(s, prev);
        let (s1, a1) = app_run(s, prev);
        let (s2, a2) = app_step(s1, messages.last());
        lemma_step_creates(s1, messages.last());
        lemma_created_modes_add(a1, a2);
        let c1 = created_modes(a1);
        let c2 = created_modes(a2);
        assert(s2.initialized_modes =~= s.initialized_modes + (c1 + c2));
        if c2.len() == 1 {
            let k = c2[0];
            assert(c2.contains(k));
            assert(s2.initialized_modes =~= s1.initialized_modes.push(k));
            assert forall|i: int, j: int|
                0 <= i < s2.initialized_modes.len() && 0 <= j < s2.initialized_modes.len() && i != j
                implies s2.initialized_modes[i] != s2.initialized_modes[j] by {
                if i == s1.initialized_modes.len() as int {
                    assert(s1.initialized_modes.contains(s2.initialized_modes[j]));
                } else if j == s1.initialized_modes.len() as int {
                    assert(s1.initialized_modes.contains(s2.initialized_modes[i]));
                }
            }
        } else {
            assert(s2.initialized_modes =~= s1.initialized_modes);
        }
        assert forall|k: ModeKind| #[trigger] created_modes(a1 + a2).contains(k) implies s.mode_factories.contains(k) by {
            let i = choose|i: int| 0 <= i < (c1 + c2).len() && (c1 + c2)[i] == k;
            if i < c1.len() {
                assert(c1.contains(k));
            } else {
                assert(c2.contains(k));
            }
        }
    }
}

/// Without a current mode, with the four searchable modes asked in their default
/// order, a text starting with `?` opens the help, `=` the calculator, `:` the
/// emoji picker, and a text starting with a letter the application launcher.
pub proof fn lemma_prefix_selects_mode(s: AppModelView, text: Seq<char>)
    requires
        s.current_mode is None,
        s.mode_factories == default_factories(),
        text.len() > 0,
    ensures
        starts_with(text, '?') ==> input_changed(s, text).0.current_mode == Some(ModeKind::Help),
        starts_with(text, '=') ==> input_changed(s, text).0.current_mode == Some(ModeKind::Calculator),
        starts_with(text, ':') ==> input_changed(s, text).0.current_mode == Some(ModeKind::Emojis),
        starts_alphabetic(text) ==> input_changed(s, text).0.current_mode == Some(ModeKind::AppLauncher),
{
    let f = default_factories();
    assert(f.drop_first() =~= seq![ModeKind::Calculator, ModeKind::Emojis, ModeKind::AppLauncher]);
    assert(f.drop_first().drop_first() =~= seq![ModeKind::Emojis, ModeKind::AppLauncher]);
    assert(f.drop_first().drop_first().drop_first() =~= seq![ModeKind::AppLauncher]);
    assert(f.drop_first().drop_first().drop_first().drop_first() =~= Seq::<ModeKind>::empty());
    assert(first_accepting(Seq::<ModeKind>::empty(), text) is None);
    reveal_with_fuel(first_accepting, 5);
}

/// In a new window without a subcommand, typing `:` creates the emoji picker,
/// activates it and hands it the text.
pub proof fn lemma_colon_opens_emoji_picker(output: OutputChoice)
    ensures
        input_changed(initial(None, output).0, seq![':']) == (
            AppModelView {
                mode_factories: default_factories(),
                initialized_modes: seq![ModeKind::Emojis],
                current_mode: Some(ModeKind::Emojis),
                has_command: false,
                output,
            },
            seq![
                ActionView::CreateMode(ModeKind::Emojis, seq![':']),
                ActionView::SendToMode(ModeKind::Emojis, ModeMsgView::Activate),
                ActionView::SendToMode(ModeKind::Emojis, ModeMsgView::SetQueryString(seq![':'])),
            ],
        ),
{
    let s = initial(None, output).0;
    lemma_prefix_selects_mode(s, seq![':']);
    lemma_first_accepting(s.mode_factories, seq![':']);
    assert(s.initialized_modes.push(ModeKind::Emojis) =~= seq![ModeKind::Emojis]);
    assert(!s.initialized_modes.contains(ModeKind::Emojis));
}

/// The options of the emoji picker: those of the `emoji` subcommand, else the
/// global `--notify`.
pub open spec fn emoji_args_of(args: Args) -> EmojiArgs {
    match args.command {
        Some(Command::Emoji(e)) => e,
        _ => EmojiArgs { notify: args.notify },
    }
}

fn first_accepting_factory(factories: &Vec<ModeKind>, text: &str) -> (r: Option<ModeKind>)
    ensures
        r == first_accepting(factories@, text@),
{
    let mut i: usize = 0;
    assert(factories@.skip(0) =~= factories@);
    while i < factories.len()
        invariant
            i <= factories.len(),
            first_accepting(factories@, text@) == first_accepting(factories@.skip(i as int), text@),
        decreases factories.len() - i,
    {
        assert(factories@.skip(i as int).drop_first() =~= factories@.skip(i + 1));
        if factories[i].should_switch_to_this_mode(text) {
            return Some(factories[i]);
        }
        i = i + 1;
    }
    None
}

fn contains_mode(modes: &Vec<ModeKind>, m: ModeKind) -> (b: bool)
    ensures
        b == modes@.contains(m),
{
    let mut i: usize = 0;
    while i < modes.len()
        invariant
            i <= modes.len(),
            forall|k: int| 0 <= k < i ==> modes@[k] != m,
        decreases modes.len() - i,
    {
        if modes[i] == m {
            return true;
        }
        i = i + 1;
    }
    false
}

impl AppModel {
    /// The window's first state and actions for the given options.
    pub fn init(args: &Args) -> (r: (AppModel, Vec<AppAction>))
        ensures
            (r.0@, actions_view(r.1@)) == initial(args.command, args.output),
    {
        let mut actions: Vec<AppAction> = Vec::new();
        actions.push(AppAction::SetPlaceholder(String::from_str("Type ? for help. Esc to quit.")));
        match &args.command {
            None => {
                let model = AppModel {
                    mode_factories: vec![
                        ModeKind::Help,
                        ModeKind::Calculator,
                        ModeKind::Emojis,
                        ModeKind::AppLauncher,
                    ],
                    initialized_modes: Vec::new(),
                    current_mode: None,
                    has_command: false,
                    output: args.output,
                };
                assert(model@.mode_factories =~= default_factories());
                assert(actions_view(actions@) =~= initial(args.command, args.output).1);
                (model, actions)
            },
            Some(command) => {
                let mode = match command {
                    Command::Emoji(_) => ModeKind::Emojis,
                    Command::Calc => ModeKind::Calculator,
                    Command::Dmenu(_) => ModeKind::Dmenu,
                };
                actions.push(AppAction::CreateMode(mode, String::new()));
                actions.push(AppAction::SetPlaceholder(String::from_str("Type to search")));
                actions.push(AppAction::SendToMode(mode, ModeMsg::Activate));
                actions.push(AppAction::RefreshInput);
                let model = AppModel {
                    mode_factories: Vec::new(),
                    initialized_modes: Vec::new(),
                    current_mode: Some(mode),
                    has_command: true,
                    output: args.output,
                };
                assert(model@.mode_factories =~= Seq::<ModeKind>::empty());
                assert(model@.initialized_modes =~= Seq::<ModeKind>::empty());
                assert(actions_view(actions@) =~= initial(args.command, args.output).1);
                (model, actions)
            },
        }
    }

    /// The options that the emoji picker gets.
    pub fn emoji_args(args: &Args) -> (e: EmojiArgs)
        ensures
            e == emoji_args_of(*args),
    {
        match &args.command {
            Some(Command::Emoji(e)) => *e,
            _ => EmojiArgs { notify: args.notify },
        }
    }

    /// The current mode.
    pub fn current_mode(&self) -> (m: Option<ModeKind>)
        ensures
            m == self@.current_mode,
    {
        self.current_mode
    }

    /// Handles a message and returns what the window does in answer. Launching an
    /// application or action and outputting a text end with closing the launcher.
    pub fn update(&mut self, message: AppMsg) -> (actions: Vec<AppAction>)
        requires
            message matches AppMsg::LaunchDesktopAction(a) ==> !(a.spec_kind() is DBusActivate),
        ensures
            (final(self)@, actions_view(actions@)) == app_step(old(self)@, message),
            match message {
                AppMsg::TextOutput { text, notify } => {
                    &&& actions@.len() == 2
                    &&& actions@[0] matches AppAction::Output(o) && outputs(old(self)@.output, text@, notify, o)
                },
                _ => true,
            },
    {
        let mut actions: Vec<AppAction> = Vec::new();
        match message {
            AppMsg::Quit => {
                actions.push(AppAction::Quit);
                assert(actions_view(actions@) =~= seq![ActionView::Quit]);
            },
            AppMsg::ActivateCurrent => {
                match self.current_mode {
                    Some(m) => {
                        actions.push(AppAction::SendToMode(m, ModeMsg::ActivateCurrent));
                    },
                    None => {},
                }
                assert(actions_view(actions@) =~= match self@.current_mode {
                    Some(m) => seq![ActionView::SendToMode(m, ModeMsgView::ActivateCurrent)],
                    None => Seq::<ActionView>::empty(),
                });
            },
            AppMsg::InputChanged(text) => {
                actions = self.input_changed(text);
            },
            AppMsg::LaunchDesktopEntry(entry) => {
                match launch_command(&entry) {
                    Some(c) => actions.push(AppAction::Launch(c)),
                    None => actions.push(AppAction::MissingExec(entry.appid.clone())),
                }
                actions.push(AppAction::Quit);
                assert(actions_view(actions@) =~= match launch_of(entry@) {
                    Some((line, name)) => seq![ActionView::Launch(line, name), ActionView::Quit],
                    None => seq![ActionView::MissingExec(entry@.appid), ActionView::Quit],
                });
            },
            AppMsg::LaunchDesktopAction(action) => {
                match action_launch_command(&action) {
                    Some(c) => actions.push(AppAction::Launch(c)),
                    None => actions.push(AppAction::MissingExec(action.entry().appid.clone())),
                }
                actions.push(AppAction::Quit);
                assert(actions_view(actions@) =~= match action_launch_of(action.spec_entry(), action.spec_kind()) {
                    Some((line, name)) => seq![ActionView::Launch(line, name), ActionView::Quit],
                    None => seq![ActionView::MissingExec(action.spec_entry().appid), ActionView::Quit],
                });
            },
            AppMsg::TextOutput { text, notify } => {
                let out = text_output(self.output, text.as_str(), notify);
                actions.push(AppAction::Output(out));
                actions.push(AppAction::Quit);
                assert(actions_view(actions@) =~= seq![ActionView::Output, ActionView::Quit]);
            },
        }
        actions
    }

    fn input_changed(&mut self, text: String) -> (actions: Vec<AppAction>)
        ensures
            (final(self)@, actions_view(actions@)) == input_changed(old(self)@, text@),
    {
        let mut actions: Vec<AppAction> = Vec::new();
        let ghost t = text@;
        if text.as_str().is_empty() && !self.has_command {
            match self.current_mode {
                Some(m) => {
                    actions.push(AppAction::SendToMode(m, ModeMsg::Deactivate));
                    self.current_mode = None;
                    assert(actions_view(actions@) =~= seq![ActionView::SendToMode(m, ModeMsgView::Deactivate)]);
                },
                None => {
                    assert(actions_view(actions@) =~= Seq::<ActionView>::empty());
                },
            }
            return actions;
        }
        if self.current_mode.is_none() {
            match first_accepting_factory(&self.mode_factories, text.as_str()) {
                Some(m) => {
                    if !contains_mode(&self.initialized_modes, m) {
                        actions.push(AppAction::CreateMode(m, text.clone()));
                        self.initialized_modes.push(m);
                    }
                    actions.push(AppAction::SendToMode(m, ModeMsg::Activate));
                    self.current_mode = Some(m);
                },
                None => {},
            }
        }
        let ghost switched = actions_view(actions@);
        match self.current_mode {
            Some(m) => {
                actions.push(AppAction::SendToMode(m, ModeMsg::SetQueryString(text)));
                assert(actions_view(actions@) =~= switched.push(ActionView::SendToMode(m, ModeMsgView::SetQueryString(t))));
            },
            None => {},
        }
        proof {
            let s = old(self)@;
            if s.current_mode is None {
                if let Some(m) = first_accepting(s.mode_factories, t) {
                    if s.initialized_modes.contains(m) {
                        assert(switched =~= seq![ActionView::SendToMode(m, ModeMsgView::Activate)]);
                    } else {
                        assert(switched =~= seq![ActionView::CreateMode(m, t), ActionView::SendToMode(m, ModeMsgView::Activate)]);
                    }
                } else {
                    assert(switched =~= Seq::<ActionView>::empty());
                }
            } else {
                assert(switched =~= Seq::<ActionView>::empty());
            }
        }
        actions
    }
}

} // verus!
