//! Installed applications, as read from their desktop entries, and the actions
//! that each of them offers.
use crate::text::{chars_of, starts_with, starts_with_char, string_of};
use vstd::prelude::*;

verus! {

/// An action of a desktop entry (`[Desktop Action <id>]`).
pub struct DesktopAction {
    /// The action's identifier, as listed in the entry's `Actions` key.
    pub id: String,
    /// Its localized `Name`, if any.
    pub name: Option<String>,
    /// Its `Exec` key, if any.
    pub command: Option<String>,
}

/// What the launcher reads of a desktop entry: localized values are already
/// resolved for the user's locales.
pub struct AppEntry {
    /// The application's id (the file name without `.desktop`).
    pub appid: String,
    /// The localized `Name`.
    pub name: Option<String>,
    /// The localized `Comment`.
    pub comment: Option<String>,
    /// The `Icon` key: an icon name or an absolute file path.
    pub icon: Option<String>,
    /// The `Exec` key.
    pub command: Option<String>,
    /// The localized `Keywords`, in order.
    pub keywords: Vec<String>,
    /// `Hidden=true`.
    pub hidden: bool,
    /// `NoDisplay=true`.
    pub no_display: bool,
    /// `Terminal=true`.
    pub terminal: bool,
    /// `DBusActivatable=true`.
    pub dbus_activatable: bool,
    /// The actions named in the `Actions` key, in order.
    pub actions: Vec<DesktopAction>,
}

/// The plain value of a [`DesktopAction`].
pub struct DesktopActionView {
    pub id: Seq<char>,
    pub name: Option<Seq<char>>,
    pub command: Option<Seq<char>>,
}

impl View for DesktopAction {
    type V = DesktopActionView;

    open spec fn view(&self) -> DesktopActionView {
        DesktopActionView {
            id: self.id@,
            name: self.name.deep_view(),
            command: self.command.deep_view(),
        }
    }
}

/// The plain value of an [`AppEntry`].
pub struct AppEntryView {
    pub appid: Seq<char>,
    pub name: Option<Seq<char>>,
    pub comment: Option<Seq<char>>,
    pub icon: Option<Seq<char>>,
    pub command: Option<Seq<char>>,
    pub keywords: Seq<Seq<char>>,
    pub hidden: bool,
    pub no_display: bool,
    pub terminal: bool,
    pub dbus_activatable: bool,
    pub actions: Seq<DesktopActionView>,
}

impl View for AppEntry {
    type V = AppEntryView;

    open spec fn view(&self) -> AppEntryView {
        AppEntryView {
            appid: self.appid@,
            name: self.name.deep_view(),
            comment: self.comment.deep_view(),
            icon: self.icon.deep_view(),
            command: self.command.deep_view(),
            keywords: self.keywords.deep_view(),
            hidden: self.hidden,
            no_display: self.no_display,
            terminal: self.terminal,
            dbus_activatable: self.dbus_activatable,
            actions: self.actions@.map_values(|a: DesktopAction| a@),
        }
    }
}

fn copy_optional(o: &Option<String>) -> (r: Option<String>)
    ensures
        r == *o,
{
    match o {
        Some(s) => Some(s.clone()),
        None => None,
    }
}

impl DesktopAction {
    /// An equal copy.
    pub fn duplicate(&self) -> (r: Self)
        ensures
            r@ == self@,
    {
        DesktopAction {
            id: self.id.clone(),
            name: copy_optional(&self.name),
            command: copy_optional(&self.command),
        }
    }
}

impl AppEntry {
    /// An equal copy.
    pub fn duplicate(&self) -> (r: Self)
        ensures
            r@ == self@,
    {
        let mut actions: Vec<DesktopAction> = Vec::new();
        let mut i: usize = 0;
        while i < self.actions.len()
            invariant
                i <= self.actions.len(),
                actions@.map_values(|a: DesktopAction| a@) == self.actions@.take(i as int).map_values(|a: DesktopAction| a@),
            decreases self.actions.len() - i,
        {
            let a = self.actions[i].duplicate();
            let ghost before = actions@;
            actions.push(a);
            assert(actions@.map_values(|a: DesktopAction| a@) =~= before.map_values(|a: DesktopAction| a@).push(a@));
            i = i + 1;
            assert(self.actions@.take(i as int).map_values(|a: DesktopAction| a@) =~= self.actions@.take(i - 1).map_values(|a: DesktopAction| a@).push(self.actions@[i - 1]@));
        }
        assert(self.actions@.take(i as int) =~= self.actions@);
        let keywords = self.keywords.clone();
        proof {
            assert(keywords.deep_view() =~= self.keywords.deep_view());
        }
        AppEntry {
            appid: self.appid.clone(),
            name: copy_optional(&self.name),
            comment: copy_optional(&self.comment),
            icon: copy_optional(&self.icon),
            command: copy_optional(&self.command),
            keywords,
            hidden: self.hidden,
            no_display: self.no_display,
            terminal: self.terminal,
            dbus_activatable: self.dbus_activatable,
            actions,
        }
    }

    /// The name shown for the application: its localized name, else its id.
    pub fn display_name(&self) -> (r: String)
        ensures
            r@ == match self.name {
                Some(n) => n@,
                None => self.appid@,
            },
    {
        match &self.name {
            Some(n) => n.clone(),
            None => self.appid.clone(),
        }
    }

    /// The description shown for the application: its comment, or nothing.
    pub fn description(&self) -> (r: String)
        ensures
            r@ == match self.comment {
                Some(c) => c@,
                None => Seq::<char>::empty(),
            },
    {
        match &self.comment {
            Some(c) => c.clone(),
            None => String::new(),
        }
    }

    /// The command line shown under the application's name: the one that launching
    /// it runs (its `Exec` without field codes), or nothing.
    pub fn command_line_label(&self) -> (r: String)
        ensures
            r@ == match self@.command {
                Some(e) => without_field_codes(e),
                None => Seq::<char>::empty(),
            },
            launch_of(self@) matches Some((line, _)) ==> r@ == line,
    {
        match &self.command {
            Some(e) => strip_field_codes(e.as_str()),
            None => String::new(),
        }
    }

    /// Where the application's icon comes from.
    pub fn icon_source(&self) -> (r: IconSource)
        ensures
            r == icon_source_of(self.icon),
    {
        match &self.icon {
            None => IconSource::Missing,
            Some(icon) => {
                if starts_with_char(icon.as_str(), '/') {
                    IconSource::File(icon.clone())
                } else {
                    IconSource::Themed(icon.clone())
                }
            },
        }
    }
}

/// How an icon is shown.
pub enum IconSource {
    /// No icon.
    Missing,
    /// An image file at an absolute path.
    File(String),
    /// An icon of the icon theme, by name.
    Themed(String),
}

/// An `Icon` value that is an absolute path names a file; any other names a themed
/// icon.
pub open spec fn icon_source_of(icon: Option<String>) -> IconSource {
    match icon {
        None => IconSource::Missing,
        Some(i) => if starts_with(i@, '/') {
            IconSource::File(i)
        } else {
            IconSource::Themed(i)
        },
    }
}

/// Entries that the launcher lists: neither hidden, nor marked not to be displayed,
/// nor meant to run in a terminal.
pub open spec fn launchable(e: AppEntry) -> bool {
    !e.hidden && !e.no_display && !e.terminal
}

/// The order that removing each entry that is not launchable by moving the last
/// entry into its place (`Vec::swap_remove`), from the front, leaves.
pub open spec fn swap_retain_launchable(s: Seq<AppEntry>, i: int) -> Seq<AppEntry>
    decreases s.len() - i,
{
    if i < 0 || i >= s.len() {
        s
    } else if !launchable(s[i]) {
        swap_retain_launchable(s.update(i, s.last()).drop_last(), i)
    } else {
        swap_retain_launchable(s, i + 1)
    }
}

proof fn lemma_swap_retain_keeps_launchable(s: Seq<AppEntry>, i: int)
    requires
        0 <= i <= s.len(),
        forall|k: int| 0 <= k < i ==> launchable(#[trigger] s[k]),
    ensures
        forall|k: int|
            0 <= k < swap_retain_launchable(s, i).len() ==> launchable(#[trigger] swap_retain_launchable(s, i)[k]),
        forall|e: AppEntry|
            launchable(e) ==> #[trigger] swap_retain_launchable(s, i).to_multiset().count(e)
                == s.to_multiset().count(e),
    decreases s.len() - i,
{
    if i < s.len() {
        if !launchable(s[i]) {
            let t = s.update(i, s.last()).drop_last();
            lemma_swap_remove_multiset(s, i);
            assert forall|k: int| 0 <= k < i implies launchable(#[trigger] t[k]) by {
                assert(t[k] == s[k]);
            }
            lemma_swap_retain_keeps_launchable(t, i);
            assert(swap_retain_launchable(s, i) == swap_retain_launchable(t, i));
            assert forall|e: AppEntry| launchable(e) implies #[trigger] swap_retain_launchable(s, i).to_multiset().count(e)
                == s.to_multiset().count(e) by {
                assert(e != s[i]);
                assert(t.to_multiset().count(e) == s.to_multiset().remove(s[i]).count(e));
                assert(s.to_multiset().remove(s[i]).count(e) == s.to_multiset().count(e));
            }
        } else {
            lemma_swap_retain_keeps_launchable(s, i + 1);
            assert(swap_retain_launchable(s, i) == swap_retain_launchable(s, i + 1));
        }
    } else {
        assert(swap_retain_launchable(s, i) == s);
    }
}

/// The launcher lists no entry that is hidden, marked not to be displayed, or meant
/// to run in a terminal, and keeps every other entry as often as it was given.
pub proof fn lemma_retained_entries_are_shown(apps: Seq<AppEntry>)
    ensures
        forall|k: int|
            0 <= k < swap_retain_launchable(apps, 0).len() ==> {
                &&& !(#[trigger] swap_retain_launchable(apps, 0)[k]).hidden
                &&& !swap_retain_launchable(apps, 0)[k].no_display
                &&& !swap_retain_launchable(apps, 0)[k].terminal
            },
        forall|e: AppEntry|
            (e.hidden || e.no_display || e.terminal) ==> #[trigger] swap_retain_launchable(apps, 0).to_multiset().count(e)
                == 0,
        forall|e: AppEntry|
            !e.hidden && !e.no_display && !e.terminal ==> #[trigger] swap_retain_launchable(apps, 0).to_multiset().count(e)
                == apps.to_multiset().count(e),
{
    broadcast use vstd::seq_lib::group_to_multiset_ensures;
    lemma_swap_retain_keeps_launchable(apps, 0);
    let r = swap_retain_launchable(apps, 0);
    assert forall|e: AppEntry| (e.hidden || e.no_display || e.terminal) implies #[trigger] r.to_multiset().count(e)
        == 0 by {
        if r.to_multiset().count(e) > 0 {
            assert(r.contains(e));
            let k = choose|k: int| 0 <= k < r.len() && r[k] == e;
            assert(launchable(r[k]));
        }
    }
}

proof fn lemma_swap_remove_multiset(s: Seq<AppEntry>, i: int)
    requires
        0 <= i < s.len(),
    ensures
        s.update(i, s.last()).drop_last().to_multiset() =~= s.to_multiset().remove(s[i]),
{
    broadcast use vstd::seq_lib::group_to_multiset_ensures;
    let u = s.update(i, s.last());
    let t = u.drop_last();
    vstd::seq_lib::to_multiset_update(s, i, s.last());
    assert(u =~= t.push(u.last()));
    assert(u.last() == s.last());
    assert(u.to_multiset() =~= t.to_multiset().insert(s.last()));
    assert forall|e: AppEntry| #[trigger] t.to_multiset().count(e) == s.to_multiset().remove(s[i]).count(e) by {
        assert(u.to_multiset().count(e) == t.to_multiset().insert(s.last()).count(e));
        assert(u.to_multiset().count(e) == s.to_multiset().insert(s.last()).remove(s[i]).count(e));
        assert(s.to_multiset().count(s[i]) > 0) by {
            assert(s.contains(s[i]));
        }
    }
}

/// Drops the entries that the launcher does not list. The order of the rest is the
/// one that removing each dropped entry with `Vec::swap_remove` gives.
pub fn retain_launchable(apps: Vec<AppEntry>) -> (r: Vec<AppEntry>)
    ensures
        r@ == swap_retain_launchable(apps@, 0),
        forall|k: int| 0 <= k < r.len() ==> launchable(#[trigger] r@[k]),
        forall|e: AppEntry|
            #[trigger] r@.to_multiset().count(e) == if launchable(e) {
                apps@.to_multiset().count(e)
            } else {
                0
            },
{
    broadcast use vstd::seq_lib::group_to_multiset_ensures;
    let mut apps = apps;
    let ghost orig = apps@;
    let mut i: usize = 0;
    assert(apps@.subrange(0, apps@.len() as int) =~= apps@);
    while i < apps.len()
        invariant
            i <= apps.len(),
            swap_retain_launchable(apps@, i as int) == swap_retain_launchable(orig, 0),
            forall|k: int| 0 <= k < i ==> launchable(#[trigger] apps@[k]),
            forall|e: AppEntry|
                launchable(e) ==> #[trigger] apps@.to_multiset().count(e) == orig.to_multiset().count(e),
            forall|e: AppEntry|
                !launchable(e) ==> #[trigger] apps@.to_multiset().count(e) <= orig.to_multiset().count(e),
            forall|e: AppEntry|
                !launchable(e) && #[trigger] apps@.to_multiset().count(e) > 0 ==> apps@.subrange(
                    i as int,
                    apps@.len() as int,
                ).contains(e),
        decreases apps.len() - i,
    {
        if apps[i].hidden || apps[i].no_display || apps[i].terminal {
            let ghost before = apps@;
            proof {
                lemma_swap_remove_multiset(before, i as int);
            }
            apps.swap_remove(i);
            assert forall|e: AppEntry|
                !launchable(e) && #[trigger] apps@.to_multiset().count(e) > 0 implies apps@.subrange(
                i as int,
                apps@.len() as int,
            ).contains(e) by {
                broadcast use vstd::seq_lib::group_to_multiset_ensures;
                assert(apps@.contains(e));
                let k = choose|k: int| 0 <= k < apps@.len() && apps@[k] == e;
                assert(k >= i);
                assert(apps@.subrange(i as int, apps@.len() as int)[k - i] == e);
            }
        } else {
            let ghost before = apps@;
            i = i + 1;
            assert forall|e: AppEntry|
                !launchable(e) && #[trigger] apps@.to_multiset().count(e) > 0 implies apps@.subrange(
                i as int,
                apps@.len() as int,
            ).contains(e) by {
                let sub = before.subrange(i - 1, before.len() as int);
                assert(sub.contains(e));
                let k = choose|k: int| 0 <= k < sub.len() && sub[k] == e;
                assert(k != 0);
                assert(apps@.subrange(i as int, apps@.len() as int)[k - 1] == e);
            }
        }
    }
    assert forall|e: AppEntry| #[trigger] apps@.to_multiset().count(e) == if launchable(e) {
        orig.to_multiset().count(e)
    } else {
        0
    } by {
        if !launchable(e) && apps@.to_multiset().count(e) > 0 {
            assert(apps@.subrange(i as int, apps@.len() as int).contains(e));
        }
    }
    apps
}

/// What choosing an application or one of its actions does.
pub enum DesktopEntryActionKind {
    /// Run the entry's command line.
    Launch,
    /// Activate the application over D-Bus.
    DBusActivate,
    /// Run a named action: its identifier and its command line.
    Named(String, String),
}

/// The plain value of a [`DesktopEntryActionKind`].
pub enum ActionKindView {
    Launch,
    DBusActivate,
    Named(Seq<char>, Seq<char>),
}

impl View for DesktopEntryActionKind {
    type V = ActionKindView;

    open spec fn view(&self) -> ActionKindView {
        match self {
            DesktopEntryActionKind::Launch => ActionKindView::Launch,
            DesktopEntryActionKind::DBusActivate => ActionKindView::DBusActivate,
            DesktopEntryActionKind::Named(id, command) => ActionKindView::Named(id@, command@),
        }
    }
}

impl DesktopEntryActionKind {
    /// An equal copy.
    pub fn duplicate(&self) -> (r: Self)
        ensures
            r@ == self@,
    {
        match self {
            DesktopEntryActionKind::Launch => DesktopEntryActionKind::Launch,
            DesktopEntryActionKind::DBusActivate => DesktopEntryActionKind::DBusActivate,
            DesktopEntryActionKind::Named(id, command) => DesktopEntryActionKind::Named(
                id.clone(),
                command.clone(),
            ),
        }
    }
}

/// The named actions of an entry that have a command line, in order.
pub open spec fn named_actions(actions: Seq<DesktopActionView>) -> Seq<ActionKindView>
    decreases actions.len(),
{
    if actions.len() == 0 {
        Seq::empty()
    } else {
        let prev = named_actions(actions.drop_last());
        match actions.last().command {
            Some(command) => prev.push(ActionKindView::Named(actions.last().id, command)),
            None => prev,
        }
    }
}

/// The actions offered for an entry: first launching it (over D-Bus where the entry
/// asks for that), then each named action that has a command line.
pub open spec fn action_kinds(e: AppEntryView) -> Seq<ActionKindView> {
    seq![
        if e.dbus_activatable {
            ActionKindView::DBusActivate
        } else {
            ActionKindView::Launch
        },
    ] + named_actions(e.actions)
}

/// An application in the launcher's list, with the score of the current query.
pub struct DesktopEntryObject {
    entry: AppEntry,
    score: i64,
}

/// An action of an application in the launcher's details pane.
pub struct DesktopEntryActionObject {
    entry: AppEntry,
    kind: DesktopEntryActionKind,
}

impl DesktopEntryObject {
    /// The entry this object shows.
    pub closed spec fn spec_entry(&self) -> AppEntryView {
        self.entry@
    }

    /// Its current score.
    pub closed spec fn spec_score(&self) -> i64 {
        self.score
    }

    /// A list item for an entry, with score 0.
    pub fn new(entry: AppEntry) -> (o: Self)
        ensures
            o.spec_entry() == entry@,
            o.spec_score() == 0,
    {
        DesktopEntryObject { entry, score: 0 }
    }

    pub fn entry(&self) -> (e: &AppEntry)
        ensures
            e@ == self.spec_entry(),
    {
        &self.entry
    }

    pub fn score(&self) -> (s: i64)
        ensures
            s == self.spec_score(),
    {
        self.score
    }

    pub fn set_score(&mut self, score: i64)
        ensures
            final(self).spec_score() == score,
            final(self).spec_entry() == old(self).spec_entry(),
    {
        self.score = score;
    }

    /// The actions offered for this application, in the order of [`action_kinds`].
    pub fn actions(&self) -> (r: Vec<DesktopEntryActionObject>)
        ensures
            r.len() == action_kinds(self.spec_entry()).len(),
            forall|k: int|
                0 <= k < r.len() ==> (#[trigger] r@[k]).spec_entry() == self.spec_entry()
                    && r@[k].spec_kind() == action_kinds(self.spec_entry())[k],
    {
        let ghost kinds = action_kinds(self.entry@);
        let ghost acts = self.entry@.actions;
        let first = if self.entry.dbus_activatable {
            DesktopEntryActionKind::DBusActivate
        } else {
            DesktopEntryActionKind::Launch
        };
        let mut r: Vec<DesktopEntryActionObject> = Vec::new();
        r.push(DesktopEntryActionObject { entry: self.entry.duplicate(), kind: first });
        let mut i: usize = 0;
        while i < self.entry.actions.len()
            invariant
                i <= self.entry.actions.len(),
                kinds == action_kinds(self.entry@),
                acts == self.entry@.actions,
                r.len() == 1 + named_actions(acts.take(i as int)).len(),
                forall|k: int|
                    0 <= k < r.len() ==> (#[trigger] r@[k]).entry@ == self.entry@ && r@[k].kind@ == (
                    seq![kinds[0]] + named_actions(acts.take(i as int)))[k],
            decreases self.entry.actions.len() - i,
        {
            let ghost prev_named = named_actions(acts.take(i as int));
            assert(acts.take(i + 1).drop_last() =~= acts.take(i as int));
            assert(acts.take(i + 1).last() == self.entry.actions@[i as int]@);
            let action = &self.entry.actions[i];
            match &action.command {
                Some(command) => {
                    let kind = DesktopEntryActionKind::Named(action.id.clone(), command.clone());
                    let ghost kv = kind@;
                    r.push(DesktopEntryActionObject { entry: self.entry.duplicate(), kind });
                    assert(seq![kinds[0]] + named_actions(acts.take(i + 1)) =~= (seq![kinds[0]]
                        + prev_named).push(kv));
                },
                None => {
                    assert(named_actions(acts.take(i + 1)) == prev_named);
                },
            }
            i = i + 1;
        }
        assert(acts.take(i as int) =~= acts);
        r
    }
}

impl DesktopEntryActionObject {
    /// The entry whose action this is.
    pub closed spec fn spec_entry(&self) -> AppEntryView {
        self.entry@
    }

    /// What the action does.
    pub closed spec fn spec_kind(&self) -> ActionKindView {
        self.kind@
    }

    pub fn entry(&self) -> (e: &AppEntry)
        ensures
            e@ == self.spec_entry(),
    {
        &self.entry
    }

    pub fn kind(&self) -> (k: DesktopEntryActionKind)
        ensures
            k@ == self.spec_kind(),
    {
        self.kind.duplicate()
    }

    /// The label shown for the action: "Launch", "Activate", or the localized name
    /// of the named action (its identifier where it has none).
    pub fn label(&self) -> (r: String)
        ensures
            r@ == action_label(self.spec_entry(), self.spec_kind()),
    {
        match &self.kind {
            DesktopEntryActionKind::Launch => String::from_str("Launch"),
            DesktopEntryActionKind::DBusActivate => String::from_str("Activate"),
            DesktopEntryActionKind::Named(id, _) => {
                let actions = &self.entry.actions;
                let ghost acts = self.entry@.actions;
                let mut i: usize = 0;
                assert(acts.skip(0) =~= acts);
                while i < actions.len()
                    invariant
                        i <= actions.len(),
                        acts == actions@.map_values(|a: DesktopAction| a@),
                        first_action_name(acts, id@) == first_action_name(acts.skip(i as int), id@),
                        action_label(self.spec_entry(), self.spec_kind()) == match first_action_name(
                            acts,
                            id@,
                        ) {
                            Some(n) => n,
                            None => id@,
                        },
                    decreases actions.len() - i,
                {
                    assert(acts.skip(i as int).drop_first() =~= acts.skip(i + 1));
                    assert(acts.skip(i as int)[0] == actions@[i as int]@);
                    if actions[i].id == *id {
                        assert(first_action_name(acts.skip(i as int), id@) == actions@[i as int]@.name);
                        match &actions[i].name {
                            Some(n) => {
                                return n.clone();
                            },
                            None => {
                                return id.clone();
                            },
                        }
                    }
                    i = i + 1;
                }
                id.clone()
            },
        }
    }
}

/// The name of the first action with identifier `id`, if it has one.
pub open spec fn first_action_name(actions: Seq<DesktopActionView>, id: Seq<char>) -> Option<
    Seq<char>,
>
    decreases actions.len(),
{
    if actions.len() == 0 {
        None
    } else if actions[0].id == id {
        actions[0].name
    } else {
        first_action_name(actions.drop_first(), id)
    }
}

/// The label of an action of an entry.
pub open spec fn action_label(e: AppEntryView, kind: ActionKindView) -> Seq<char> {
    match kind {
        ActionKindView::Launch => "Launch"@,
        ActionKindView::DBusActivate => "Activate"@,
        ActionKindView::Named(id, _) => match first_action_name(e.actions, id) {
            Some(n) => n,
            None => id,
        },
    }
}

/// The list of all launchable applications, each with score 0.
pub fn get_all_apps(entries: Vec<AppEntry>) -> (r: Vec<DesktopEntryObject>)
    ensures
        r.len() == entries.len(),
        forall|k: int|
            0 <= k < r.len() ==> (#[trigger] r@[k]).spec_entry() == entries@[k]@
                && r@[k].spec_score() == 0,
{
    let ghost orig = entries@;
    let mut r: Vec<DesktopEntryObject> = Vec::new();
    for e in it: entries
        invariant
            it.seq() == orig,
            r.len() == it.index(),
            forall|k: int|
                0 <= k < r.len() ==> (#[trigger] r@[k]).spec_entry() == orig[k]@ && r@[k].spec_score()
                    == 0,
    {
        r.push(DesktopEntryObject::new(e));
    }
    r
}

/// A code of the `Exec` key that stands for a value the launcher fills in
/// (`%f %F %u %U %i %c %k`, and the deprecated `%d %D %n %N %v %m`).
pub open spec fn is_field_code(c: char) -> bool {
    c == 'f' || c == 'F' || c == 'u' || c == 'U' || c == 'i' || c == 'c' || c == 'k'
        || c == 'd' || c == 'D' || c == 'n' || c == 'N' || c == 'v' || c == 'm'
}

/// An `Exec` value without its field codes: `%%` stands for `%`, a field code is
/// dropped, and every other character is kept.
pub open spec fn without_field_codes(s: Seq<char>) -> Seq<char>
    decreases s.len(),
{
    if s.len() >= 2 && s[0] == '%' && s[1] == '%' {
        seq!['%'] + without_field_codes(s.skip(2))
    } else if s.len() >= 2 && s[0] == '%' && is_field_code(s[1]) {
        without_field_codes(s.skip(2))
    } else if s.len() == 0 {
        Seq::empty()
    } else {
        seq![s[0]] + without_field_codes(s.skip(1))
    }
}

fn field_code(c: char) -> (b: bool)
    ensures
        b == is_field_code(c),
{
    c == 'f' || c == 'F' || c == 'u' || c == 'U' || c == 'i' || c == 'c' || c == 'k' || c == 'd'
        || c == 'D' || c == 'n' || c == 'N' || c == 'v' || c == 'm'
}

/// Turns an `Exec` value into the command line that is run.
pub fn strip_field_codes(line: &str) -> (r: String)
    ensures
        r@ == without_field_codes(line@),
{
    let cs = chars_of(line);
    let mut out: Vec<char> = Vec::new();
    let mut i: usize = 0;
    assert(line@.skip(0) =~= line@);
    assert(out@ + without_field_codes(line@) =~= without_field_codes(line@));
    while i < cs.len()
        invariant
            cs@ == line@,
            i <= cs.len(),
            without_field_codes(line@) == out@ + without_field_codes(line@.skip(i as int)),
        decreases cs.len() - i,
    {
        let ghost rest = line@.skip(i as int);
        if i + 1 < cs.len() && cs[i] == '%' && cs[i + 1] == '%' {
            out.push('%');
            assert(rest.skip(2) =~= line@.skip(i + 2));
            i = i + 2;
        } else if i + 1 < cs.len() && cs[i] == '%' && field_code(cs[i + 1]) {
            assert(rest.skip(2) =~= line@.skip(i + 2));
            i = i + 2;
        } else {
            out.push(cs[i]);
            assert(rest.skip(1) =~= line@.skip(i + 1));
            i = i + 1;
        }
    }
    assert(line@.skip(i as int) =~= Seq::<char>::empty());
    assert(out@ + Seq::<char>::empty() =~= out@);
    string_of(&out)
}

/// A command line without `%` is run as it is written.
pub proof fn lemma_strip_without_percent(s: Seq<char>)
    requires
        !s.contains('%'),
    ensures
        without_field_codes(s) == s,
    decreases s.len(),
{
    if s.len() > 0 {
        assert(s[0] != '%');
        assert forall|k: int| 0 <= k < s.skip(1).len() implies s.skip(1)[k] != '%' by {
            assert(s.skip(1)[k] == s[k + 1]);
        }
        lemma_strip_without_percent(s.skip(1));
        assert(seq![s[0]] + s.skip(1) =~= s);
    }
}

/// What the window starts to launch an application.
pub struct LaunchCommand {
    /// The command line, without field codes.
    pub command_line: String,
    /// The application's localized name, if any.
    pub name: Option<String>,
}

/// The command that launching `entry` runs and the name it is given: none where the
/// entry has no `Exec`.
pub open spec fn launch_of(entry: AppEntryView) -> Option<(Seq<char>, Option<Seq<char>>)> {
    match entry.command {
        Some(command) => Some((without_field_codes(command), entry.name)),
        None => None,
    }
}

/// The command that running `kind` for `entry` runs.
pub open spec fn action_launch_of(entry: AppEntryView, kind: ActionKindView) -> Option<
    (Seq<char>, Option<Seq<char>>),
> {
    match kind {
        ActionKindView::Named(_, command) => Some((without_field_codes(command), entry.name)),
        _ => launch_of(entry),
    }
}

/// The command line shown for an application is the one that launching it runs,
/// where its `Exec` holds no `%`.
pub proof fn lemma_shown_command_is_run(e: AppEntryView)
    requires
        e.command matches Some(c) && !c.contains('%'),
    ensures
        launch_of(e) matches Some((line, _)) && line == e.command->0,
{
    lemma_strip_without_percent(e.command->0);
}

/// The command that launches an application; `None` where its entry has no `Exec`.
pub fn launch_command(entry: &AppEntry) -> (r: Option<LaunchCommand>)
    ensures
        match r {
            Some(c) => launch_of(entry@) == Some((c.command_line@, c.name.deep_view())),
            None => launch_of(entry@) is None,
        },
{
    match &entry.command {
        None => None,
        Some(command) => Some(
            LaunchCommand {
                command_line: strip_field_codes(command.as_str()),
                name: copy_optional(&entry.name),
            },
        ),
    }
}

/// The command that an action runs. Activation over D-Bus is not supported.
pub fn action_launch_command(action: &DesktopEntryActionObject) -> (r: Option<LaunchCommand>)
    requires
        !(action.spec_kind() is DBusActivate),
    ensures
        match r {
            Some(c) => action_launch_of(action.spec_entry(), action.spec_kind()) == Some(
                (c.command_line@, c.name.deep_view()),
            ),
            None => action_launch_of(action.spec_entry(), action.spec_kind()) is None,
        },
{
    match &action.kind {
        DesktopEntryActionKind::Named(_, command) => Some(
            LaunchCommand {
                command_line: strip_field_codes(command.as_str()),
                name: copy_optional(&action.entry.name),
            },
        ),
        _ => launch_command(&action.entry),
    }
}

} // verus!
