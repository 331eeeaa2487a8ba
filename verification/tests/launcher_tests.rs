use nemu::app_launcher::{calculate_score, launcher_matcher, AppLauncherModel, EXACT_NAME_BONUS};
use nemu::desktop_entry::{
    action_launch_command, get_all_apps, launch_command, retain_launchable, AppEntry,
    DesktopAction, DesktopEntryActionKind, DesktopEntryObject, IconSource,
};
use nemu::modes::ModeMsg;
use nemu::app::AppMsg;
use nemu::ranking::rank_by_score;

fn entry(appid: &str, name: Option<&str>, command: Option<&str>) -> AppEntry {
    AppEntry {
        appid: appid.to_string(),
        name: name.map(str::to_string),
        comment: None,
        icon: None,
        command: command.map(str::to_string),
        keywords: Vec::new(),
        hidden: false,
        no_display: false,
        terminal: false,
        dbus_activatable: false,
        actions: Vec::new(),
    }
}

#[test]
fn ranking_is_stable_and_drops_non_positive() {
    assert_eq!(rank_by_score(&vec![3, 0, 5, 3, -1]), vec![2, 0, 3]);
    assert_eq!(rank_by_score(&vec![]), Vec::<usize>::new());
    assert_eq!(rank_by_score(&vec![1, 1, 1]), vec![0, 1, 2]);
}

#[test]
fn entry_without_name_scores_minus_one() {
    let m = launcher_matcher();
    assert_eq!(calculate_score(&entry("org.x", None, None), "x", &m), -1);
}

#[test]
fn exact_name_gets_bonus() {
    let m = launcher_matcher();
    let s = calculate_score(&entry("org.mozilla.firefox", Some("Firefox"), None), "fIREFOX", &m);
    assert!(s >= EXACT_NAME_BONUS);
    assert_eq!(s, EXACT_NAME_BONUS);
}

#[test]
fn fuzzy_scores_rank_better_matches_first() {
    let m = launcher_matcher();
    let a = calculate_score(&entry("a", Some("Files"), None), "fil", &m);
    let b = calculate_score(&entry("b", Some("Calculator"), None), "fil", &m);
    assert!(a > 0);
    assert_eq!(b, 0);
    let mut kw = entry("c", Some("Terminal"), None);
    kw.keywords = vec!["shell".to_string(), "console".to_string()];
    assert!(calculate_score(&kw, "shell", &m) > 0);
}

#[test]
fn launcher_lists_matches_by_score() {
    let apps = vec![
        entry("org.gnome.Calculator", Some("Calculator"), Some("gnome-calculator")),
        entry("firefox", Some("Firefox"), Some("firefox %u")),
        entry("nameless", None, Some("x")),
    ];
    let mut model = AppLauncherModel::new(apps, "");
    assert_eq!(model.results(), Vec::<usize>::new());
    assert!(model.activate_current().is_none());
    let out = model.update(ModeMsg::SetQueryString("firefox".to_string()));
    assert!(out.is_none());
    assert_eq!(model.results(), vec![1]);
    match model.update(ModeMsg::ActivateCurrent) {
        Some(AppMsg::LaunchDesktopEntry(e)) => assert_eq!(e.appid, "firefox"),
        _ => panic!("expected a launch"),
    }
    model.update(ModeMsg::SetQueryString("zzzz".to_string()));
    assert!(model.activate_current().is_none());
}

#[test]
fn hidden_and_terminal_entries_are_dropped() {
    let mut hidden = entry("h", Some("H"), None);
    hidden.hidden = true;
    let mut term = entry("t", Some("T"), None);
    term.terminal = true;
    let apps = vec![hidden, entry("a", Some("A"), None), term, entry("b", Some("B"), None)];
    let kept: Vec<String> = retain_launchable(apps).into_iter().map(|e| e.appid).collect();
    // swap_remove moves the last entry into the removed one's place
    assert_eq!(kept, vec!["b".to_string(), "a".to_string()]);
}

#[test]
fn actions_start_with_launch_then_named() {
    let mut e = entry("app", Some("App"), Some("app %U"));
    e.actions = vec![
        DesktopAction { id: "new-window".into(), name: Some("New Window".into()), command: Some("app --new".into()) },
        DesktopAction { id: "broken".into(), name: None, command: None },
        DesktopAction { id: "private".into(), name: None, command: Some("app --private %u".into()) },
    ];
    let obj = DesktopEntryObject::new(e);
    let actions = obj.actions();
    assert_eq!(actions.len(), 3);
    assert!(matches!(actions[0].kind(), DesktopEntryActionKind::Launch));
    assert_eq!(actions[0].label(), "Launch");
    assert_eq!(actions[1].label(), "New Window");
    assert_eq!(actions[2].label(), "private");
    match actions[2].kind() {
        DesktopEntryActionKind::Named(id, cmd) => {
            assert_eq!(id, "private");
            assert_eq!(cmd, "app --private %u");
        }
        _ => panic!("expected a named action"),
    }
    let launch = action_launch_command(&actions[2]).unwrap();
    assert_eq!(launch.command_line, "app --private ");
    assert_eq!(launch.name.as_deref(), Some("App"));
    let launch = action_launch_command(&actions[0]).unwrap();
    assert_eq!(launch.command_line, "app ");
}

#[test]
fn dbus_activatable_entries_offer_activation() {
    let mut e = entry("app", None, None);
    e.dbus_activatable = true;
    let actions = DesktopEntryObject::new(e).actions();
    assert_eq!(actions.len(), 1);
    assert!(matches!(actions[0].kind(), DesktopEntryActionKind::DBusActivate));
    assert_eq!(actions[0].label(), "Activate");
}

#[test]
fn entry_without_exec_cannot_launch() {
    assert!(launch_command(&entry("x", Some("X"), None)).is_none());
}

#[test]
fn display_helpers() {
    let mut e = entry("org.app", None, None);
    assert_eq!(e.display_name(), "org.app");
    assert_eq!(e.description(), "");
    assert_eq!(e.command_line_label(), "");
    let shown = entry("firefox", Some("Firefox"), Some("firefox %u"));
    assert_eq!(shown.command_line_label(), "firefox ");
    assert_eq!(launch_command(&shown).unwrap().command_line, shown.command_line_label());
    assert!(matches!(e.icon_source(), IconSource::Missing));
    e.icon = Some("/usr/share/icons/app.png".into());
    assert!(matches!(e.icon_source(), IconSource::File(p) if p == "/usr/share/icons/app.png"));
    e.icon = Some("firefox".into());
    assert!(matches!(e.icon_source(), IconSource::Themed(n) if n == "firefox"));
}

#[test]
fn all_apps_start_with_score_zero() {
    let apps = get_all_apps(vec![entry("a", None, None), entry("b", None, None)]);
    assert_eq!(apps.len(), 2);
    assert_eq!(apps[1].entry().appid, "b");
    assert_eq!(apps[0].score(), 0);
    let mut first = get_all_apps(vec![entry("a", None, None)]).pop().unwrap();
    first.set_score(7);
    assert_eq!(first.score(), 7);
}
