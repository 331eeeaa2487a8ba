use nemu::app::{AppAction, AppModel, AppMsg, Args, Command};
use nemu::config::{config_home, join_path, nemu_file, Config};
use nemu::dmenu::{DmenuArgs, DmenuModel};
use nemu::emoji::EmojiArgs;
use nemu::modes::{
    AppLauncherModeFactory, CalculatorModeFactory, DmenuModeFactory, HelpModeFactory, ModeKind, ModeMsg,
};
use nemu::output::{text_output, OutputAction, OutputChoice};

#[test]
fn prefixes_choose_modes() {
    assert!(AppLauncherModeFactory.should_switch_to_this_mode("firefox"));
    assert!(AppLauncherModeFactory.should_switch_to_this_mode("émacs"));
    assert!(!AppLauncherModeFactory.should_switch_to_this_mode("1firefox"));
    assert!(!AppLauncherModeFactory.should_switch_to_this_mode(""));
    for prefixed in ["?", "=1", ":smile"] {
        assert!(!AppLauncherModeFactory.should_switch_to_this_mode(prefixed));
    }
    assert!(HelpModeFactory.should_switch_to_this_mode("?"));
    assert!(CalculatorModeFactory.should_switch_to_this_mode("=1+1"));
    assert!(ModeKind::Emojis.should_switch_to_this_mode(":smile"));
    assert!(!DmenuModeFactory(DmenuArgs { nul_delimiter: false, with_nth: None }, vec![]).should_switch_to_this_mode("a"));
    assert_eq!(HelpModeFactory.name(), "help");
    assert_eq!(ModeKind::Emojis.name(), "emojis");
    assert_eq!(AppLauncherModeFactory.name(), "app_launcher");
}

fn args(command: Option<Command>) -> Args {
    Args { command, output: OutputChoice::Stdout, notify: false }
}

#[test]
fn search_text_switches_and_leaves_modes() {
    let (mut model, actions) = AppModel::init(&args(None));
    assert_eq!(actions.len(), 1);
    assert!(matches!(&actions[0], AppAction::SetPlaceholder(p) if p == "Type ? for help. Esc to quit."));
    let actions = model.update(AppMsg::InputChanged("fire".into()));
    assert_eq!(actions.len(), 3);
    assert!(matches!(&actions[0], AppAction::CreateMode(ModeKind::AppLauncher, q) if q == "fire"));
    assert!(matches!(&actions[1], AppAction::SendToMode(ModeKind::AppLauncher, ModeMsg::Activate)));
    assert!(matches!(&actions[2], AppAction::SendToMode(ModeKind::AppLauncher, ModeMsg::SetQueryString(q)) if q == "fire"));
    let actions = model.update(AppMsg::InputChanged("".into()));
    assert_eq!(actions.len(), 1);
    assert!(matches!(&actions[0], AppAction::SendToMode(ModeKind::AppLauncher, ModeMsg::Deactivate)));
    assert_eq!(model.current_mode(), None);
    // the mode exists now: it is only activated
    let actions = model.update(AppMsg::InputChanged("f".into()));
    assert_eq!(actions.len(), 2);
    assert!(matches!(&actions[0], AppAction::SendToMode(ModeKind::AppLauncher, ModeMsg::Activate)));
    // while a mode is current, text goes to it
    let actions = model.update(AppMsg::InputChanged(":x".into()));
    assert_eq!(actions.len(), 1);
    assert_eq!(model.current_mode(), Some(ModeKind::AppLauncher));
    let actions = model.update(AppMsg::ActivateCurrent);
    assert!(matches!(&actions[0], AppAction::SendToMode(ModeKind::AppLauncher, ModeMsg::ActivateCurrent)));
}

#[test]
fn text_that_no_mode_takes_changes_nothing() {
    let (mut model, _) = AppModel::init(&args(None));
    let actions = model.update(AppMsg::InputChanged("123".into()));
    assert!(actions.is_empty());
    assert_eq!(model.current_mode(), None);
    let actions = model.update(AppMsg::ActivateCurrent);
    assert!(actions.is_empty());
}

#[test]
fn subcommand_opens_its_mode() {
    let (mut model, actions) = AppModel::init(&args(Some(Command::Calc)));
    assert_eq!(actions.len(), 5);
    assert!(matches!(&actions[0], AppAction::SetPlaceholder(p) if p == "Type ? for help. Esc to quit."));
    assert!(matches!(&actions[1], AppAction::CreateMode(ModeKind::Calculator, q) if q.is_empty()));
    assert!(matches!(&actions[2], AppAction::SetPlaceholder(p) if p == "Type to search"));
    assert!(matches!(&actions[3], AppAction::SendToMode(ModeKind::Calculator, ModeMsg::Activate)));
    assert!(matches!(&actions[4], AppAction::RefreshInput));
    // with a subcommand an empty text is handed on, not leaving the mode
    let actions = model.update(AppMsg::InputChanged("".into()));
    assert_eq!(actions.len(), 1);
    assert!(matches!(&actions[0], AppAction::SendToMode(ModeKind::Calculator, ModeMsg::SetQueryString(q)) if q.is_empty()));
    let emoji = AppModel::emoji_args(&Args { command: Some(Command::Emoji(EmojiArgs { notify: true })), output: OutputChoice::Stdout, notify: false });
    assert!(emoji.notify);
    assert!(AppModel::emoji_args(&Args { command: None, output: OutputChoice::Stdout, notify: true }).notify);
}

#[test]
fn outputs_end_the_launcher() {
    let (mut model, _) = AppModel::init(&Args { command: None, output: OutputChoice::Clipboard, notify: false });
    let actions = model.update(AppMsg::TextOutput { text: "😀".into(), notify: true });
    assert_eq!(actions.len(), 2);
    match &actions[0] {
        AppAction::Output(OutputAction::Clipboard { text, notification }) => {
            assert_eq!(text, "😀");
            assert_eq!(notification.as_deref(), Some("Copied to clipboard: 😀"));
        }
        _ => panic!("expected clipboard output"),
    }
    assert!(matches!(&actions[1], AppAction::Quit));
    let actions = model.update(AppMsg::Quit);
    assert!(matches!(&actions[0], AppAction::Quit));
}

#[test]
fn output_choices() {
    assert!(matches!(text_output(OutputChoice::Stdout, "x", true), OutputAction::Stdout(t) if t == "x"));
    assert!(matches!(text_output(OutputChoice::Stderr, "x", false), OutputAction::Stderr(t) if t == "x"));
    assert!(matches!(text_output(OutputChoice::Clipboard, "x", false), OutputAction::Clipboard { notification: None, .. }));
    assert_eq!(OutputChoice::default(), OutputChoice::Stdout);
}

#[test]
fn dmenu_reads_and_picks() {
    let lines = DmenuArgs { nul_delimiter: false, with_nth: None }.read_strings_from_input("alpha\nbeta\ngamma\n");
    assert_eq!(lines, vec!["alpha", "beta", "gamma"]);
    let nul = DmenuArgs { nul_delimiter: true, with_nth: None }.read_strings_from_input("a\0b");
    assert_eq!(nul, vec!["a", "b"]);
    let nth = DmenuArgs { nul_delimiter: false, with_nth: Some(1) }.read_strings_from_input("1\tone\n2\n");
    assert_eq!(nth, vec!["one", "2"]);

    let mut model = DmenuModel::new(lines);
    assert_eq!(model.results(), vec![0, 1, 2]);
    match model.update(ModeMsg::ActivateCurrent) {
        Some(AppMsg::TextOutput { text, notify }) => {
            assert_eq!(text, "alpha");
            assert!(!notify);
        }
        _ => panic!("expected output"),
    }
    assert!(model.update(ModeMsg::SetQueryString("gam".into())).is_none());
    assert_eq!(model.results(), vec![2]);
    match model.update(ModeMsg::ActivateCurrent) {
        Some(AppMsg::TextOutput { text, .. }) => assert_eq!(text, "gamma"),
        _ => panic!("expected output"),
    }
    model.update(ModeMsg::SetQueryString("xyz".into()));
    assert!(model.results().is_empty());
    assert!(model.update(ModeMsg::ActivateCurrent).is_none());
    model.update(ModeMsg::SetQueryString("".into()));
    assert_eq!(model.results(), vec![0, 1, 2]);
}

#[test]
fn config_paths() {
    assert_eq!(join_path("/home/u", ".config"), "/home/u/.config");
    assert_eq!(join_path("/home/u/", ".config"), "/home/u/.config");
    assert_eq!(join_path("", "x"), "x");
    assert_eq!(join_path("/a", "/b"), "/b");
    assert_eq!(config_home(Some("/x".into()), Some("/h".into())).as_deref(), Some("/x"));
    assert_eq!(config_home(None, Some("/h".into())).as_deref(), Some("/h/.config"));
    assert_eq!(config_home(None, None), None);
    assert_eq!(nemu_file("/h/.config", "config.toml"), "/h/.config/nemu/config.toml");
    assert!(!Config::default().light);
    assert!(Config::default().prefer_dark_theme());
}

#[test]
fn prefix_characters_open_their_modes() {
    let cases = [(":", ModeKind::Emojis), ("?", ModeKind::Help), ("=1+1", ModeKind::Calculator), ("fire", ModeKind::AppLauncher)];
    for (text, kind) in cases {
        let (mut model, _) = AppModel::init(&args(None));
        let actions = model.update(AppMsg::InputChanged(text.into()));
        assert_eq!(model.current_mode(), Some(kind));
        assert_eq!(actions.len(), 3);
        assert!(matches!(&actions[0], AppAction::CreateMode(k, q) if *k == kind && q == text));
        assert!(matches!(&actions[2], AppAction::SendToMode(k, ModeMsg::SetQueryString(q)) if *k == kind && q == text));
    }
}

#[test]
fn modes_are_created_once() {
    let (mut model, _) = AppModel::init(&args(None));
    let mut created = 0;
    for text in [":a", "", ":b", "", ":", "", "x", "", ":c"] {
        for action in model.update(AppMsg::InputChanged(text.into())) {
            if matches!(action, AppAction::CreateMode(..)) {
                created += 1;
            }
        }
    }
    assert_eq!(created, 2);
    assert_eq!(model.current_mode(), Some(ModeKind::Emojis));
}
