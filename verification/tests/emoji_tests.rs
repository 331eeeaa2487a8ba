use nemu::app::AppMsg;
use nemu::emoji::{
    all_groups, get_all_emojis, get_emoji_group_tooltip, get_groups, pick, EmojiArgs, EmojiGroup,
    EmojiSearchModel, EmojisModel, GROUP_COUNT,
};
use nemu::modes::ModeMsg;

#[test]
fn catalog_starts_with_grinning_face() {
    let all = get_all_emojis();
    assert!(all.len() > 1000);
    assert_eq!(all[0].emoji().text, "😀");
    assert_eq!(all[0].emoji().group, EmojiGroup::SmileysAndEmotion);
    assert_eq!(all[0].score(), 0);
    let rocket = all.iter().find(|e| e.emoji().text == "🚀").unwrap();
    assert!(rocket.emoji().shortcodes.iter().any(|s| s == "rocket"));
}

#[test]
fn groups_cover_the_catalog_in_order() {
    let all = get_all_emojis();
    let groups = get_groups(&all);
    assert_eq!(groups.len(), GROUP_COUNT);
    assert_eq!(groups.iter().map(|g| g.0).collect::<Vec<_>>(), all_groups());
    let total: usize = groups.iter().map(|g| g.1.len()).sum();
    assert_eq!(total, all.len());
    for (group, positions) in &groups {
        assert!(!positions.is_empty());
        assert!(positions.windows(2).all(|w| w[0] < w[1]));
        assert!(positions.iter().all(|&p| all[p].emoji().group == *group));
    }
    assert_eq!(all[groups[8].1[0]].emoji().text, "🏁");
}

#[test]
fn tooltips() {
    assert_eq!(get_emoji_group_tooltip(EmojiGroup::SmileysAndEmotion), "Smileys");
    assert_eq!(get_emoji_group_tooltip(EmojiGroup::FoodAndDrink), "Food & Drink");
    assert_eq!(get_emoji_group_tooltip(EmojiGroup::Flags), "Flags");
}

#[test]
fn search_finds_by_name_and_shortcode() {
    let mut search = EmojiSearchModel::new(get_all_emojis(), EmojiArgs { notify: true });
    assert!(search.results().is_empty());
    search.set_query_string(":rocket");
    let results = search.results();
    assert!(!results.is_empty());
    assert!(results.iter().any(|&i| search.emojis()[i].emoji().text == "🚀"));
    match search.activate_current() {
        Some(AppMsg::TextOutput { notify, .. }) => assert!(notify),
        _ => panic!("expected output"),
    }
    // the colon alone resets the search
    search.set_query_string(":");
    assert!(search.results().is_empty());
}

#[test]
fn picker_switches_between_tabs_and_search() {
    let mut model = EmojisModel::new("", EmojiArgs { notify: false }).unwrap();
    assert!(!model.has_search_string());
    assert_eq!(model.tab_label(0), "😀");
    assert_eq!(model.tab_label(8), "🏁");
    assert!(model.update(ModeMsg::SetQueryString(":".into())).is_none());
    assert!(!model.has_search_string());
    assert!(model.search().results().is_empty());
    assert!(model.update(ModeMsg::SetQueryString(":heart".into())).is_none());
    assert!(model.has_search_string());
    assert!(!model.search().results().is_empty());
    assert!(model.update(ModeMsg::ActivateCurrent).is_none());
    match model.pick_at(0) {
        AppMsg::TextOutput { text, notify } => {
            assert_eq!(text, "😀");
            assert!(!notify);
        }
        _ => panic!("expected output"),
    }
    let all = get_all_emojis();
    assert!(matches!(pick(&all[1], EmojiArgs { notify: true }), AppMsg::TextOutput { notify: true, .. }));
}

#[test]
fn leading_colon_is_not_searched() {
    let mut a = EmojiSearchModel::new(get_all_emojis(), EmojiArgs { notify: false });
    let mut b = EmojiSearchModel::new(get_all_emojis(), EmojiArgs { notify: false });
    a.set_query_string(":smile");
    b.set_query_string("smile");
    assert_eq!(a.results(), b.results());
    assert!(!a.results().is_empty());
}
