//! The emoji picker: the catalog of the `emojis` crate, grouped into tabs, and a
//! fuzzy search over names and shortcodes.
use crate::app::AppMsg;
use crate::app_launcher::{best_fuzzy_match, best_match, lemma_best_match_bounds, score_or};
use crate::fuzzy::{skim_fuzzy_match, Matcher};
use crate::modes::ModeMsg;
use crate::ranking::{is_ranking, rank_by_score, ranking_of};
use crate::text::{starts_with, starts_with_char};
use vstd::prelude::*;

verus! {

/// Options of the emoji picker.
#[derive(Clone, Copy, PartialEq, Eq, Debug, Structural)]
pub struct EmojiArgs {
    /// Show a notification when an emoji was copied to the clipboard.
    pub notify: bool,
}

/// A category of emojis (Unicode CLDR), in the catalog's order.
#[derive(Clone, Copy, PartialEq, Eq, Debug, Structural)]
pub enum EmojiGroup {
    SmileysAndEmotion,
    PeopleAndBody,
    AnimalsAndNature,
    FoodAndDrink,
    TravelAndPlaces,
    Activities,
    Objects,
    Symbols,
    Flags,
}

/// The number of emoji groups.
pub const GROUP_COUNT: usize = 9;

/// The groups in the catalog's order (`emojis::Group::iter()`).
pub open spec fn group_order() -> Seq<EmojiGroup> {
    seq![
        EmojiGroup::SmileysAndEmotion,
        EmojiGroup::PeopleAndBody,
        EmojiGroup::AnimalsAndNature,
        EmojiGroup::FoodAndDrink,
        EmojiGroup::TravelAndPlaces,
        EmojiGroup::Activities,
        EmojiGroup::Objects,
        EmojiGroup::Symbols,
        EmojiGroup::Flags,
    ]
}

/// The group at a position of [`group_order`].
pub open spec fn group_at(i: int) -> EmojiGroup {
    group_order()[i]
}

/// The groups in order.
pub fn all_groups() -> (r: Vec<EmojiGroup>)
    ensures
        r@ == group_order(),
{
    let r = vec![
        EmojiGroup::SmileysAndEmotion,
        EmojiGroup::PeopleAndBody,
        EmojiGroup::AnimalsAndNature,
        EmojiGroup::FoodAndDrink,
        EmojiGroup::TravelAndPlaces,
        EmojiGroup::Activities,
        EmojiGroup::Objects,
        EmojiGroup::Symbols,
        EmojiGroup::Flags,
    ];
    assert(r@ =~= group_order());
    r
}

fn group_from_index(i: u8) -> (g: EmojiGroup)
    requires
        i < 9,
    ensures
        g == group_at(i as int),
{
    if i == 0 {
        EmojiGroup::SmileysAndEmotion
    } else if i == 1 {
        EmojiGroup::PeopleAndBody
    } else if i == 2 {
        EmojiGroup::AnimalsAndNature
    } else if i == 3 {
        EmojiGroup::FoodAndDrink
    } else if i == 4 {
        EmojiGroup::TravelAndPlaces
    } else if i == 5 {
        EmojiGroup::Activities
    } else if i == 6 {
        EmojiGroup::Objects
    } else if i == 7 {
        EmojiGroup::Symbols
    } else {
        EmojiGroup::Flags
    }
}

/// The tooltip of a group's tab.
pub open spec fn group_tooltip(group: EmojiGroup) -> Seq<char> {
    match group {
        EmojiGroup::SmileysAndEmotion => "Smileys"@,
        EmojiGroup::PeopleAndBody => "People & Body"@,
        EmojiGroup::AnimalsAndNature => "Animals & Nature"@,
        EmojiGroup::FoodAndDrink => "Food & Drink"@,
        EmojiGroup::TravelAndPlaces => "Travel & Places"@,
        EmojiGroup::Activities => "Activities"@,
        EmojiGroup::Objects => "Objects"@,
        EmojiGroup::Symbols => "Symbols"@,
        EmojiGroup::Flags => "Flags"@,
    }
}

/// The tooltip shown on a group's tab.
pub fn get_emoji_group_tooltip(group: EmojiGroup) -> (r: &'static str)
    ensures
        r@ == group_tooltip(group),
{
    match group {
        EmojiGroup::SmileysAndEmotion => "Smileys",
        EmojiGroup::PeopleAndBody => "People & Body",
        EmojiGroup::AnimalsAndNature => "Animals & Nature",
        EmojiGroup::FoodAndDrink => "Food & Drink",
        EmojiGroup::TravelAndPlaces => "Travel & Places",
        EmojiGroup::Activities => "Activities",
        EmojiGroup::Objects => "Objects",
        EmojiGroup::Symbols => "Symbols",
        EmojiGroup::Flags => "Flags",
    }
}

/// An emoji of the catalog.
pub struct EmojiInfo {
    /// The emoji itself.
    pub text: String,
    /// Its CLDR name.
    pub name: String,
    /// Its GitHub shortcodes.
    pub shortcodes: Vec<String>,
    /// Its group.
    pub group: EmojiGroup,
}

/// The plain value of an [`EmojiInfo`].
pub struct EmojiInfoView {
    pub text: Seq<char>,
    pub name: Seq<char>,
    pub shortcodes: Seq<Seq<char>>,
    pub group: EmojiGroup,
}

impl View for EmojiInfo {
    type V = EmojiInfoView;

    open spec fn view(&self) -> EmojiInfoView {
        EmojiInfoView {
            text: self.text@,
            name: self.name@,
            shortcodes: self.shortcodes.deep_view(),
            group: self.group,
        }
    }
}

/// Entry `index` of the catalog that `emojis::iter()` walks: the emoji, its name,
/// its shortcodes and the position of its group in [`group_order`]; `None` past the
/// end.
pub uninterp spec fn emoji_catalog(index: int) -> Option<(Seq<char>, Seq<char>, Seq<Seq<char>>, u8)>;

/// The catalog entry as an emoji.
pub open spec fn catalog_emoji(t: (Seq<char>, Seq<char>, Seq<Seq<char>>, u8)) -> EmojiInfoView {
    EmojiInfoView { text: t.0, name: t.1, shortcodes: t.2, group: group_at(t.3 as int) }
}

/// `emojis::iter().nth(index)`, as plain values: `as_str()`, `name()`,
/// `shortcodes()` and the group's position among the variants of `emojis::Group`
/// (declared in the order of `Group::iter()`). Claimed: the result is entry
/// `index` of the named catalog [`emoji_catalog`], and the group position is below
/// 9, the number of variants of `emojis::Group`.
#[verifier::external_body]
fn emoji_at(index: usize) -> (r: Option<(String, String, Vec<String>, u8)>)
    ensures
        match r {
            Some(t) => emoji_catalog(index as int) == Some((t.0@, t.1@, t.2.deep_view(), t.3))
                && t.3 < 9,
            None => emoji_catalog(index as int) is None,
        },
{
    match emojis::iter().nth(index) {
        Some(e) => Some((
            e.as_str().to_string(),
            e.name().to_string(),
            e.shortcodes().map(str::to_string).collect(),
            e.group() as u8,
        )),
        None => None,
    }
}

/// An emoji in the picker, with the score of the current search.
pub struct EmojiObject {
    emoji: EmojiInfo,
    score: i64,
}

impl EmojiObject {
    pub closed spec fn spec_emoji(&self) -> EmojiInfoView {
        self.emoji@
    }

    pub closed spec fn spec_score(&self) -> i64 {
        self.score
    }

    /// An item for an emoji, with score 0.
    pub fn new(emoji: EmojiInfo) -> (o: Self)
        ensures
            o.spec_emoji() == emoji@,
            o.spec_score() == 0,
    {
        EmojiObject { emoji, score: 0 }
    }

    pub fn emoji(&self) -> (e: &EmojiInfo)
        ensures
            e@ == self.spec_emoji(),
    {
        &self.emoji
    }

    pub fn score(&self) -> (s: i64)
        ensures
            s == self.spec_score(),
    {
        self.score
    }

    pub fn set_score(&mut self, score: i64)
        ensures
            final(self).spec_score() == score,
            final(self).spec_emoji() == old(self).spec_emoji(),
    {
        self.score = score;
    }
}

/// Every emoji of the catalog, in its order, each with score 0.
pub fn get_all_emojis() -> (r: Vec<EmojiObject>)
    ensures
        forall|k: int|
            0 <= k < r.len() ==> emoji_catalog(k) is Some && (#[trigger] r@[k]).spec_emoji()
                == catalog_emoji(emoji_catalog(k)->0) && r@[k].spec_score() == 0,
        r.len() < usize::MAX ==> emoji_catalog(r.len() as int) is None,
{
    let mut r: Vec<EmojiObject> = Vec::new();
    let mut i: usize = 0;
    loop
        invariant
            i == r.len(),
            forall|k: int|
                0 <= k < r.len() ==> emoji_catalog(k) is Some && (#[trigger] r@[k]).spec_emoji()
                    == catalog_emoji(emoji_catalog(k)->0) && r@[k].spec_score() == 0,
        ensures
            forall|k: int|
                0 <= k < r.len() ==> emoji_catalog(k) is Some && (#[trigger] r@[k]).spec_emoji()
                    == catalog_emoji(emoji_catalog(k)->0) && r@[k].spec_score() == 0,
            r.len() < usize::MAX ==> emoji_catalog(r.len() as int) is None,
        decreases usize::MAX - i,
    {
        if i == usize::MAX {
            break;
        }
        match emoji_at(i) {
            None => {
                break;
            },
            Some((text, name, shortcodes, group)) => {
                let info = EmojiInfo { text, name, shortcodes, group: group_from_index(group) };
                r.push(EmojiObject::new(info));
                i = i + 1;
            },
        }
    }
    r
}

/// The positions, in order, of the emojis of group `g` among `groups`.
pub open spec fn positions_in_group(groups: Seq<EmojiGroup>, g: EmojiGroup) -> Seq<usize>
    decreases groups.len(),
{
    if groups.len() == 0 {
        Seq::empty()
    } else {
        let prev = positions_in_group(groups.drop_last(), g);
        if groups.last() == g {
            prev.push((groups.len() - 1) as usize)
        } else {
            prev
        }
    }
}

/// The groups of a list of emojis.
pub open spec fn groups_of(emojis: Seq<EmojiObject>) -> Seq<EmojiGroup> {
    emojis.map_values(|e: EmojiObject| e.spec_emoji().group)
}

/// Each position appears in the list of its own group, and in no other; the lists
/// are in increasing order.
pub proof fn lemma_positions_in_group(groups: Seq<EmojiGroup>, g: EmojiGroup)
    requires
        groups.len() <= usize::MAX,
    ensures
        forall|i: usize| #[trigger] positions_in_group(groups, g).contains(i) <==> i < groups.len()
            && groups[i as int] == g,
        forall|a: int, b: int|
            0 <= a < b < positions_in_group(groups, g).len() ==> #[trigger] positions_in_group(
                groups,
                g,
            )[a] < #[trigger] positions_in_group(groups, g)[b],
    decreases groups.len(),
{
    if groups.len() > 0 {
        let n = groups.len() - 1;
        let prev_groups = groups.drop_last();
        lemma_positions_in_group(prev_groups, g);
        let prev = positions_in_group(prev_groups, g);
        let cur = positions_in_group(groups, g);
        assert forall|i: usize| #[trigger] cur.contains(i) <==> i < groups.len() && groups[i as int] == g by {
            if i < n {
                assert(prev_groups[i as int] == groups[i as int]);
            }
            if groups.last() == g {
                assert(cur == prev.push(n as usize));
                if cur.contains(i) {
                    let k = choose|k: int| 0 <= k < cur.len() && cur[k] == i;
                    if k < prev.len() {
                        assert(prev[k] == i);
                        assert(prev.contains(i));
                    }
                }
                if i < groups.len() && groups[i as int] == g {
                    if i < n {
                        assert(prev.contains(i));
                        let k = choose|k: int| 0 <= k < prev.len() && prev[k] == i;
                        assert(cur[k] == i);
                    } else {
                        assert(cur[prev.len() as int] == i);
                    }
                }
            } else {
                assert(cur == prev);
                if i < groups.len() && groups[i as int] == g {
                    assert(i < n);
                }
            }
        }
        assert forall|a: int, b: int| 0 <= a < b < cur.len() implies #[trigger] cur[a] < #[trigger] cur[b] by {
            if groups.last() == g {
                assert(cur == prev.push(n as usize));
                if b == prev.len() {
                    assert(prev[a] == cur[a]);
                    assert(prev.contains(prev[a]));
                } else {
                    assert(prev[a] < prev[b]);
                }
            } else {
                assert(cur == prev);
            }
        }
    }
}

/// The emojis of each group, as positions in `emojis`, in the order of
/// [`group_order`]; each list keeps the emojis' order.
pub fn get_groups(emojis: &Vec<EmojiObject>) -> (r: Vec<(EmojiGroup, Vec<usize>)>)
    ensures
        r.len() == GROUP_COUNT,
        forall|k: int|
            0 <= k < r.len() ==> (#[trigger] r@[k]).0 == group_at(k) && r@[k].1@ == positions_in_group(
                groups_of(emojis@),
                group_at(k),
            ),
{
    let groups = all_groups();
    let mut r: Vec<(EmojiGroup, Vec<usize>)> = Vec::new();
    let mut j: usize = 0;
    while j < groups.len()
        invariant
            groups@ == group_order(),
            j <= groups.len(),
            r.len() == j,
            forall|k: int|
                0 <= k < r.len() ==> (#[trigger] r@[k]).0 == group_at(k) && r@[k].1@
                    == positions_in_group(groups_of(emojis@), group_at(k)),
        decreases groups.len() - j,
    {
        let g = groups[j];
        let mut positions: Vec<usize> = Vec::new();
        let mut i: usize = 0;
        while i < emojis.len()
            invariant
                i <= emojis.len(),
                positions@ == positions_in_group(groups_of(emojis@).take(i as int), g),
            decreases emojis.len() - i,
        {
            proof {
                let t = groups_of(emojis@).take(i + 1);
                assert(t.drop_last() =~= groups_of(emojis@).take(i as int));
                assert(t.last() == emojis@[i as int].spec_emoji().group);
            }
            if emojis[i].emoji().group == g {
                positions.push(i);
            }
            i = i + 1;
        }
        assert(groups_of(emojis@).take(i as int) =~= groups_of(emojis@));
        r.push((g, positions));
        j = j + 1;
    }
    r
}

/// The text searched for: the query without one leading `:`.
pub open spec fn search_text(query: Seq<char>) -> Seq<char> {
    if starts_with(query, ':') {
        query.drop_first()
    } else {
        query
    }
}

/// A leading `:` is not searched for: a query and the same query behind a `:` search
/// for the same text, and `:` alone searches for nothing.
pub proof fn lemma_search_ignores_colon(query: Seq<char>)
    ensures
        !starts_with(query, ':') ==> search_text(seq![':'] + query) == search_text(query),
        search_text(seq![':']).len() == 0,
{
    assert((seq![':'] + query).drop_first() =~= query);
}

/// The score of an emoji for a search: the better of its name's fuzzy score and
/// the best fuzzy score of its shortcodes, each -1 where nothing matches.
pub open spec fn emoji_score(penalty: Option<i32>, e: EmojiInfoView, search: Seq<char>) -> i64 {
    let name_score = score_or(skim_fuzzy_match(penalty, e.name, search), -1);
    let keyword_score = score_or(best_match(penalty, e.shortcodes, search), -1);
    (if name_score >= keyword_score {
        name_score
    } else {
        keyword_score
    }) as i64
}

/// An emoji's score is the best of its name's and its shortcodes' fuzzy scores: at
/// least that of its name and of each of its shortcodes that matches, one of those
/// where any matches, and -1 where none does.
pub proof fn lemma_emoji_score_is_best_match(penalty: Option<i32>, e: EmojiInfoView, search: Seq<char>)
    ensures
        skim_fuzzy_match(penalty, e.name, search) matches Some(s) ==> emoji_score(penalty, e, search) >= s,
        forall|k: int|
            0 <= k < e.shortcodes.len() ==> (#[trigger] skim_fuzzy_match(penalty, e.shortcodes[k], search) matches Some(
                s,
            ) ==> emoji_score(penalty, e, search) >= s),
        emoji_score(penalty, e, search) == -1 || skim_fuzzy_match(penalty, e.name, search) == Some(
            emoji_score(penalty, e, search),
        ) || exists|k: int|
            0 <= k < e.shortcodes.len() && #[trigger] skim_fuzzy_match(penalty, e.shortcodes[k], search) == Some(
                emoji_score(penalty, e, search),
            ),
        skim_fuzzy_match(penalty, e.name, search) is None && (forall|k: int|
            0 <= k < e.shortcodes.len() ==> #[trigger] skim_fuzzy_match(penalty, e.shortcodes[k], search) is None)
            ==> emoji_score(penalty, e, search) == -1,
{
    lemma_best_match_bounds(penalty, e.shortcodes, search);
}

/// The scores of a list of emojis.
pub open spec fn emoji_scores(emojis: Seq<EmojiObject>) -> Seq<i64> {
    emojis.map_values(|e: EmojiObject| e.spec_score())
}

/// The emoji search: every emoji with its score for the current search, and the
/// selected position among the listed ones.
pub struct EmojiSearchModel {
    emojis: Vec<EmojiObject>,
    matcher: Matcher,
    selected: Option<usize>,
    args: EmojiArgs,
}

/// `after` is `before` after searching for `query`: the matcher and options stay;
/// each emoji stays and gets the score of the search text (0 for every emoji when
/// it is empty, i.e. for an empty query or `:` alone); where the search text is not
/// empty and some emoji is listed, the first listed one is selected, otherwise the
/// selection stays.
pub open spec fn searched(before: EmojiSearchModel, after: EmojiSearchModel, query: Seq<char>) -> bool {
    let text = search_text(query);
    &&& after.spec_matcher() == before.spec_matcher()
    &&& after.spec_args() == before.spec_args()
    &&& after.spec_emojis().len() == before.spec_emojis().len()
    &&& forall|k: int|
        0 <= k < before.spec_emojis().len() ==> (#[trigger] after.spec_emojis()[k]).spec_emoji()
            == before.spec_emojis()[k].spec_emoji() && after.spec_emojis()[k].spec_score() == if text.len()
            == 0 {
            0
        } else {
            emoji_score(before.spec_matcher(), before.spec_emojis()[k].spec_emoji(), text)
        }
    &&& after.spec_selected() == if text.len() > 0 && ranking_of(emoji_scores(after.spec_emojis())).len() > 0 {
        Some(0usize)
    } else {
        before.spec_selected()
    }
}

/// A query and the same query behind a `:` lead to the same search.
pub proof fn lemma_colon_query_same_search(
    before: EmojiSearchModel,
    a: EmojiSearchModel,
    b: EmojiSearchModel,
    query: Seq<char>,
)
    requires
        !starts_with(query, ':'),
        searched(before, a, seq![':'] + query),
        searched(before, b, query),
    ensures
        a.spec_emojis().len() == b.spec_emojis().len(),
        forall|k: int| 0 <= k < a.spec_emojis().len() ==> #[trigger] a.spec_emojis()[k].spec_score()
            == b.spec_emojis()[k].spec_score() && a.spec_emojis()[k].spec_emoji() == b.spec_emojis()[k].spec_emoji(),
        emoji_scores(a.spec_emojis()) == emoji_scores(b.spec_emojis()),
        a.spec_selected() == b.spec_selected(),
{
    lemma_search_ignores_colon(query);
    assert(emoji_scores(a.spec_emojis()) =~= emoji_scores(b.spec_emojis()));
}

impl EmojiSearchModel {
    pub closed spec fn spec_emojis(&self) -> Seq<EmojiObject> {
        self.emojis@
    }

    pub closed spec fn spec_matcher(&self) -> Option<i32> {
        self.matcher@
    }

    pub closed spec fn spec_selected(&self) -> Option<usize> {
        self.selected
    }

    pub closed spec fn spec_args(&self) -> EmojiArgs {
        self.args
    }

    /// A search over the given emojis, none listed yet.
    pub fn new(emojis: Vec<EmojiObject>, args: EmojiArgs) -> (m: Self)
        ensures
            m.spec_emojis() == emojis@,
            m.spec_matcher() == None::<i32>,
            m.spec_selected() == None::<usize>,
            m.spec_args() == args,
    {
        EmojiSearchModel { emojis, matcher: Matcher::case_insensitive(), selected: None, args }
    }

    /// The emojis in order.
    pub fn emojis(&self) -> (r: &Vec<EmojiObject>)
        ensures
            r@ == self.spec_emojis(),
    {
        &self.emojis
    }

    /// The positions of the listed emojis, in the order in which they are shown.
    pub fn results(&self) -> (r: Vec<usize>)
        ensures
            r@ == ranking_of(emoji_scores(self.spec_emojis())),
            is_ranking(emoji_scores(self.spec_emojis()), r@),
    {
        let scores = self.scores();
        rank_by_score(&scores)
    }

    /// The score of each emoji, in order.
    pub fn scores(&self) -> (r: Vec<i64>)
        ensures
            r@ == emoji_scores(self.spec_emojis()),
    {
        let mut r: Vec<i64> = Vec::new();
        let mut i: usize = 0;
        while i < self.emojis.len()
            invariant
                i <= self.emojis.len(),
                r@ == emoji_scores(self.emojis@).take(i as int),
            decreases self.emojis.len() - i,
        {
            r.push(self.emojis[i].score());
            i = i + 1;
            assert(r@ =~= emoji_scores(self.emojis@).take(i as int));
        }
        assert(r@ =~= emoji_scores(self.emojis@));
        r
    }

    /// Selects a position among the listed emojis (or nothing).
    pub fn set_selected(&mut self, position: Option<usize>)
        ensures
            final(self).spec_selected() == position,
            final(self).spec_emojis() == old(self).spec_emojis(),
            final(self).spec_matcher() == old(self).spec_matcher(),
            final(self).spec_args() == old(self).spec_args(),
    {
        self.selected = position;
    }

    /// Scores every emoji for a new search. An empty search (also `:` alone) sets
    /// every score to 0; otherwise, where some emoji is listed, the first one is
    /// selected.
    pub fn set_query_string(&mut self, query: &str)
        ensures
            searched(*old(self), *final(self), query@),
    {
        let stripped: &str = if starts_with_char(query, ':') {
            query.substring_char(1, query.unicode_len())
        } else {
            query
        };
        assert(stripped@ == search_text(query@));
        let empty = stripped.is_empty();
        let ghost before = self.emojis@;
        let ghost m0 = self.matcher@;
        let mut old_emojis: Vec<EmojiObject> = Vec::new();
        std::mem::swap(&mut old_emojis, &mut self.emojis);
        let ghost args0 = self.args;
        let ghost selected0 = self.selected;
        for e in it: old_emojis
            invariant
                it.seq() == before,
                self.matcher@ == m0,
                self.args == args0,
                self.selected == selected0,
                empty == (stripped@.len() == 0),
                self.emojis.len() == it.index(),
                forall|k: int|
                    0 <= k < self.emojis.len() ==> (#[trigger] self.emojis@[k]).spec_emoji() == before[k].spec_emoji()
                        && self.emojis@[k].spec_score() == if empty {
                        0
                    } else {
                        emoji_score(m0, before[k].spec_emoji(), stripped@)
                    },
        {
            let mut e = e;
            let score: i64 = if empty {
                0
            } else {
                let name_score: i64 = match self.matcher.fuzzy_match(e.emoji().name.as_str(), stripped) {
                    Some(s) => s,
                    None => -1,
                };
                let keyword_score: i64 = match best_fuzzy_match(&self.matcher, &e.emoji().shortcodes, stripped) {
                    Some(s) => s,
                    None => -1,
                };
                if name_score >= keyword_score {
                    name_score
                } else {
                    keyword_score
                }
            };
            e.set_score(score);
            self.emojis.push(e);
        }
        if !empty {
            let ranked = self.results();
            if ranked.len() > 0 {
                self.selected = Some(0);
            }
        }
    }

    /// The message that confirming the selection sends: the selected listed emoji,
    /// if any, as text output.
    pub fn activate_current(&self) -> (out: Option<AppMsg>)
        ensures
            ({
                let listed = ranking_of(emoji_scores(self.spec_emojis()));
                if self.spec_selected() is Some && self.spec_selected()->0 < listed.len() {
                    out matches Some(AppMsg::TextOutput { text, notify }) && notify == self.spec_args().notify
                        && text@ == self.spec_emojis()[listed[self.spec_selected()->0 as int] as int].spec_emoji().text
                } else {
                    out is None
                }
            }),
    {
        let ranked = self.results();
        match self.selected {
            Some(p) => {
                if p < ranked.len() {
                    let index = ranked[p];
                    Some(pick(&self.emojis[index], self.args))
                } else {
                    None
                }
            },
            None => None,
        }
    }

    /// Handles a message: a new query searches, confirming outputs the selection.
    pub fn update(&mut self, message: ModeMsg) -> (out: Option<AppMsg>)
        ensures
            final(self).spec_matcher() == old(self).spec_matcher(),
            final(self).spec_args() == old(self).spec_args(),
            match message {
                ModeMsg::SetQueryString(q) => out is None && searched(*old(self), *final(self), q@),
                ModeMsg::ActivateCurrent => {
                    &&& *final(self) == *old(self)
                    &&& ({
                        let listed = ranking_of(emoji_scores(old(self).spec_emojis()));
                        if old(self).spec_selected() is Some && old(self).spec_selected()->0 < listed.len() {
                            out matches Some(AppMsg::TextOutput { text, notify }) && notify
                                == old(self).spec_args().notify && text@ == old(self).spec_emojis()[listed[old(
                                self,
                            ).spec_selected()->0 as int] as int].spec_emoji().text
                        } else {
                            out is None
                        }
                    })
                },
                _ => out is None && *final(self) == *old(self),
            },
    {
        match message {
            ModeMsg::SetQueryString(q) => {
                self.set_query_string(q.as_str());
                None
            },
            ModeMsg::ActivateCurrent => self.activate_current(),
            _ => None,
        }
    }
}

/// The message that picking an emoji sends: its text as output, with a notification
/// where the options ask for one.
pub fn pick(emoji: &EmojiObject, args: EmojiArgs) -> (out: AppMsg)
    ensures
        out matches AppMsg::TextOutput { text, notify } && text@ == emoji.spec_emoji().text && notify
            == args.notify,
{
    AppMsg::TextOutput { text: emoji.emoji().text.clone(), notify: args.notify }
}

/// Whether the emoji view shows search results rather than the grouped picker: when
/// the query holds more than a leading `:`.
pub open spec fn shows_search(query: Seq<char>) -> bool {
    !(query.len() == 0 || query == seq![':'])
}

/// The search results replace the grouped picker for every query but the empty one
/// and `:` alone: for any text that does not start with `:`, and for any text of two
/// characters or more.
pub proof fn lemma_search_shown_for_text(query: Seq<char>)
    ensures
        query.len() > 0 && query[0] != ':' ==> shows_search(query),
        query.len() >= 2 ==> shows_search(query),
        query.len() == 0 ==> !shows_search(query),
        query == seq![':'] ==> !shows_search(query),
{
    if query.len() >= 2 {
        assert(query.len() != seq![':'].len());
    }
    if query.len() > 0 && query[0] != ':' {
        assert(query[0] != seq![':'][0]);
    }
}

/// The emoji picker mode: the grouped picker, and the search that replaces it while
/// there is a search text.
pub struct EmojisModel {
    has_search_string: bool,
    search: EmojiSearchModel,
    groups: Vec<(EmojiGroup, Vec<usize>)>,
}

/// The catalog has `n` entries and none of group `k`.
pub open spec fn catalog_missing_group(n: int, k: int) -> bool {
    &&& 0 <= k < GROUP_COUNT
    &&& 0 <= n <= usize::MAX
    &&& n < usize::MAX ==> emoji_catalog(n) is None
    &&& forall|i: int|
        0 <= i < n ==> emoji_catalog(i) is Some && #[trigger] catalog_emoji(emoji_catalog(i)->0).group
            != group_at(k)
}

/// Every group has at least one emoji.
pub open spec fn every_group_present(emojis: Seq<EmojiObject>) -> bool {
    forall|k: int| 0 <= k < GROUP_COUNT ==> #[trigger] positions_in_group(groups_of(emojis), group_at(k)).len() > 0
}

impl EmojisModel {
    /// The tabs agree with the emojis: one list per group, in order.
    pub closed spec fn wf(&self) -> bool {
        &&& every_group_present(self.search.emojis@)
        &&& self.groups.len() == GROUP_COUNT
        &&& forall|k: int|
            0 <= k < GROUP_COUNT ==> (#[trigger] self.groups@[k]).0 == group_at(k) && self.groups@[k].1@
                == positions_in_group(groups_of(self.search.emojis@), group_at(k))
    }

    pub closed spec fn spec_has_search_string(&self) -> bool {
        self.has_search_string
    }

    pub closed spec fn spec_search(&self) -> EmojiSearchModel {
        self.search
    }

    /// The picker for the whole catalog. The initial query only decides which view
    /// shows; the search starts with no emoji listed. `None` where some group of the
    /// catalog has no emoji (a group's tab shows its first emoji).
    pub fn new(initial_query: &str, args: EmojiArgs) -> (r: Option<Self>)
        ensures
            match r {
                Some(m) => {
                    &&& m.wf()
                    &&& m.spec_has_search_string() == (initial_query@.len() > 0)
                    &&& m.spec_search().spec_args() == args
                    &&& m.spec_search().spec_selected() == None::<usize>
                    &&& m.spec_search().spec_matcher() == None::<i32>
                    &&& forall|k: int|
                        0 <= k < m.spec_search().spec_emojis().len() ==> emoji_catalog(k) is Some && (
                        #[trigger] m.spec_search().spec_emojis()[k]).spec_emoji() == catalog_emoji(
                            emoji_catalog(k)->0,
                        ) && m.spec_search().spec_emojis()[k].spec_score() == 0
                    &&& m.spec_search().spec_emojis().len() < usize::MAX ==> emoji_catalog(
                        m.spec_search().spec_emojis().len() as int,
                    ) is None
                },
                None => exists|n: int, k: int|
                    #![trigger catalog_missing_group(n, k)]
                    catalog_missing_group(n, k),
            },
    {
        let emojis = get_all_emojis();
        let groups = get_groups(&emojis);
        let count = emojis.len();
        let mut j: usize = 0;
        while j < groups.len()
            invariant
                count == emojis@.len(),
                forall|k: int|
                    0 <= k < emojis@.len() ==> emoji_catalog(k) is Some && (#[trigger] emojis@[k]).spec_emoji()
                        == catalog_emoji(emoji_catalog(k)->0) && emojis@[k].spec_score() == 0,
                emojis@.len() < usize::MAX ==> emoji_catalog(emojis@.len() as int) is None,
                groups.len() == GROUP_COUNT,
                j <= GROUP_COUNT,
                forall|k: int|
                    0 <= k < groups.len() ==> (#[trigger] groups@[k]).0 == group_at(k) && groups@[k].1@
                        == positions_in_group(groups_of(emojis@), group_at(k)),
                forall|k: int| 0 <= k < j ==> #[trigger] positions_in_group(groups_of(emojis@), group_at(k)).len() > 0,
            decreases GROUP_COUNT - j,
        {
            if groups[j].1.len() == 0 {
                proof {
                    let g = group_at(j as int);
                    assert(groups_of(emojis@).len() == emojis@.len());
                    lemma_positions_in_group(groups_of(emojis@), g);
                    assert forall|i: int| 0 <= i < emojis@.len() implies emoji_catalog(i) is Some
                        && #[trigger] catalog_emoji(emoji_catalog(i)->0).group != g by {
                        assert(emojis@[i].spec_emoji() == catalog_emoji(emoji_catalog(i)->0));
                        assert(groups_of(emojis@)[i] == emojis@[i].spec_emoji().group);
                        if catalog_emoji(emoji_catalog(i)->0).group == g {
                            assert(groups_of(emojis@)[i] == g);
                            assert(positions_in_group(groups_of(emojis@), g).contains(i as usize));
                        }
                    }
                    assert(catalog_missing_group(emojis@.len() as int, j as int));
                }
                return None;
            }
            j = j + 1;
        }
        Some(
            EmojisModel {
                has_search_string: !initial_query.is_empty(),
                search: EmojiSearchModel::new(emojis, args),
                groups,
            },
        )
    }

    /// Whether the search view shows rather than the grouped picker.
    pub fn has_search_string(&self) -> (b: bool)
        ensures
            b == self.spec_has_search_string(),
    {
        self.has_search_string
    }

    /// The search part.
    pub fn search(&self) -> (s: &EmojiSearchModel)
        ensures
            *s == self.spec_search(),
    {
        &self.search
    }

    /// The tabs of the picker: each group with the positions of its emojis.
    pub fn groups(&self) -> (g: &Vec<(EmojiGroup, Vec<usize>)>)
        requires
            self.wf(),
        ensures
            g.len() == GROUP_COUNT,
            forall|k: int|
                0 <= k < GROUP_COUNT ==> (#[trigger] g@[k]).0 == group_at(k) && g@[k].1@ == positions_in_group(
                    groups_of(self.spec_search().spec_emojis()),
                    group_at(k),
                ),
    {
        &self.groups
    }

    /// The label of the tab of group `k`: its first emoji.
    pub fn tab_label(&self, k: usize) -> (r: String)
        requires
            self.wf(),
            k < GROUP_COUNT,
        ensures
            ({
                let positions = positions_in_group(groups_of(self.spec_search().spec_emojis()), group_at(k as int));
                positions.len() > 0 && r@ == self.spec_search().spec_emojis()[positions[0] as int].spec_emoji().text
            }),
    {
        let positions = &self.groups[k].1;
        let count = self.search.emojis.len();
        proof {
            assert(positions_in_group(groups_of(self.search.emojis@), group_at(k as int)).len() > 0);
            assert(groups_of(self.search.emojis@).len() == count);
            lemma_positions_in_group(groups_of(self.search.emojis@), group_at(k as int));
            assert(positions@.contains(positions@[0]));
        }
        self.search.emojis[positions[0]].emoji().text.clone()
    }

    /// The message that picking the emoji at a position sends.
    pub fn pick_at(&self, index: usize) -> (out: AppMsg)
        requires
            index < self.spec_search().spec_emojis().len(),
        ensures
            out matches AppMsg::TextOutput { text, notify } && text@
                == self.spec_search().spec_emojis()[index as int].spec_emoji().text && notify
                == self.spec_search().spec_args().notify,
    {
        pick(&self.search.emojis[index], self.search.args)
    }

    /// Handles a message: a query decides between picker and search and goes on to
    /// the search; every other message is ignored.
    pub fn update(&mut self, message: ModeMsg) -> (out: Option<AppMsg>)
        requires
            old(self).wf(),
        ensures
            final(self).wf(),
            out is None,
            match message {
                ModeMsg::SetQueryString(q) => final(self).spec_has_search_string() == shows_search(q@)
                    && searched(old(self).spec_search(), final(self).spec_search(), q@),
                _ => *final(self) == *old(self),
            },
    {
        match message {
            ModeMsg::SetQueryString(q) => {
                let colon_only = q.as_str().unicode_len() == 1 && starts_with_char(q.as_str(), ':');
                proof {
                    if q@.len() == 1 && q@[0] == ':' {
                        assert(q@ =~= seq![':']);
                    }
                }
                self.has_search_string = !(q.as_str().is_empty() || colon_only);
                let ghost before = groups_of(self.search.emojis@);
                self.search.set_query_string(q.as_str());
                assert(groups_of(self.search.emojis@) =~= before);
                None
            },
            _ => None,
        }
    }
}

} // verus!
