//! The default mode: a live search of the installed applications.
use crate::app::AppMsg;
use crate::desktop_entry::{get_all_apps, AppEntry, AppEntryView, DesktopEntryObject};
use crate::modes::ModeMsg;
use crate::fuzzy::{skim_fuzzy_match, Matcher};
use crate::ranking::{is_ranking, rank_by_score, ranking_of};
use crate::text::{eq_ignore_ascii_case, equal_ignoring_ascii_case};
use vstd::prelude::*;

verus! {

/// The score an application gets when its name is the query, up to ASCII case.
pub const EXACT_NAME_BONUS: i64 = 100000;

/// The case mismatch setting of the application launcher's matcher: a letter that
/// matches only without regard to case costs nothing.
pub const APP_CASE_MISMATCH_PENALTY: i32 = 0;

/// `o`, or `d` where it is `None`.
pub open spec fn score_or(o: Option<i64>, d: int) -> int {
    match o {
        Some(s) => s as int,
        None => d,
    }
}

/// The larger of two numbers.
pub open spec fn max(a: int, b: int) -> int {
    if a >= b {
        a
    } else {
        b
    }
}

/// The best score among the choices that match (`filter_map(..).max()`): `None`
/// where none matches.
pub open spec fn best_match(
    penalty: Option<i32>,
    choices: Seq<Seq<char>>,
    pattern: Seq<char>,
) -> Option<i64>
    decreases choices.len(),
{
    if choices.len() == 0 {
        None
    } else {
        let prev = best_match(penalty, choices.drop_last(), pattern);
        match (prev, skim_fuzzy_match(penalty, choices.last(), pattern)) {
            (None, m) => m,
            (p, None) => p,
            (Some(a), Some(b)) => Some(if a > b { a } else { b }),
        }
    }
}

/// The score of an application for a query: -1 for an entry without a name;
/// otherwise the largest of the exact-name bonus (where the name equals the
/// query up to ASCII case, else 0), ten times the fuzzy score of the name, the best
/// fuzzy score of a keyword, and the fuzzy score of the application id (each 0
/// where nothing matches).
pub open spec fn app_score(penalty: Option<i32>, e: AppEntryView, pattern: Seq<char>) -> int {
    match e.name {
        None => -1,
        Some(name) => {
            let exact = if equal_ignoring_ascii_case(name, pattern) {
                EXACT_NAME_BONUS as int
            } else {
                0
            };
            let name_score = score_or(skim_fuzzy_match(penalty, name, pattern), 0) * 10;
            let keyword_score = score_or(best_match(penalty, e.keywords, pattern), 0);
            let appid_score = score_or(skim_fuzzy_match(penalty, e.appid, pattern), 0);
            max(max(max(exact, name_score), keyword_score), appid_score)
        },
    }
}

/// The best fuzzy score among `choices`.
pub(crate) fn best_fuzzy_match(matcher: &Matcher, choices: &Vec<String>, pattern: &str) -> (r: Option<i64>)
    ensures
        r == best_match(matcher@, choices.deep_view(), pattern@),
        r matches Some(s) ==> i32::MIN <= s <= i32::MAX,
{
    let mut best: Option<i64> = None;
    let mut i: usize = 0;
    while i < choices.len()
        invariant
            i <= choices.len(),
            best == best_match(matcher@, choices.deep_view().take(i as int), pattern@),
            best matches Some(s) ==> i32::MIN <= s <= i32::MAX,
        decreases choices.len() - i,
    {
        let m = matcher.fuzzy_match(choices[i].as_str(), pattern);
        proof {
            let t = choices.deep_view().take(i + 1);
            assert(t.drop_last() =~= choices.deep_view().take(i as int));
            assert(t.last() == choices@[i as int]@);
        }
        best = match (best, m) {
            (None, m) => m,
            (p, None) => p,
            (Some(a), Some(b)) => Some(if a > b { a } else { b }),
        };
        i = i + 1;
    }
    assert(choices.deep_view().take(i as int) =~= choices.deep_view());
    best
}

/// Scores an application for a query.
pub fn calculate_score(entry: &AppEntry, pattern: &str, matcher: &Matcher) -> (score: i64)
    ensures
        score == app_score(matcher@, entry@, pattern@),
{
    let name = match &entry.name {
        None => {
            return -1;
        },
        Some(n) => n,
    };
    let exact_bonus: i64 = if eq_ignore_ascii_case(name.as_str(), pattern) {
        EXACT_NAME_BONUS
    } else {
        0
    };
    let name_score: i64 = match matcher.fuzzy_match(name.as_str(), pattern) {
        Some(s) => s * 10,
        None => 0,
    };
    let keyword_score: i64 = match best_fuzzy_match(matcher, &entry.keywords, pattern) {
        Some(s) => s,
        None => 0,
    };
    let appid_score: i64 = match matcher.fuzzy_match(entry.appid.as_str(), pattern) {
        Some(s) => s,
        None => 0,
    };
    let mut score = exact_bonus;
    if name_score > score {
        score = name_score;
    }
    if keyword_score > score {
        score = keyword_score;
    }
    if appid_score > score {
        score = appid_score;
    }
    score
}

/// An application with a name scores at least 0; one without scores -1, so it is
/// never listed for a query.
pub proof fn lemma_app_score_sign(penalty: Option<i32>, e: AppEntryView, pattern: Seq<char>)
    ensures
        e.name is None <==> app_score(penalty, e, pattern) == -1,
        e.name is Some ==> app_score(penalty, e, pattern) >= 0,
{
}

/// An application whose name is the query, up to ASCII case, scores at least the
/// exact-name bonus.
pub proof fn lemma_exact_name_bonus(penalty: Option<i32>, e: AppEntryView, pattern: Seq<char>)
    requires
        e.name is Some,
        equal_ignoring_ascii_case(e.name->0, pattern),
    ensures
        app_score(penalty, e, pattern) >= EXACT_NAME_BONUS,
{
}

/// The best match among choices is at least the score of each choice that matches,
/// and it is the score of one of them; there is none exactly when no choice matches.
pub proof fn lemma_best_match_bounds(penalty: Option<i32>, choices: Seq<Seq<char>>, pattern: Seq<char>)
    ensures
        forall|k: int|
            0 <= k < choices.len() && #[trigger] skim_fuzzy_match(penalty, choices[k], pattern) is Some ==> {
                &&& best_match(penalty, choices, pattern) is Some
                &&& best_match(penalty, choices, pattern)->0 >= skim_fuzzy_match(penalty, choices[k], pattern)->0
            },
        best_match(penalty, choices, pattern) is Some ==> exists|k: int|
            0 <= k < choices.len() && #[trigger] skim_fuzzy_match(penalty, choices[k], pattern)
                == best_match(penalty, choices, pattern),
    decreases choices.len(),
{
    if choices.len() > 0 {
        let prev = choices.drop_last();
        lemma_best_match_bounds(penalty, prev, pattern);
        assert forall|k: int|
            0 <= k < prev.len() implies #[trigger] prev[k] == choices[k] by {}
        assert forall|k: int|
            0 <= k < choices.len() && #[trigger] skim_fuzzy_match(penalty, choices[k], pattern) is Some implies {
                &&& best_match(penalty, choices, pattern) is Some
                &&& best_match(penalty, choices, pattern)->0 >= skim_fuzzy_match(penalty, choices[k], pattern)->0
            } by {
            if k < prev.len() {
                assert(prev[k] == choices[k]);
                assert(skim_fuzzy_match(penalty, prev[k], pattern) is Some);
            } else {
                assert(choices[k] == choices.last());
            }
        }
        if best_match(penalty, choices, pattern) is Some {
            let b = best_match(penalty, choices, pattern);
            if skim_fuzzy_match(penalty, choices.last(), pattern) == b {
                assert(skim_fuzzy_match(penalty, choices[choices.len() - 1], pattern) == b);
            } else {
                let k = choose|k: int|
                    0 <= k < prev.len() && #[trigger] skim_fuzzy_match(penalty, prev[k], pattern)
                        == best_match(penalty, prev, pattern);
                assert(prev[k] == choices[k]);
            }
        }
    }
}

/// Every part of an application's score counts: an application with a name scores
/// at least the fuzzy score of its application id, ten times the fuzzy score of its
/// name, the fuzzy score of each of its keywords, and the exact-name bonus where
/// its name is the query up to ASCII case; so an application that any of these
/// matches with a positive score is listed.
pub proof fn lemma_app_score_counts_every_part(penalty: Option<i32>, e: AppEntryView, pattern: Seq<char>)
    requires
        e.name is Some,
    ensures
        skim_fuzzy_match(penalty, e.appid, pattern) matches Some(s) ==> app_score(penalty, e, pattern) >= s,
        skim_fuzzy_match(penalty, e.name->0, pattern) matches Some(s) ==> app_score(penalty, e, pattern) >= 10 * s,
        forall|k: int|
            0 <= k < e.keywords.len() ==> (#[trigger] skim_fuzzy_match(penalty, e.keywords[k], pattern) matches Some(
                s,
            ) ==> app_score(penalty, e, pattern) >= s),
        equal_ignoring_ascii_case(e.name->0, pattern) ==> app_score(penalty, e, pattern) >= EXACT_NAME_BONUS,
        app_score(penalty, e, pattern) >= 0,
{
    lemma_best_match_bounds(penalty, e.keywords, pattern);
}

/// The matcher the application launcher scores with: case ignored, and no cost for
/// a letter that matches only without regard to case.
pub fn launcher_matcher() -> (m: Matcher)
    ensures
        m@ == Some(APP_CASE_MISMATCH_PENALTY),
{
    Matcher::case_insensitive_with_case_penalty(APP_CASE_MISMATCH_PENALTY)
}

/// The scores of a list of applications.
pub open spec fn scores_of(apps: Seq<DesktopEntryObject>) -> Seq<i64> {
    apps.map_values(|a: DesktopEntryObject| a.spec_score())
}

/// The application launcher's list: every launchable application with its score
/// for the current query, and the selected position among the listed ones.
pub struct AppLauncherModel {
    apps: Vec<DesktopEntryObject>,
    matcher: Matcher,
    selected: Option<usize>,
}

impl AppLauncherModel {
    /// The applications, in the order in which they were read.
    pub closed spec fn spec_apps(&self) -> Seq<DesktopEntryObject> {
        self.apps@
    }

    /// The matcher's case mismatch setting.
    pub closed spec fn spec_matcher(&self) -> Option<i32> {
        self.matcher@
    }

    /// The selected position in the listed applications.
    pub closed spec fn spec_selected(&self) -> Option<usize> {
        self.selected
    }

    /// After a query: every application's score is that of the query (0 for all when
    /// the query is empty), and the first listed application is selected.
    pub open spec fn after_query(&self, entries: Seq<AppEntryView>, query: Seq<char>) -> bool {
        &&& self.spec_apps().len() == entries.len()
        &&& forall|k: int|
            0 <= k < entries.len() ==> (#[trigger] self.spec_apps()[k]).spec_entry() == entries[k]
                && self.spec_apps()[k].spec_score() == if query.len() == 0 {
                0
            } else {
                app_score(self.spec_matcher(), entries[k], query)
            }
        &&& self.spec_selected() == if exists|k: int|
            0 <= k < entries.len() && #[trigger] scores_of(self.spec_apps())[k] > 0 {
            Some(0usize)
        } else {
            None
        }
    }

    /// The launcher for the given applications and initial query.
    pub fn new(entries: Vec<AppEntry>, query: &str) -> (m: Self)
        ensures
            m.spec_matcher() == Some(APP_CASE_MISMATCH_PENALTY),
            m.after_query(entries@.map_values(|e: AppEntry| e@), query@),
    {
        let apps = get_all_apps(entries);
        let mut m = AppLauncherModel {
            apps,
            matcher: launcher_matcher(),
            selected: None,
        };
        m.set_query_string(query);
        m
    }

    /// Scores every application for a new query and selects the first listed one.
    pub fn set_query_string(&mut self, query: &str)
        ensures
            final(self).spec_matcher() == old(self).spec_matcher(),
            final(self).after_query(
                old(self).spec_apps().map_values(|a: DesktopEntryObject| a.spec_entry()),
                query@,
            ),
    {
        let ghost entries = self.apps@.map_values(|a: DesktopEntryObject| a.spec_entry());
        let empty = query.is_empty();
        let mut old_apps: Vec<DesktopEntryObject> = Vec::new();
        std::mem::swap(&mut old_apps, &mut self.apps);
        let ghost orig = old_apps@;
        let ghost m0 = self.matcher@;
        for app in it: old_apps
            invariant
                it.seq() == orig,
                self.matcher@ == m0,
                entries == orig.map_values(|a: DesktopEntryObject| a.spec_entry()),
                empty == (query@.len() == 0),
                self.apps.len() == it.index(),
                forall|k: int|
                    0 <= k < self.apps.len() ==> (#[trigger] self.apps@[k]).spec_entry() == entries[k]
                        && self.apps@[k].spec_score() == if empty {
                        0
                    } else {
                        app_score(self.matcher@, entries[k], query@)
                    },
        {
            let mut app = app;
            let score = if empty {
                0
            } else {
                calculate_score(app.entry(), query, &self.matcher)
            };
            app.set_score(score);
            self.apps.push(app);
        }
        let scores = self.scores();
        let ranked = rank_by_score(&scores);
        self.selected = if ranked.len() > 0 {
            Some(0)
        } else {
            None
        };
        proof {
            assert(self.apps@.len() == entries.len());
            if ranked.len() > 0 {
                let k = ranked@[0] as int;
                assert(scores_of(self.apps@)[k] > 0);
            } else if exists|k: int| 0 <= k < entries.len() && #[trigger] scores_of(self.apps@)[k] > 0 {
                let k = choose|k: int| 0 <= k < entries.len() && #[trigger] scores_of(self.apps@)[k] > 0;
                assert(ranked@.contains(k as usize));
            }
        }
    }

    /// The score of each application, in order.
    pub fn scores(&self) -> (r: Vec<i64>)
        ensures
            r@ == scores_of(self.spec_apps()),
    {
        let mut r: Vec<i64> = Vec::new();
        let mut i: usize = 0;
        while i < self.apps.len()
            invariant
                i <= self.apps.len(),
                r@ == scores_of(self.apps@).take(i as int),
            decreases self.apps.len() - i,
        {
            r.push(self.apps[i].score());
            i = i + 1;
            assert(r@ =~= scores_of(self.apps@).take(i as int));
        }
        assert(r@ =~= scores_of(self.apps@));
        r
    }

    /// The positions of the listed applications, in the order in which they are shown.
    pub fn results(&self) -> (r: Vec<usize>)
        ensures
            is_ranking(scores_of(self.spec_apps()), r@),
            r@ == ranking_of(scores_of(self.spec_apps())),
    {
        let scores = self.scores();
        rank_by_score(&scores)
    }

    /// The application at a position of the list.
    pub fn app(&self, index: usize) -> (a: &DesktopEntryObject)
        requires
            index < self.spec_apps().len(),
        ensures
            *a == self.spec_apps()[index as int],
    {
        &self.apps[index]
    }

    /// The number of applications.
    pub fn len(&self) -> (n: usize)
        ensures
            n == self.spec_apps().len(),
    {
        self.apps.len()
    }

    /// Selects a position among the listed applications (or nothing).
    pub fn set_selected(&mut self, position: Option<usize>)
        ensures
            final(self).spec_selected() == position,
            final(self).spec_apps() == old(self).spec_apps(),
            final(self).spec_matcher() == old(self).spec_matcher(),
    {
        self.selected = position;
    }

    /// The entry that activating the selection launches: the selected listed
    /// application, if any.
    pub fn activate_current(&self) -> (r: Option<AppEntry>)
        ensures
            ({
                let listed = ranking_of(scores_of(self.spec_apps()));
                if self.spec_selected() is Some && self.spec_selected()->0 < listed.len() {
                    r is Some && r->0@ == self.spec_apps()[listed[self.spec_selected()->0 as int] as int].spec_entry()
                } else {
                    r is None
                }
            }),
    {
        let ranked = self.results();
        match self.selected {
            Some(p) => {
                if p < ranked.len() {
                    let index = ranked[p];
                    Some(self.apps[index].entry().duplicate())
                } else {
                    None
                }
            },
            None => None,
        }
    }

    /// Handles a message: a new query rescores the list; confirming launches the
    /// selected application.
    pub fn update(&mut self, message: ModeMsg) -> (out: Option<AppMsg>)
        ensures
            final(self).spec_matcher() == old(self).spec_matcher(),
            match message {
                ModeMsg::SetQueryString(q) => out is None && final(self).after_query(
                    old(self).spec_apps().map_values(|a: DesktopEntryObject| a.spec_entry()),
                    q@,
                ),
                ModeMsg::ActivateCurrent => {
                    let listed = ranking_of(scores_of(old(self).spec_apps()));
                    &&& *final(self) == *old(self)
                    &&& if old(self).spec_selected() is Some && old(self).spec_selected()->0 < listed.len() {
                        out matches Some(AppMsg::LaunchDesktopEntry(e)) && e@ == old(self).spec_apps()[listed[old(
                            self,
                        ).spec_selected()->0 as int] as int].spec_entry()
                    } else {
                        out is None
                    }
                },
                _ => out is None && *final(self) == *old(self),
            },
    {
        match message {
            ModeMsg::SetQueryString(q) => {
                self.set_query_string(q.as_str());
                None
            },
            ModeMsg::ActivateCurrent => match self.activate_current() {
                Some(e) => Some(AppMsg::LaunchDesktopEntry(e)),
                None => None,
            },
            _ => None,
        }
    }
}

} // verus!
