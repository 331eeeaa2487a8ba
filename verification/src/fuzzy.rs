//! Fuzzy matching of search queries, through the skim matcher of `fuzzy-matcher`.
use fuzzy_matcher::skim::{SkimMatcherV2, SkimScoreConfig};
use fuzzy_matcher::FuzzyMatcher;
use vstd::prelude::*;

verus! {

/// The score configuration of the skim matcher of `fuzzy-matcher`
/// (`fuzzy_matcher::skim::SkimScoreConfig`), opaque here: it is only carried to the
/// matcher that each score is computed with.
#[verifier::external_type_specification]
#[verifier::external_body]
pub struct ExSkimScoreConfig(SkimScoreConfig);

/// The settings of a case-insensitive skim matcher (`fuzzy_matcher::skim::SkimMatcherV2`):
/// its score configuration, together with the one setting in which the matchers of
/// this library differ, the score given for a letter that matches only when case is
/// ignored. `None` stands for the crate's default score configuration; `Some(p)` for
/// that configuration with `penalty_case_mismatch` set to `p`. Each score is computed
/// on a matcher built for that call, so that no score matrix kept from an earlier
/// call can change it.
pub struct Matcher {
    config: SkimScoreConfig,
    case_mismatch_penalty: Option<i32>,
}

impl View for Matcher {
    type V = Option<i32>;

    closed spec fn view(&self) -> Option<i32> {
        self.case_mismatch_penalty
    }
}

/// The score that `SkimMatcherV2::fuzzy_match` gives `choice` for `pattern`, on a new
/// matcher built with `SkimMatcherV2::default().ignore_case()` and the case mismatch
/// setting `case_mismatch_penalty` (see [`Matcher`]). `None` when the pattern's
/// characters do not all occur in order in the choice.
pub uninterp spec fn skim_fuzzy_match(
    case_mismatch_penalty: Option<i32>,
    choice: Seq<char>,
    pattern: Seq<char>,
) -> Option<i64>;

/// Whether two characters are equal when ASCII case is ignored
/// (`char::eq_ignore_ascii_case`).
pub open spec fn eq_ignoring_ascii_case(a: char, b: char) -> bool {
    ||| a == b
    ||| ('A' <= a <= 'Z' && (a as u32) + 32 == (b as u32))
    ||| ('A' <= b <= 'Z' && (b as u32) + 32 == (a as u32))
}

/// Whether the characters of `pattern` occur in `choice` in order, ASCII case
/// ignored (each pattern character taken at its first possible place).
pub open spec fn occurs_in_order(pattern: Seq<char>, choice: Seq<char>) -> bool
    decreases choice.len(),
{
    if pattern.len() == 0 {
        true
    } else if choice.len() == 0 {
        false
    } else if eq_ignoring_ascii_case(choice[0], pattern[0]) {
        occurs_in_order(pattern.drop_first(), choice.drop_first())
    } else {
        occurs_in_order(pattern, choice.drop_first())
    }
}

impl Matcher {
    /// The settings of `SkimMatcherV2::default().ignore_case()`: the crate's default
    /// scores (`SkimScoreConfig::default()`), case ignored. Claimed: the matcher's
    /// setting is the default (`None`).
    #[verifier::external_body]
    pub(crate) fn case_insensitive() -> (m: Matcher)
        ensures
            m@ == None::<i32>,
    {
        Matcher { config: SkimScoreConfig::default(), case_mismatch_penalty: None }
    }

    /// The settings of `SkimMatcherV2::default().ignore_case()` with the default
    /// `SkimScoreConfig` but `penalty_case_mismatch: penalty`. The penalty is kept
    /// small: the crate adds it to the match score in `i32`. Claimed: the matcher's
    /// setting is `Some(penalty)`.
    #[verifier::external_body]
    pub(crate) fn case_insensitive_with_case_penalty(penalty: i32) -> (m: Matcher)
        requires
            -16 <= penalty <= 16,
        ensures
            m@ == Some(penalty),
    {
        let config = SkimScoreConfig { penalty_case_mismatch: penalty, ..SkimScoreConfig::default() };
        Matcher { config, case_mismatch_penalty: Some(penalty) }
    }

    /// `FuzzyMatcher::fuzzy_match(&matcher, choice, pattern)` on a new
    /// `SkimMatcherV2::default().ignore_case().score_config(config)`, whose score
    /// matrix starts empty. The result is the named score [`skim_fuzzy_match`]. The
    /// source shows three facts of it: an empty pattern matches every choice with
    /// score 0 (`fuzzy` returns `Some((0, ..))` first); there is a score exactly when
    /// the pattern's characters occur in order in the choice, ASCII case ignored
    /// (`cheap_matches` with `char_equal`, after which a score is always found); and a
    /// score is an `i32` widened to the crate's `i64` score type.
    #[verifier::external_body]
    pub(crate) fn fuzzy_match(&self, choice: &str, pattern: &str) -> (r: Option<i64>)
        ensures
            r == skim_fuzzy_match(self@, choice@, pattern@),
            pattern@.len() == 0 ==> r == Some(0i64),
            r is Some <==> occurs_in_order(pattern@, choice@),
            r matches Some(s) ==> i32::MIN <= s <= i32::MAX,
    {
        let matcher = SkimMatcherV2::default().ignore_case().score_config(self.config);
        matcher.fuzzy_match(choice, pattern)
    }
}

} // verus!
