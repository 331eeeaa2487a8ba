//! dmenu mode: choose one of the lines read from the input.
use crate::app::AppMsg;
use crate::app_launcher::score_or;
use crate::fuzzy::{skim_fuzzy_match, Matcher};
use crate::modes::ModeMsg;
use crate::ranking::{is_ranking, lemma_equal_scores_keep_order, rank_by_score, ranking_of};
use crate::text::{
    field_or_line, join_with, lemma_join_split, lemma_split_without_delimiter, lines_of, nth_field,
    split_at_char, split_lines, split_on,
};
use vstd::prelude::*;

verus! {

/// How the input is turned into choices.
#[derive(Clone, Copy, PartialEq, Eq, Debug, Structural)]
pub struct DmenuArgs {
    /// Delimit the choices by the NUL character instead of newlines.
    pub nul_delimiter: bool,
    /// Split each choice at tabs and offer only field `n` (counting from 0).
    pub with_nth: Option<usize>,
}

/// The choices that an input text gives: the pieces between NUL characters, or its
/// lines; then, where asked for, field `n` of each (the whole choice where it has
/// fewer fields).
pub open spec fn dmenu_choices(args: DmenuArgs, input: Seq<char>) -> Seq<Seq<char>> {
    let delimited = if args.nul_delimiter {
        split_on(input, '\0')
    } else {
        lines_of(input)
    };
    match args.with_nth {
        None => delimited,
        Some(n) => delimited.map_values(|l: Seq<char>| nth_field(l, n as int)),
    }
}

/// Field selection applies whatever the delimiter: with `--with-nth n` the choices
/// are field `n` of each choice that the same input gives without it, one for one,
/// both for lines and for NUL-separated pieces.
pub proof fn lemma_field_selection_any_delimiter(args: DmenuArgs, input: Seq<char>, n: usize)
    requires
        args.with_nth == Some(n),
    ensures
        dmenu_choices(args, input).len() == dmenu_choices(DmenuArgs { with_nth: None, ..args }, input).len(),
        forall|k: int|
            0 <= k < dmenu_choices(args, input).len() ==> #[trigger] dmenu_choices(args, input)[k] == nth_field(
                dmenu_choices(DmenuArgs { with_nth: None, ..args }, input)[k],
                n as int,
            ),
        args.nul_delimiter ==> dmenu_choices(args, input).len() == split_on(input, '\0').len(),
        args.nul_delimiter ==> forall|k: int|
            0 <= k < split_on(input, '\0').len() ==> #[trigger] dmenu_choices(args, input)[k] == nth_field(
                split_on(input, '\0')[k],
                n as int,
            ),
{
}

impl DmenuArgs {
    /// The choices offered for an input text.
    pub fn read_strings_from_input(&self, input: &str) -> (r: Vec<String>)
        ensures
            r.deep_view() == dmenu_choices(*self, input@),
    {
        let delimited = if self.nul_delimiter {
            split_at_char(input, '\0')
        } else {
            split_lines(input)
        };
        match self.with_nth {
            None => delimited,
            Some(n) => {
                let ghost d = delimited.deep_view();
                let mut r: Vec<String> = Vec::new();
                let mut i: usize = 0;
                while i < delimited.len()
                    invariant
                        i <= delimited.len(),
                        d == delimited.deep_view(),
                        r.deep_view() == d.take(i as int).map_values(
                            |l: Seq<char>| nth_field(l, n as int),
                        ),
                    decreases delimited.len() - i,
                {
                    let f = field_or_line(delimited[i].as_str(), n);
                    let ghost before = r.deep_view();
                    let ghost fv = f@;
                    r.push(f);
                    assert(r.deep_view() =~= before.push(fv));
                    assert(d.take(i + 1).map_values(|l: Seq<char>| nth_field(l, n as int))
                        =~= d.take(i as int).map_values(|l: Seq<char>| nth_field(l, n as int)).push(
                        nth_field(d[i as int], n as int),
                    ));
                    i = i + 1;
                }
                assert(d.take(i as int) =~= d);
                r
            },
        }
    }
}

/// With the NUL delimiter and no field selection, the choices joined again with NUL
/// characters are the input.
pub proof fn lemma_nul_choices_roundtrip(input: Seq<char>)
    ensures
        join_with(dmenu_choices(DmenuArgs { nul_delimiter: true, with_nth: None }, input), '\0') == input,
{
    lemma_join_split(input, '\0');
}

/// Field 0 of a line without tabs is the whole line.
pub proof fn lemma_first_field_without_tabs(line: Seq<char>)
    requires
        !line.contains('\t'),
    ensures
        nth_field(line, 0) == line,
{
    lemma_split_without_delimiter(line, '\t');
}

/// The score of a choice for a query: 1 for every choice while the query is empty,
/// else its fuzzy score, or -1 where it does not match.
pub open spec fn dmenu_score(penalty: Option<i32>, text: Seq<char>, query: Seq<char>) -> i64 {
    if query.len() == 0 {
        1
    } else {
        score_or(skim_fuzzy_match(penalty, text, query), -1) as i64
    }
}

/// The dmenu list: each choice with its score, and the selected position among the
/// listed choices.
pub struct DmenuModel {
    texts: Vec<String>,
    scores: Vec<i64>,
    matcher: Matcher,
    selected: Option<usize>,
}

impl DmenuModel {
    pub closed spec fn spec_texts(&self) -> Seq<Seq<char>> {
        self.texts.deep_view()
    }

    pub closed spec fn spec_scores(&self) -> Seq<i64> {
        self.scores@
    }

    pub closed spec fn spec_matcher(&self) -> Option<i32> {
        self.matcher@
    }

    pub closed spec fn spec_selected(&self) -> Option<usize> {
        self.selected
    }

    /// The model's parts agree: one score per choice.
    pub closed spec fn wf(&self) -> bool {
        self.texts.len() == self.scores.len()
    }

    /// The choices, each with score 1, the first one selected.
    pub fn new(strings: Vec<String>) -> (m: Self)
        ensures
            m.wf(),
            m.spec_texts() == strings.deep_view(),
            m.spec_scores().len() == strings.len(),
            forall|k: int| 0 <= k < strings.len() ==> #[trigger] m.spec_scores()[k] == 1,
            ranking_of(m.spec_scores()) == Seq::new(strings.len() as nat, |i: int| i as usize),
            m.spec_matcher() == None::<i32>,
            m.spec_selected() == if strings.len() > 0 {
                Some(0usize)
            } else {
                None
            },
    {
        let mut scores: Vec<i64> = Vec::new();
        let mut i: usize = 0;
        while i < strings.len()
            invariant
                i <= strings.len(),
                scores.len() == i,
                forall|k: int| 0 <= k < i ==> #[trigger] scores@[k] == 1,
            decreases strings.len() - i,
        {
            scores.push(1);
            i = i + 1;
        }
        let selected = if strings.len() > 0 {
            Some(0)
        } else {
            None
        };
        proof {
            lemma_equal_scores_keep_order(scores@, 1);
        }
        DmenuModel { texts: strings, scores, matcher: Matcher::case_insensitive(), selected }
    }

    /// The positions of the listed choices, in the order in which they are shown.
    pub fn results(&self) -> (r: Vec<usize>)
        ensures
            is_ranking(self.spec_scores(), r@),
            r@ == ranking_of(self.spec_scores()),
    {
        rank_by_score(&self.scores)
    }

    /// The choice at a position.
    pub fn text(&self, index: usize) -> (t: &String)
        requires
            self.wf(),
            index < self.spec_texts().len(),
        ensures
            t@ == self.spec_texts()[index as int],
    {
        &self.texts[index]
    }

    /// The number of choices.
    pub fn len(&self) -> (n: usize)
        ensures
            n == self.spec_texts().len(),
    {
        self.texts.len()
    }

    /// Selects a position among the listed choices (or nothing).
    pub fn set_selected(&mut self, position: Option<usize>)
        ensures
            final(self).spec_selected() == position,
            final(self).spec_texts() == old(self).spec_texts(),
            final(self).spec_scores() == old(self).spec_scores(),
            final(self).spec_matcher() == old(self).spec_matcher(),
            final(self).wf() == old(self).wf(),
    {
        self.selected = position;
    }

    /// Handles a message: a new query scores every choice and selects the first listed
    /// one; confirming outputs the selected choice.
    pub fn update(&mut self, message: ModeMsg) -> (out: Option<AppMsg>)
        requires
            old(self).wf(),
        ensures
            final(self).wf(),
            final(self).spec_texts() == old(self).spec_texts(),
            final(self).spec_matcher() == old(self).spec_matcher(),
            match message {
                ModeMsg::SetQueryString(q) => {
                    &&& out is None
                    &&& forall|k: int|
                        0 <= k < old(self).spec_texts().len() ==> #[trigger] final(self).spec_scores()[k]
                            == dmenu_score(old(self).spec_matcher(), old(self).spec_texts()[k], q@)
                    &&& final(self).spec_scores().len() == old(self).spec_texts().len()
                    &&& final(self).spec_selected() == if ranking_of(final(self).spec_scores()).len() > 0 {
                        Some(0usize)
                    } else {
                        None
                    }
                },
                ModeMsg::ActivateCurrent => {
                    let listed = ranking_of(old(self).spec_scores());
                    &&& final(self).spec_scores() == old(self).spec_scores()
                    &&& final(self).spec_selected() == old(self).spec_selected()
                    &&& if old(self).spec_selected() is Some && old(self).spec_selected()->0 < listed.len() {
                        out matches Some(AppMsg::TextOutput { text, notify }) && !notify && text@
                            == old(self).spec_texts()[listed[old(self).spec_selected()->0 as int] as int]
                    } else {
                        out is None
                    }
                },
                _ => {
                    &&& out is None
                    &&& final(self).spec_scores() == old(self).spec_scores()
                    &&& final(self).spec_selected() == old(self).spec_selected()
                },
            },
    {
        match message {
            ModeMsg::SetQueryString(query) => {
                let empty = query.as_str().is_empty();
                let mut i: usize = 0;
                while i < self.texts.len()
                    invariant
                        i <= self.texts.len(),
                        self.texts.len() == self.scores.len(),
                        self.texts == old(self).texts,
                        self.matcher@ == old(self).matcher@,
                        empty == (query@.len() == 0),
                        forall|k: int|
                            0 <= k < i ==> #[trigger] self.scores@[k] == dmenu_score(
                                self.matcher@,
                                self.texts.deep_view()[k],
                                query@,
                            ),
                    decreases self.texts.len() - i,
                {
                    let score: i64 = if empty {
                        1
                    } else {
                        match self.matcher.fuzzy_match(self.texts[i].as_str(), query.as_str()) {
                            Some(s) => s,
                            None => -1,
                        }
                    };
                    assert(self.texts.deep_view()[i as int] == self.texts@[i as int]@);
                    self.scores.set(i, score);
                    i = i + 1;
                }
                let ranked = rank_by_score(&self.scores);
                self.selected = if ranked.len() > 0 {
                    Some(0)
                } else {
                    None
                };
                None
            },
            ModeMsg::ActivateCurrent => {
                let ranked = rank_by_score(&self.scores);
                match self.selected {
                    Some(p) => {
                        if p < ranked.len() {
                            let index = ranked[p];
                            Some(AppMsg::TextOutput { text: self.texts[index].clone(), notify: false })
                        } else {
                            None
                        }
                    },
                    None => None,
                }
            },
            _ => None,
        }
    }
}

} // verus!
