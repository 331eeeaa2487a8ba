//! Text helpers over the character view of strings.
use vstd::prelude::*;

verus! {

/// Appends one character to a string (`String::push`). Claimed: the string
/// afterwards is the one before with `c` at its end.
#[verifier::external_body]
pub(crate) fn push_char(s: &mut String, c: char)
    ensures
        final(s)@ == old(s)@.push(c),
{
    s.push(c);
}

/// The characters of a string, in order.
pub fn chars_of(s: &str) -> (v: Vec<char>)
    ensures
        v@ == s@,
{
    let mut v: Vec<char> = Vec::new();
    for c in it: s.chars()
        invariant
            v@ == it.seq().take(it.index() as int),
    {
        v.push(c);
    }
    v
}

/// A string made of the given characters.
pub fn string_of(cs: &Vec<char>) -> (s: String)
    ensures
        s@ == cs@,
{
    let mut s = String::new();
    let mut i: usize = 0;
    while i < cs.len()
        invariant
            i <= cs.len(),
            s@ == cs@.take(i as int),
        decreases cs.len() - i,
    {
        push_char(&mut s, cs[i]);
        i = i + 1;
        assert(cs@.take(i as int) =~= cs@.take((i - 1) as int).push(cs@[i - 1]));
    }
    assert(cs@.take(i as int) =~= cs@);
    s
}

/// Whether `s` begins with the character `c`.
pub open spec fn starts_with(s: Seq<char>, c: char) -> bool {
    s.len() > 0 && s[0] == c
}

/// Tests whether the first character of `s` is `c`.
pub fn starts_with_char(s: &str, c: char) -> (b: bool)
    ensures
        b == starts_with(s@, c),
{
    if s.unicode_len() == 0 {
        false
    } else {
        s.get_char(0) == c
    }
}

/// The code of a character after ASCII lower-casing: `A`..`Z` map to `a`..`z`,
/// every other character keeps its code.
pub open spec fn ascii_lower_code(c: char) -> u32 {
    if 'A' <= c && c <= 'Z' {
        (c as u32 + 32) as u32
    } else {
        c as u32
    }
}

/// Two character sequences are equal when ASCII letters are compared without regard
/// to case (`str::eq_ignore_ascii_case`).
pub open spec fn equal_ignoring_ascii_case(a: Seq<char>, b: Seq<char>) -> bool {
    a.len() == b.len() && forall|i: int|
        0 <= i < a.len() ==> #[trigger] ascii_lower_code(a[i]) == ascii_lower_code(b[i])
}

fn lower_code(c: char) -> (r: u32)
    ensures
        r == ascii_lower_code(c),
{
    if 'A' <= c && c <= 'Z' {
        c as u32 + 32
    } else {
        c as u32
    }
}

/// Compares two strings, ignoring the case of ASCII letters.
pub fn eq_ignore_ascii_case(a: &str, b: &str) -> (r: bool)
    ensures
        r == equal_ignoring_ascii_case(a@, b@),
{
    let va = chars_of(a);
    let vb = chars_of(b);
    if va.len() != vb.len() {
        return false;
    }
    let mut i: usize = 0;
    while i < va.len()
        invariant
            va@ == a@,
            vb@ == b@,
            va.len() == vb.len(),
            i <= va.len(),
            forall|j: int| 0 <= j < i ==> #[trigger] ascii_lower_code(a@[j]) == ascii_lower_code(b@[j]),
        decreases va.len() - i,
    {
        if lower_code(va[i]) != lower_code(vb[i]) {
            return false;
        }
        i = i + 1;
    }
    true
}

/// Comparing without regard to ASCII case is reflexive and symmetric.
pub proof fn lemma_equal_ignoring_ascii_case(a: Seq<char>, b: Seq<char>)
    ensures
        equal_ignoring_ascii_case(a, a),
        equal_ignoring_ascii_case(a, b) == equal_ignoring_ascii_case(b, a),
{
}

/// The pieces of `s` between occurrences of the delimiter `d` (`str::split`): each
/// delimiter starts a new piece and every other character extends the last one, so
/// there is always at least one piece.
pub open spec fn split_on(s: Seq<char>, d: char) -> Seq<Seq<char>>
    decreases s.len(),
{
    if s.len() == 0 {
        seq![Seq::<char>::empty()]
    } else {
        let prev = split_on(s.drop_last(), d);
        if s.last() == d {
            prev.push(Seq::<char>::empty())
        } else {
            prev.update(prev.len() - 1, prev.last().push(s.last()))
        }
    }
}

/// The pieces put back together with `d` between neighbours.
pub open spec fn join_with(pieces: Seq<Seq<char>>, d: char) -> Seq<char>
    decreases pieces.len(),
{
    if pieces.len() == 0 {
        Seq::<char>::empty()
    } else if pieces.len() == 1 {
        pieces[0]
    } else {
        join_with(pieces.drop_last(), d) + seq![d] + pieces.last()
    }
}

pub proof fn lemma_split_nonempty(s: Seq<char>, d: char)
    ensures
        split_on(s, d).len() >= 1,
    decreases s.len(),
{
    if s.len() > 0 {
        lemma_split_nonempty(s.drop_last(), d);
    }
}

proof fn lemma_join_extend_last(q: Seq<Seq<char>>, c: char, d: char)
    requires
        q.len() >= 1,
    ensures
        join_with(q.update(q.len() - 1, q.last().push(c)), d) =~= join_with(q, d).push(c),
{
    let r = q.update(q.len() - 1, q.last().push(c));
    if q.len() > 1 {
        assert(r.drop_last() =~= q.drop_last());
    }
}

/// Splitting at a delimiter and joining the pieces with it gives the text back.
pub proof fn lemma_join_split(s: Seq<char>, d: char)
    ensures
        join_with(split_on(s, d), d) == s,
    decreases s.len(),
{
    if s.len() == 0 {
    } else {
        let prev = split_on(s.drop_last(), d);
        lemma_join_split(s.drop_last(), d);
        lemma_split_nonempty(s.drop_last(), d);
        if s.last() == d {
            let r = prev.push(Seq::<char>::empty());
            assert(r.drop_last() =~= prev);
            assert(join_with(r, d) =~= s);
        } else {
            lemma_join_extend_last(prev, s.last(), d);
            assert(s =~= s.drop_last().push(s.last()));
        }
    }
}

/// Splits a string at every occurrence of `d`.
pub fn split_at_char(s: &str, d: char) -> (pieces: Vec<String>)
    ensures
        pieces.deep_view() == split_on(s@, d),
{
    let cs = chars_of(s);
    let mut pieces: Vec<String> = Vec::new();
    let mut current = String::new();
    let mut i: usize = 0;
    while i < cs.len()
        invariant
            cs@ == s@,
            i <= cs.len(),
            pieces.deep_view().push(current@) == split_on(cs@.take(i as int), d),
        decreases cs.len() - i,
    {
        let c = cs[i];
        let ghost done = cs@.take(i as int);
        let ghost next = cs@.take(i + 1);
        proof {
            assert(next.drop_last() =~= done);
            lemma_split_nonempty(done, d);
        }
        if c == d {
            let piece = current;
            pieces.push(piece);
            current = String::new();
            assert(pieces.deep_view().push(current@) =~= split_on(next, d));
        } else {
            push_char(&mut current, c);
            assert(pieces.deep_view().push(current@) =~= split_on(next, d));
        }
        i = i + 1;
    }
    assert(cs@.take(i as int) =~= s@);
    let ghost before = pieces.deep_view();
    pieces.push(current);
    assert(pieces.deep_view() =~= before.push(current@));
    pieces
}

/// A line without its carriage return: one `\r` at the end is removed.
pub open spec fn strip_carriage_return(l: Seq<char>) -> Seq<char> {
    if l.len() > 0 && l.last() == '\r' {
        l.drop_last()
    } else {
        l
    }
}

/// The lines of a text as `BufRead::lines` yields them: the text is split at `\n`;
/// a line that was ended by `\n` loses one `\r` before it; an empty text after the
/// last `\n` is no line.
pub open spec fn lines_of(s: Seq<char>) -> Seq<Seq<char>> {
    let p = split_on(s, '\n');
    let ended = p.drop_last().map_values(|l: Seq<char>| strip_carriage_return(l));
    if p.last().len() == 0 {
        ended
    } else {
        ended.push(p.last())
    }
}

fn without_carriage_return(l: &str) -> (r: String)
    ensures
        r@ == strip_carriage_return(l@),
{
    let mut cs = chars_of(l);
    if cs.len() > 0 && cs[cs.len() - 1] == '\r' {
        cs.pop();
        assert(cs@ =~= l@.drop_last());
    }
    string_of(&cs)
}

/// Splits a text into lines, like `BufRead::lines` on a reader of that text.
pub fn split_lines(s: &str) -> (lines: Vec<String>)
    ensures
        lines.deep_view() == lines_of(s@),
{
    let pieces = split_at_char(s, '\n');
    proof {
        lemma_split_nonempty(s@, '\n');
    }
    let ghost p = split_on(s@, '\n');
    let ghost ended = p.drop_last().map_values(|l: Seq<char>| strip_carriage_return(l));
    let mut lines: Vec<String> = Vec::new();
    let last = pieces.len() - 1;
    let mut i: usize = 0;
    while i < last
        invariant
            pieces.deep_view() == p,
            p.len() >= 1,
            last == p.len() - 1,
            ended == p.drop_last().map_values(|l: Seq<char>| strip_carriage_return(l)),
            i <= last,
            lines.deep_view() == ended.take(i as int),
        decreases last - i,
    {
        let line = without_carriage_return(pieces[i].as_str());
        assert(pieces.deep_view()[i as int] == pieces@[i as int]@);
        assert(ended[i as int] == strip_carriage_return(p[i as int]));
        let ghost before = lines.deep_view();
        let ghost lv = line@;
        lines.push(line);
        assert(lines.deep_view() =~= before.push(lv));
        assert(ended.take(i + 1) =~= ended.take(i as int).push(ended[i as int]));
        i = i + 1;
    }
    assert(ended.take(i as int) =~= ended);
    if pieces[last].as_str().is_empty() {
        lines
    } else {
        let rest = pieces[last].clone();
        let ghost before = lines.deep_view();
        lines.push(rest);
        assert(lines.deep_view() =~= before.push(p.last()));
        lines
    }
}

/// Field `n` of a line split at tabs, or the whole line where it has fewer fields
/// (`line.split('\t').nth(n)`, falling back to the line).
pub open spec fn nth_field(line: Seq<char>, n: int) -> Seq<char> {
    let fields = split_on(line, '\t');
    if 0 <= n < fields.len() {
        fields[n]
    } else {
        line
    }
}

/// Field `n` of a tab-separated line, or the line itself.
pub fn field_or_line(line: &str, n: usize) -> (r: String)
    ensures
        r@ == nth_field(line@, n as int),
{
    let mut fields = split_at_char(line, '\t');
    if n < fields.len() {
        let ghost fv = fields.deep_view();
        let r = fields.swap_remove(n);
        assert(r@ == fv[n as int]);
        r
    } else {
        line.to_owned()
    }
}

/// A text without the delimiter is a single piece.
pub proof fn lemma_split_without_delimiter(s: Seq<char>, d: char)
    requires
        !s.contains(d),
    ensures
        split_on(s, d) == seq![s],
    decreases s.len(),
{
    if s.len() > 0 {
        let t = s.drop_last();
        assert forall|k: int| 0 <= k < t.len() implies t[k] != d by {
            assert(s[k] == t[k]);
        }
        lemma_split_without_delimiter(t, d);
        assert(s.last() != d) by {
            assert(s[s.len() - 1] == s.last());
        }
        assert(t.push(s.last()) =~= s);
        assert(seq![t].update(0, t.push(s.last())) =~= seq![s]);
    } else {
        assert(s =~= Seq::<char>::empty());
    }
}

/// A character that the text does not hold is in none of its pieces.
pub proof fn lemma_split_pieces_avoid(s: Seq<char>, d: char, c: char)
    requires
        !s.contains(c),
    ensures
        forall|k: int| 0 <= k < split_on(s, d).len() ==> !(#[trigger] split_on(s, d)[k]).contains(c),
    decreases s.len(),
{
    if s.len() > 0 {
        let t = s.drop_last();
        assert(!t.contains(c)) by {
            if t.contains(c) {
                let j = choose|j: int| 0 <= j < t.len() && t[j] == c;
                assert(s[j] == c);
            }
        }
        lemma_split_pieces_avoid(t, d, c);
        lemma_split_nonempty(t, d);
        let prev = split_on(t, d);
        if s.last() != d {
            let ext = prev.last().push(s.last());
            assert(s.last() != c) by {
                assert(s[s.len() - 1] == s.last());
            }
            assert(!ext.contains(c)) by {
                if ext.contains(c) {
                    let j = choose|j: int| 0 <= j < ext.len() && ext[j] == c;
                    if j < prev.last().len() {
                        assert(prev[prev.len() - 1][j] == c);
                        assert(prev[prev.len() - 1].contains(c));
                    }
                }
            }
        } else {
            assert(!Seq::<char>::empty().contains(c));
        }
    }
}

/// Without carriage returns, the lines joined again with newlines are the text,
/// but for one final newline.
pub proof fn lemma_lines_roundtrip(s: Seq<char>)
    requires
        !s.contains('\r'),
    ensures
        if s.len() > 0 && s.last() == '\n' {
            join_with(lines_of(s), '\n') + seq!['\n'] == s
        } else {
            join_with(lines_of(s), '\n') == s
        },
{
    let p = split_on(s, '\n');
    lemma_split_nonempty(s, '\n');
    lemma_join_split(s, '\n');
    lemma_split_pieces_avoid(s, '\n', '\r');
    let ended = p.drop_last().map_values(|l: Seq<char>| strip_carriage_return(l));
    assert forall|k: int| 0 <= k < ended.len() implies ended[k] == p[k] by {
        assert(!p[k].contains('\r'));
        if p[k].len() > 0 {
            assert(p[k][p[k].len() - 1] == p[k].last());
        }
    }
    assert(ended =~= p.drop_last());
    if s.len() > 0 && s.last() == '\n' {
        let prev = split_on(s.drop_last(), '\n');
        lemma_split_nonempty(s.drop_last(), '\n');
        assert(p == prev.push(Seq::<char>::empty()));
        assert(p.drop_last() =~= prev);
        assert(join_with(p, '\n') == join_with(prev, '\n') + seq!['\n'] + Seq::<char>::empty());
        assert(join_with(lines_of(s), '\n') + seq!['\n'] =~= s);
    } else if p.last().len() == 0 {
        // then the text is empty
        if s.len() > 0 {
            let prev = split_on(s.drop_last(), '\n');
            lemma_split_nonempty(s.drop_last(), '\n');
            assert(p.last() == prev.last().push(s.last()));
        }
        assert(p.len() == 1);
        assert(lines_of(s) =~= Seq::<Seq<char>>::empty());
    } else {
        assert(lines_of(s) =~= p);
    }
}

} // verus!
