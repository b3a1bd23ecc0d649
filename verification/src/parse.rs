//! The parser of the flat `key=value` text of a secrets file.
//!
//! The text is read line by line. A line is trimmed; an empty line and a
//! line that starts with `#` are skipped; a line without `=` is skipped
//! too. Any other line is split at its first `=` into a key and a value,
//! each of them trimmed and otherwise left as it is. Where a key occurs
//! more than once, the last occurrence wins.

use crate::kv::EnvMap;
use crate::text::{string_of, trim, trim_range, chars_of};
use vstd::prelude::*;

verus! {

/// The lines of `text`: the stretches between its line feeds. There is
/// always at least one line, which is empty for the empty text.
pub open spec fn split_lines(text: Seq<char>) -> Seq<Seq<char>>
    decreases text.len(),
{
    if text.len() == 0 {
        seq![Seq::<char>::empty()]
    } else {
        let lines = split_lines(text.drop_last());
        if text.last() == '\n' {
            lines.push(Seq::<char>::empty())
        } else {
            lines.drop_last().push(lines.last().push(text.last()))
        }
    }
}

/// The place of the first `c` in `s`, or the length of `s` where there is
/// none.
pub open spec fn position(s: Seq<char>, c: char) -> int
    decreases s.len(),
{
    if s.len() == 0 || s.first() == c {
        0
    } else {
        1 + position(s.drop_first(), c)
    }
}

/// The key and the value that a line gives, if it gives any.
pub open spec fn entry_of(line: Seq<char>) -> Option<(Seq<char>, Seq<char>)> {
    let t = trim(line);
    let at = position(t, '=');
    if t.len() == 0 || t.first() == '#' || at == t.len() {
        None
    } else {
        Some((trim(t.take(at)), trim(t.skip(at + 1))))
    }
}

/// The mapping `m` after one more line.
pub open spec fn apply_line(m: Map<Seq<char>, Seq<char>>, line: Seq<char>) -> Map<
    Seq<char>,
    Seq<char>,
> {
    match entry_of(line) {
        Some((k, v)) => m.insert(k, v),
        None => m,
    }
}

/// The mapping that a sequence of lines gives, from the first to the last.
pub open spec fn parse_lines(lines: Seq<Seq<char>>) -> Map<Seq<char>, Seq<char>>
    decreases lines.len(),
{
    if lines.len() == 0 {
        Map::empty()
    } else {
        apply_line(parse_lines(lines.drop_last()), lines.last())
    }
}

/// The mapping that a text gives.
pub open spec fn parse_text(text: Seq<char>) -> Map<Seq<char>, Seq<char>> {
    parse_lines(split_lines(text))
}

/// A key and a value, if there are any, with views in place of the strings.
pub open spec fn entry_view(e: Option<(String, String)>) -> Option<(Seq<char>, Seq<char>)> {
    match e {
        Some((k, v)) => Some((k@, v@)),
        None => None,
    }
}

/// The key and the value that the line from `lo` up to `hi` gives.
pub fn parse_entry(chars: &Vec<char>, lo: usize, hi: usize) -> (e: Option<(String, String)>)
    requires
        lo <= hi <= chars.len(),
    ensures
        entry_view(e) == entry_of(chars@.subrange(lo as int, hi as int)),
{
    let (a, b) = trim_range(chars, lo, hi);
    let ghost t = chars@.subrange(a as int, b as int);
    if a == b || chars[a] == '#' {
        return None;
    }
    assert(t.skip(0) == t);
    let mut p: usize = a;
    while p < b && chars[p] != '='
        invariant
            a <= p <= b <= chars.len(),
            t == chars@.subrange(a as int, b as int),
            position(t, '=') == (p - a) + position(t.skip(p - a), '='),
        decreases b - p,
    {
        assert(t.skip(p - a).drop_first() == t.skip(p - a + 1));
        p += 1;
    }
    if p == b {
        return None;
    }
    let (ka, kb) = trim_range(chars, a, p);
    let (va, vb) = trim_range(chars, p + 1, b);
    proof {
        assert(t.take(p - a) == chars@.subrange(a as int, p as int));
        assert(t.skip(p - a + 1) == chars@.subrange(p + 1, b as int));
    }
    Some((string_of(chars, ka, kb), string_of(chars, va, vb)))
}

/// Takes the line from `lo` up to `hi` into `map`.
fn add_line(map: &mut EnvMap, chars: &Vec<char>, lo: usize, hi: usize)
    requires
        lo <= hi <= chars.len(),
    ensures
        final(map)@ == apply_line(old(map)@, chars@.subrange(lo as int, hi as int)),
{
    match parse_entry(chars, lo, hi) {
        Some((key, value)) => {
            map.insert(key, value);
        },
        None => {},
    }
}

/// Parses the text of a secrets file into its mapping.
pub fn parse_env(content: &str) -> (m: EnvMap)
    ensures
        m@ == parse_text(content@),
{
    let chars = chars_of(content);
    let n: usize = chars.len();
    let mut map = EnvMap::new();
    let ghost mut done: Seq<Seq<char>> = Seq::empty();
    let mut start: usize = 0;
    let mut i: usize = 0;
    proof {
        assert(chars@.subrange(0, 0) == Seq::<char>::empty());
    }
    while i < n
        invariant
            start <= i <= n == chars.len(),
            split_lines(chars@.take(i as int)) == done.push(
                chars@.subrange(start as int, i as int),
            ),
            map@ == parse_lines(done),
        decreases n - i,
    {
        proof {
            assert(chars@.take(i + 1).drop_last() == chars@.take(i as int));
            assert(done.push(chars@.subrange(start as int, i as int)).drop_last() == done);
        }
        if chars[i] == '\n' {
            add_line(&mut map, &chars, start, i);
            proof {
                done = done.push(chars@.subrange(start as int, i as int));
                assert(chars@.subrange(i + 1, i + 1) == Seq::<char>::empty());
            }
            start = i + 1;
        } else {
            proof {
                assert(chars@.subrange(start as int, i as int).push(chars@[i as int])
                    == chars@.subrange(start as int, i + 1));
            }
        }
        i += 1;
    }
    add_line(&mut map, &chars, start, n);
    proof {
        assert(chars@.take(n as int) == chars@);
        assert(done.push(chars@.subrange(start as int, n as int)).drop_last() == done);
    }
    map
}

/// The text whose lines are `lines`: the lines with a line feed between
/// each two of them.
pub open spec fn join_lines(lines: Seq<Seq<char>>) -> Seq<char>
    decreases lines.len(),
{
    if lines.len() == 0 {
        Seq::empty()
    } else if lines.len() == 1 {
        lines[0]
    } else {
        join_lines(lines.drop_last()) + seq!['\n'] + lines.last()
    }
}

/// Whether a line is blank or a comment: nothing is left of it after
/// trimming, or what is left starts with `#`.
pub open spec fn is_blank_or_comment(line: Seq<char>) -> bool {
    trim(line).len() == 0 || trim(line).first() == '#'
}

/// Whether none of the lines holds a line feed.
pub open spec fn are_lines(lines: Seq<Seq<char>>) -> bool {
    forall|i: int| 0 <= i < lines.len() ==> !(#[trigger] lines[i]).contains('\n')
}

proof fn lemma_split_single(line: Seq<char>)
    requires
        !line.contains('\n'),
    ensures
        split_lines(line) == seq![line],
    decreases line.len(),
{
    if line.len() == 0 {
        assert(line == Seq::<char>::empty());
    } else {
        let front = line.drop_last();
        lemma_split_single(front);
        assert(seq![front].drop_last().push(front.push(line.last())) == seq![line]) by {
            assert(front.push(line.last()) == line);
        }
    }
}

proof fn lemma_split_append(text: Seq<char>, line: Seq<char>)
    requires
        !line.contains('\n'),
    ensures
        split_lines(text + seq!['\n'] + line) == split_lines(text).push(line),
    decreases line.len(),
{
    let whole = text + seq!['\n'] + line;
    if line.len() == 0 {
        assert(whole.drop_last() == text);
        assert(line == Seq::<char>::empty());
    } else {
        let front = line.drop_last();
        lemma_split_append(text, front);
        assert(whole.drop_last() == text + seq!['\n'] + front);
        assert(front.push(line.last()) == line);
    }
}

/// Splitting the text that lines were joined into gives the lines back.
pub proof fn lemma_split_join(lines: Seq<Seq<char>>)
    requires
        lines.len() > 0,
        are_lines(lines),
    ensures
        split_lines(join_lines(lines)) == lines,
    decreases lines.len(),
{
    if lines.len() == 1 {
        lemma_split_single(lines[0]);
    } else {
        lemma_split_join(lines.drop_last());
        lemma_split_append(join_lines(lines.drop_last()), lines.last());
    }
}

/// The mapping of a text is the mapping of the lines it was joined from.
pub proof fn lemma_parse_joined(lines: Seq<Seq<char>>)
    requires
        are_lines(lines),
    ensures
        parse_text(join_lines(lines)) == parse_lines(lines),
{
    if lines.len() == 0 {
        let blank = seq![Seq::<char>::empty()];
        assert(parse_lines(blank.drop_last()) == Map::<Seq<char>, Seq<char>>::empty());
    } else {
        lemma_split_join(lines);
    }
}

/// A line that gives no entry contributes nothing, wherever it stands.
pub proof fn lemma_line_without_entry(
    before: Seq<Seq<char>>,
    line: Seq<char>,
    after: Seq<Seq<char>>,
)
    requires
        entry_of(line) is None,
    ensures
        parse_lines(before + seq![line] + after) == parse_lines(before + after),
    decreases after.len(),
{
    if after.len() == 0 {
        assert(before + seq![line] + after == before.push(line));
        assert(before.push(line).drop_last() == before);
    } else {
        let shorter = after.drop_last();
        lemma_line_without_entry(before, line, shorter);
        assert((before + seq![line] + after).drop_last() == before + seq![line] + shorter);
        assert((before + after).drop_last() == before + shorter);
    }
}

/// Blank lines, comments and lines without `=` give no entry.
pub proof fn lemma_skipped_lines(line: Seq<char>)
    ensures
        is_blank_or_comment(line) ==> entry_of(line) is None,
        !trim(line).contains('=') ==> entry_of(line) is None,
{
    lemma_position_absent(trim(line), '=');
}

proof fn lemma_position_absent(s: Seq<char>, c: char)
    ensures
        0 <= position(s, c) <= s.len(),
        position(s, c) < s.len() ==> s[position(s, c)] == c,
        !s.contains(c) ==> position(s, c) == s.len(),
    decreases s.len(),
{
    if s.len() > 0 && s.first() != c {
        lemma_position_absent(s.drop_first(), c);
    }
}

/// Taking out the lines that a predicate rejects changes nothing, as long
/// as every rejected line gives no entry.
pub proof fn lemma_filtered_lines(lines: Seq<Seq<char>>, keep: spec_fn(Seq<char>) -> bool)
    requires
        forall|l: Seq<char>| !(#[trigger] keep(l)) ==> entry_of(l) is None,
    ensures
        parse_lines(lines.filter(keep)) == parse_lines(lines),
    decreases lines.len(),
{
    reveal(Seq::filter);
    if lines.len() > 0 {
        let front = lines.drop_last();
        lemma_filtered_lines(front, keep);
        if keep(lines.last()) {
            assert(front.filter(keep).push(lines.last()).drop_last() == front.filter(keep));
        }
    }
}

/// A text with blank lines and comments among its lines gives the same
/// mapping as the text without them.
pub proof fn lemma_blank_and_comment_lines_ignored(lines: Seq<Seq<char>>)
    requires
        are_lines(lines),
    ensures
        parse_text(join_lines(lines)) == parse_text(
            join_lines(lines.filter(|l: Seq<char>| !is_blank_or_comment(l))),
        ),
{
    let keep = |l: Seq<char>| !is_blank_or_comment(l);
    let kept = lines.filter(keep);
    assert forall|i: int| 0 <= i < kept.len() implies !(#[trigger] kept[i]).contains('\n') by {
        lines.lemma_filter_contains_rev(keep, kept[i]);
    }
    lemma_parse_joined(lines);
    lemma_parse_joined(kept);
    assert forall|l: Seq<char>| !(#[trigger] keep(l)) implies entry_of(l) is None by {
        lemma_skipped_lines(l);
    }
    lemma_filtered_lines(lines, keep);
}

/// Whether a line gives an entry for `key`.
pub open spec fn gives_key(line: Seq<char>, key: Seq<char>) -> bool {
    match entry_of(line) {
        Some((k, _)) => k == key,
        None => false,
    }
}

/// Where a key occurs more than once, its last occurrence gives its value:
/// if line `i` gives `key` the value `value` and no later line gives an
/// entry for `key`, the mapping holds `value` for `key`.
pub proof fn lemma_last_occurrence_wins(
    lines: Seq<Seq<char>>,
    i: int,
    key: Seq<char>,
    value: Seq<char>,
)
    requires
        0 <= i < lines.len(),
        entry_of(lines[i]) == Some((key, value)),
        forall|j: int| i < j < lines.len() ==> !gives_key(#[trigger] lines[j], key),
    ensures
        parse_lines(lines).contains_key(key),
        parse_lines(lines)[key] == value,
    decreases lines.len(),
{
    if i < lines.len() - 1 {
        lemma_last_occurrence_wins(lines.drop_last(), i, key, value);
    }
}

} // verus!
