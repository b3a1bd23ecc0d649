//! The report of a reconciliation: one line of text for every addition,
//! removal and change, in that order.

use crate::kv::{texts, triples};
use vstd::prelude::*;
use vstd::string::StringExecFns;

verus! {

/// What a line of the report tells of.
#[derive(Debug, Clone, Copy, PartialEq, Eq, Structural)]
pub enum LineKind {
    /// A key that only the current mapping has.
    Added,
    /// A key that only the reference mapping has.
    Removed,
    /// A key whose value differs.
    Changed,
}

/// The line for an added key.
pub open spec fn added_line(key: Seq<char>) -> Seq<char> {
    "+ "@ + key + " added"@
}

/// The line for a removed key.
pub open spec fn removed_line(key: Seq<char>) -> Seq<char> {
    "- "@ + key + " removed"@
}

/// The line for a change: the key, the value it had and the value it has.
pub open spec fn changed_line(change: (Seq<char>, Seq<char>, Seq<char>)) -> Seq<char> {
    "~ changed: "@ + change.0 + " "@ + change.1 + " → "@ + change.2
}

/// The report of a reconciliation: the lines of the additions, then those
/// of the removals, then those of the changes, each list in its order.
pub open spec fn report_of(
    additions: Seq<Seq<char>>,
    removals: Seq<Seq<char>>,
    changes: Seq<(Seq<char>, Seq<char>, Seq<char>)>,
) -> Seq<(LineKind, Seq<char>)> {
    Seq::new(additions.len(), |i: int| (LineKind::Added, added_line(additions[i]))) + Seq::new(
        removals.len(),
        |i: int| (LineKind::Removed, removed_line(removals[i])),
    ) + Seq::new(changes.len(), |i: int| (LineKind::Changed, changed_line(changes[i])))
}

/// The lines of a report, with views in place of the strings.
pub open spec fn lines_view(lines: Seq<(LineKind, String)>) -> Seq<(LineKind, Seq<char>)> {
    Seq::new(lines.len(), |i: int| (lines[i].0, lines[i].1@))
}

/// The report of a reconciliation. It is empty exactly when there is no
/// difference.
pub fn diff_report(
    additions: &Vec<String>,
    removals: &Vec<String>,
    changes: &Vec<(String, String, String)>,
) -> (lines: Vec<(LineKind, String)>)
    ensures
        lines_view(lines@) == report_of(texts(additions@), texts(removals@), triples(changes@)),
        lines@.len() == additions@.len() + removals@.len() + changes@.len(),
{
    let ghost a = texts(additions@);
    let ghost r = texts(removals@);
    let ghost c = triples(changes@);
    let ghost added = Seq::new(a.len(), |i: int| (LineKind::Added, added_line(a[i])));
    let ghost removed = Seq::new(r.len(), |i: int| (LineKind::Removed, removed_line(r[i])));
    let ghost changed = Seq::new(c.len(), |i: int| (LineKind::Changed, changed_line(c[i])));
    let mut lines: Vec<(LineKind, String)> = Vec::new();
    let mut i: usize = 0;
    while i < additions.len()
        invariant
            i <= additions@.len(),
            a == texts(additions@),
            added == Seq::new(a.len(), |i: int| (LineKind::Added, added_line(a[i]))),
            lines_view(lines@) == added.take(i as int),
        decreases additions@.len() - i,
    {
        let mut line = "+ ".to_owned();
        line.append(additions[i].as_str());
        line.append(" added");
        lines.push((LineKind::Added, line));
        assert(lines_view(lines@) == added.take(i as int).push(added[i as int]));
        assert(added.take(i + 1) == added.take(i as int).push(added[i as int]));
        i += 1;
    }
    assert(added.take(i as int) == added);
    let mut j: usize = 0;
    while j < removals.len()
        invariant
            j <= removals@.len(),
            r == texts(removals@),
            removed == Seq::new(r.len(), |i: int| (LineKind::Removed, removed_line(r[i]))),
            lines_view(lines@) == added + removed.take(j as int),
        decreases removals@.len() - j,
    {
        let mut line = "- ".to_owned();
        line.append(removals[j].as_str());
        line.append(" removed");
        lines.push((LineKind::Removed, line));
        assert(lines_view(lines@) == (added + removed.take(j as int)).push(removed[j as int]));
        assert(removed.take(j + 1) == removed.take(j as int).push(removed[j as int]));
        j += 1;
    }
    assert(removed.take(j as int) == removed);
    let mut k: usize = 0;
    while k < changes.len()
        invariant
            k <= changes@.len(),
            c == triples(changes@),
            changed == Seq::new(c.len(), |i: int| (LineKind::Changed, changed_line(c[i]))),
            lines_view(lines@) == added + removed + changed.take(k as int),
        decreases changes@.len() - k,
    {
        let mut line = "~ changed: ".to_owned();
        line.append(changes[k].0.as_str());
        line.append(" ");
        line.append(changes[k].1.as_str());
        line.append(" → ");
        line.append(changes[k].2.as_str());
        lines.push((LineKind::Changed, line));
        assert(lines_view(lines@) == (added + removed + changed.take(k as int)).push(
            changed[k as int],
        ));
        assert(changed.take(k + 1) == changed.take(k as int).push(changed[k as int]));
        k += 1;
    }
    assert(changed.take(k as int) == changed);
    lines
}

} // verus!
