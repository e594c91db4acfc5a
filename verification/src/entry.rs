//! The lines of a block list.
//!
//! A line names one domain. A leading `*.` makes it a wildcard entry, which
//! covers every name below the rest of the line, the anchor; any other line is
//! an exact entry, which covers that one name.

use vstd::prelude::*;
use crate::name::{canonical, canonical_chars, chars_of, labels, split, Name};

verus! {

/// What an entry says, over label sequences.
pub enum EntrySpec {
    /// This very name is listed.
    Exact(Seq<Seq<char>>),
    /// Every name strictly below this anchor is listed.
    Wildcard(Seq<Seq<char>>),
}

impl EntrySpec {
    /// Whether the entry is a wildcard without labels. Its anchor would be
    /// the root, so it lists nothing.
    pub open spec fn is_void(self) -> bool {
        match self {
            EntrySpec::Exact(_) => false,
            EntrySpec::Wildcard(n) => n.len() == 0,
        }
    }
}

/// One entry of a block list.
#[derive(Debug, PartialEq, Eq)]
pub enum ListEntry {
    /// This very name is listed.
    Exact(Name),
    /// Every name strictly below this anchor is listed.
    Wildcard(Name),
}

impl View for ListEntry {
    type V = EntrySpec;

    open spec fn view(&self) -> EntrySpec {
        match self {
            ListEntry::Exact(n) => EntrySpec::Exact(n@),
            ListEntry::Wildcard(n) => EntrySpec::Wildcard(n@),
        }
    }
}

/// Why a line yields no entry.
#[derive(Clone, Copy, Debug, PartialEq, Eq, Structural)]
pub enum Skipped {
    /// The line is empty.
    Blank,
    /// The line holds nothing but white space, or is a wildcard without an anchor.
    Malformed,
}

/// ASCII white space.
pub open spec fn is_space(c: char) -> bool {
    c == ' ' || c == '\t' || c == '\n' || c == '\r' || c == '\u{c}'
}

/// Whether every character of the line is white space.
pub open spec fn all_space(line: Seq<char>) -> bool {
    forall|i: int| 0 <= i < line.len() ==> is_space(#[trigger] line[i])
}

/// Whether a canonical line begins with the wildcard mark `*.`.
pub open spec fn has_wildcard_mark(c: Seq<char>) -> bool {
    c.len() >= 2 && c[0] == '*' && c[1] == '.'
}

/// The entry that a line stands for, or the reason why it stands for none.
pub open spec fn parse_line(line: Seq<char>) -> Result<EntrySpec, Skipped> {
    let c = canonical(line);
    if line.len() == 0 {
        Err(Skipped::Blank)
    } else if all_space(line) {
        Err(Skipped::Malformed)
    } else if has_wildcard_mark(c) {
        if labels(c.skip(2)).len() == 0 {
            Err(Skipped::Malformed)
        } else {
            Ok(EntrySpec::Wildcard(labels(c.skip(2))))
        }
    } else {
        Ok(EntrySpec::Exact(labels(c)))
    }
}

/// The lines of the contents of a list file: the pieces between line feeds.
pub open spec fn lines_of(contents: Seq<char>) -> Seq<Seq<char>> {
    split(contents, '\n')
}

/// The entries that the lines stand for, in order; lines that stand for none
/// are passed over.
pub open spec fn entries_of(lines: Seq<Seq<char>>) -> Seq<EntrySpec>
    decreases lines.len(),
{
    if lines.len() == 0 {
        Seq::<EntrySpec>::empty()
    } else {
        match parse_line(lines.last()) {
            Ok(e) => entries_of(lines.drop_last()).push(e),
            Err(_) => entries_of(lines.drop_last()),
        }
    }
}

/// The positions of the malformed lines, in order, counted from 0.
pub open spec fn malformed_of(lines: Seq<Seq<char>>) -> Seq<int>
    decreases lines.len(),
{
    if lines.len() == 0 {
        Seq::<int>::empty()
    } else if parse_line(lines.last()) == Err::<EntrySpec, Skipped>(Skipped::Malformed) {
        malformed_of(lines.drop_last()).push(lines.len() - 1)
    } else {
        malformed_of(lines.drop_last())
    }
}

/// The entries of a list are those that its lines stand for, and no other;
/// none of them is a wildcard without labels.
pub proof fn law_entries_of_lines(lines: Seq<Seq<char>>, e: EntrySpec)
    ensures
        entries_of(lines).contains(e) <==> exists|i: int|
            0 <= i < lines.len() && parse_line(#[trigger] lines[i]) == Ok::<EntrySpec, Skipped>(e),
        entries_of(lines).contains(e) ==> !(e matches EntrySpec::Wildcard(n) && n.len() == 0),
    decreases lines.len(),
{
    if lines.len() > 0 {
        let init = lines.drop_last();
        law_entries_of_lines(init, e);
        let es = entries_of(lines);
        let before = entries_of(init);
        if exists|i: int|
            0 <= i < lines.len() && parse_line(#[trigger] lines[i]) == Ok::<EntrySpec, Skipped>(e) {
            let i = choose|i: int|
                0 <= i < lines.len() && parse_line(#[trigger] lines[i]) == Ok::<
                    EntrySpec,
                    Skipped,
                >(e);
            if i < init.len() {
                assert(init[i] == lines[i]);
                let k = choose|k: int| 0 <= k < before.len() && before[k] == e;
                assert(es[k] == e);
            } else {
                assert(es[es.len() - 1] == e);
            }
        }
    }
}

/// What `ListEntry::parse` returns for a line, as a relation.
pub open spec fn parsed_as(line: Seq<char>, r: Result<ListEntry, Skipped>) -> bool {
    match r {
        Ok(e) => parse_line(line) == Ok::<EntrySpec, Skipped>(e@),
        Err(s) => parse_line(line) == Err::<EntrySpec, Skipped>(s),
    }
}

/// Tells ASCII white space from other characters.
pub fn is_space_char(c: char) -> (r: bool)
    ensures
        r == is_space(c),
{
    c == ' ' || c == '\t' || c == '\n' || c == '\r' || c == '\u{c}'
}

/// Whether the line holds nothing but white space.
pub fn is_all_space(line: &Vec<char>) -> (r: bool)
    ensures
        r == all_space(line@),
{
    let mut i: usize = 0;
    while i < line.len()
        invariant
            i <= line@.len(),
            forall|k: int| 0 <= k < i ==> is_space(#[trigger] line@[k]),
        decreases line@.len() - i,
    {
        if !is_space_char(line[i]) {
            return false;
        }
        i += 1;
    }
    true
}

impl ListEntry {
    /// Reads one line of a block list.
    pub fn parse(line: &str) -> (r: Result<ListEntry, Skipped>)
        ensures
            parsed_as(line@, r),
    {
        let chars = chars_of(line);
        ListEntry::from_chars(&chars)
    }

    /// Reads one line of a block list from its characters.
    pub fn from_chars(line: &Vec<char>) -> (r: Result<ListEntry, Skipped>)
        ensures
            parsed_as(line@, r),
    {
        if line.len() == 0 {
            return Err(Skipped::Blank);
        }
        if is_all_space(line) {
            return Err(Skipped::Malformed);
        }
        let c = canonical_chars(line);
        if c.len() >= 2 && c[0] == '*' && c[1] == '.' {
            let anchor = Name::from_canonical(&c, 2);
            if anchor.len() == 0 {
                Err(Skipped::Malformed)
            } else {
                Ok(ListEntry::Wildcard(anchor))
            }
        } else {
            proof {
                assert(c@.skip(0) == c@);
            }
            Ok(ListEntry::Exact(Name::from_canonical(&c, 0)))
        }
    }
}

} // verus!
