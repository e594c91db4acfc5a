//! Domain names as text and as label sequences.
//!
//! A name is canonical when its ASCII letters are lower case and it ends with
//! the root terminator `.`. Its labels are listed as they are written, from
//! the most specific one to the top-level domain; the root itself has none.

use vstd::prelude::*;

verus! {

/// Folds an ASCII upper-case letter to lower case and keeps every other character.
pub open spec fn lower_char(c: char) -> char {
    if 'A' <= c && c <= 'Z' {
        ((c as u8) + 32) as char
    } else {
        c
    }
}

/// The text with every character folded by [`lower_char`].
pub open spec fn lowercase(s: Seq<char>) -> Seq<char> {
    Seq::new(s.len(), |i: int| lower_char(s[i]))
}

/// The canonical form of a name: lower case, ending with the root terminator.
pub open spec fn canonical(s: Seq<char>) -> Seq<char> {
    let l = lowercase(s);
    if l.len() > 0 && l.last() == '.' {
        l
    } else {
        l.push('.')
    }
}

/// The pieces of `s` between the occurrences of `sep`, in order. There is one
/// more piece than there are separators, so the empty text has one empty piece.
pub open spec fn split(s: Seq<char>, sep: char) -> Seq<Seq<char>>
    decreases s.len(),
{
    if s.len() == 0 {
        seq![Seq::<char>::empty()]
    } else {
        let init = split(s.drop_last(), sep);
        if s.last() == sep {
            init.push(Seq::<char>::empty())
        } else {
            init.update(init.len() - 1, init.last().push(s.last()))
        }
    }
}

/// The text of a name without its root terminator, if it has one.
pub open spec fn body(name: Seq<char>) -> Seq<char> {
    if name.len() > 0 && name.last() == '.' {
        name.drop_last()
    } else {
        name
    }
}

/// The labels of a name, most specific first. The root name has no labels.
pub open spec fn labels(name: Seq<char>) -> Seq<Seq<char>> {
    if body(name).len() == 0 {
        Seq::<Seq<char>>::empty()
    } else {
        split(body(name), '.')
    }
}

/// The labels of the canonical form of any text taken as a name.
pub open spec fn name_labels(s: Seq<char>) -> Seq<Seq<char>> {
    labels(canonical(s))
}

/// The text in which each label is followed by a dot.
pub open spec fn dotted(ls: Seq<Seq<char>>) -> Seq<char>
    decreases ls.len(),
{
    if ls.len() == 0 {
        Seq::<char>::empty()
    } else {
        dotted(ls.drop_last()) + ls.last().push('.')
    }
}

/// The pieces put together again, with `sep` between each two.
pub open spec fn join(pieces: Seq<Seq<char>>, sep: char) -> Seq<char>
    decreases pieces.len(),
{
    if pieces.len() == 0 {
        Seq::<char>::empty()
    } else if pieces.len() == 1 {
        pieces[0]
    } else {
        join(pieces.drop_last(), sep).push(sep) + pieces.last()
    }
}

/// Whether `sep` does not occur in the text.
pub open spec fn free_of(text: Seq<char>, sep: char) -> bool {
    forall|i: int| 0 <= i < text.len() ==> #[trigger] text[i] != sep
}

/// Whether `sep` occurs in none of the pieces.
pub open spec fn all_free_of(pieces: Seq<Seq<char>>, sep: char) -> bool {
    forall|i: int| 0 <= i < pieces.len() ==> free_of(#[trigger] pieces[i], sep)
}

/// Whether no character of the text is an ASCII upper-case letter.
pub open spec fn is_lower(text: Seq<char>) -> bool {
    forall|i: int| 0 <= i < text.len() ==> lower_char(#[trigger] text[i]) == text[i]
}

/// Folding a character twice is folding it once.
pub proof fn law_lower_char_is_idempotent(c: char)
    ensures
        lower_char(lower_char(c)) == lower_char(c),
{
}

/// The canonical form of a text is lower case and ends with the root
/// terminator; a text that is so already is its own canonical form.
pub proof fn law_canonical_form(s: Seq<char>)
    ensures
        is_lower(canonical(s)),
        canonical(s).len() > 0,
        canonical(s).last() == '.',
        canonical(canonical(s)) == canonical(s),
        is_lower(s) && s.len() > 0 && s.last() == '.' ==> canonical(s) == s,
{
}

/// Names that differ only in the case of their ASCII letters are one name.
pub proof fn law_case_is_ignored(a: Seq<char>, b: Seq<char>)
    requires
        lowercase(a) == lowercase(b),
    ensures
        canonical(a) == canonical(b),
        name_labels(a) == name_labels(b),
        canonical(lowercase(a)) == canonical(a),
{
}

/// A name is the same with and without its root terminator.
pub proof fn law_terminator_is_optional(s: Seq<char>)
    requires
        s.len() == 0 || s.last() != '.',
    ensures
        canonical(s.push('.')) == canonical(s),
        name_labels(s.push('.')) == name_labels(s),
{
    assert(lowercase(s.push('.')) =~= lowercase(s).push('.'));
}

/// Cutting a text at a separator and joining the pieces with it gives the
/// text back; there is at least one piece, and the separator is in none.
pub proof fn law_split_rejoins(s: Seq<char>, sep: char)
    ensures
        split(s, sep).len() >= 1,
        join(split(s, sep), sep) == s,
        all_free_of(split(s, sep), sep),
    decreases s.len(),
{
    if s.len() > 0 {
        let init = split(s.drop_last(), sep);
        law_split_rejoins(s.drop_last(), sep);
        let all = split(s, sep);
        if s.last() == sep {
            assert(all.drop_last() =~= init);
        } else {
            assert(all.drop_last() =~= init.drop_last());
            if init.len() > 1 {
                assert(join(all, sep) =~= join(init, sep).push(s.last()));
            }
        }
    }
}

/// A property of every character of a text holds of every character of its
/// pieces.
pub proof fn law_split_keeps_chars(s: Seq<char>, sep: char, p: spec_fn(char) -> bool)
    requires
        forall|k: int| 0 <= k < s.len() ==> p(#[trigger] s[k]),
    ensures
        forall|i: int, j: int|
            0 <= i < split(s, sep).len() && 0 <= j < split(s, sep)[i].len() ==> p(
                #[trigger] split(s, sep)[i][j],
            ),
    decreases s.len(),
{
    if s.len() > 0 {
        law_split_keeps_chars(s.drop_last(), sep, p);
        law_split_rejoins(s.drop_last(), sep);
    }
}

/// Joining pieces that are free of the separator and cutting the text at it
/// gives the pieces back.
pub proof fn law_join_splits(pieces: Seq<Seq<char>>, sep: char)
    requires
        pieces.len() >= 1,
        all_free_of(pieces, sep),
    ensures
        split(join(pieces, sep), sep) == pieces,
    decreases join(pieces, sep).len(),
{
    let s = join(pieces, sep);
    let last = pieces.last();
    if last.len() > 0 {
        let shorter = pieces.update(pieces.len() - 1, last.drop_last());
        assert(shorter.drop_last() =~= pieces.drop_last());
        assert(last =~= last.drop_last().push(last.last()));
        assert(s.drop_last() =~= join(shorter, sep));
        law_join_splits(shorter, sep);
    } else if pieces.len() == 1 {
        assert(s =~= Seq::<char>::empty());
    } else {
        let init = pieces.drop_last();
        assert(s.drop_last() =~= join(init, sep));
        law_join_splits(init, sep);
        assert(last =~= Seq::<char>::empty());
    }
}

/// The labels of a canonical name are lower case and free of dots.
pub proof fn law_labels_are_clean(s: Seq<char>)
    ensures
        all_free_of(name_labels(s), '.'),
        forall|i: int| 0 <= i < name_labels(s).len() ==> is_lower(#[trigger] name_labels(s)[i]),
{
    let c = canonical(s);
    let b = body(c);
    if b.len() > 0 {
        law_split_rejoins(b, '.');
        let p = |ch: char| lower_char(ch) == ch;
        law_split_keeps_chars(b, '.', p);
    }
}

/// Labels written out with a dot after each are joined by dots and closed by
/// the root terminator.
pub proof fn law_dotted_is_joined(ls: Seq<Seq<char>>)
    requires
        ls.len() >= 1,
    ensures
        dotted(ls) == join(ls, '.').push('.'),
    decreases ls.len(),
{
    if ls.len() == 1 {
        assert(dotted(ls.drop_last()) =~= Seq::<char>::empty());
    } else {
        law_dotted_is_joined(ls.drop_last());
    }
}

/// Writing out labels that are lower case gives a lower-case text.
pub proof fn law_dotted_is_lower(ls: Seq<Seq<char>>)
    requires
        forall|i: int| 0 <= i < ls.len() ==> is_lower(#[trigger] ls[i]),
    ensures
        is_lower(dotted(ls)),
    decreases ls.len(),
{
    if ls.len() > 0 {
        let init = ls.drop_last();
        law_dotted_is_lower(init);
    }
}

/// The labels of a name that is written out from labels are those labels,
/// if they are lower case and free of dots and the name is not the root.
pub proof fn law_labels_of_dotted(ls: Seq<Seq<char>>)
    requires
        ls.len() >= 1,
        ls.len() == 1 ==> ls[0].len() > 0,
        all_free_of(ls, '.'),
        forall|i: int| 0 <= i < ls.len() ==> is_lower(#[trigger] ls[i]),
    ensures
        canonical(dotted(ls)) == dotted(ls),
        labels(dotted(ls)) == ls,
        name_labels(dotted(ls)) == ls,
{
    law_dotted_is_joined(ls);
    law_dotted_is_lower(ls);
    let j = join(ls, '.');
    assert(body(dotted(ls)) =~= j);
    law_join_splits(ls, '.');
}

/// The labels held by a vector of character vectors.
pub open spec fn label_seq(v: Seq<Vec<char>>) -> Seq<Seq<char>> {
    Seq::new(v.len(), |i: int| v[i]@)
}

/// Folds one character to lower case.
pub fn to_lower(c: char) -> (r: char)
    ensures
        r == lower_char(c),
{
    if 'A' <= c && c <= 'Z' {
        ((c as u8) + 32) as char
    } else {
        c
    }
}

/// The characters of a text.
pub fn chars_of(text: &str) -> (r: Vec<char>)
    ensures
        r@ == text@,
{
    let mut r: Vec<char> = Vec::new();
    for c in it: text.chars()
        invariant
            it.seq() == text@,
            r@ == text@.take(it.index() as int),
    {
        r.push(c);
    }
    r
}

/// The text made of the given characters.
pub fn text_of(chars: &Vec<char>) -> (r: String)
    ensures
        r@ == chars@,
{
    let mut r = String::new();
    let mut i: usize = 0;
    while i < chars.len()
        invariant
            i <= chars@.len(),
            r@ == chars@.take(i as int),
        decreases chars@.len() - i,
    {
        r.push(chars[i]);
        i += 1;
    }
    r
}

/// The canonical form of the given characters.
pub fn canonical_chars(text: &Vec<char>) -> (r: Vec<char>)
    ensures
        r@ == canonical(text@),
{
    let mut r: Vec<char> = Vec::new();
    let mut i: usize = 0;
    while i < text.len()
        invariant
            i <= text@.len(),
            r@ == lowercase(text@.take(i as int)),
        decreases text@.len() - i,
    {
        r.push(to_lower(text[i]));
        i += 1;
    }
    let n = r.len();
    if n == 0 || r[n - 1] != '.' {
        r.push('.');
    }
    r
}

/// Splits the characters of `text` from `start` up to `end` at each `sep`.
pub fn split_chars(text: &Vec<char>, start: usize, end: usize, sep: char) -> (r: Vec<Vec<char>>)
    requires
        start <= end <= text@.len(),
    ensures
        label_seq(r@) == split(text@.subrange(start as int, end as int), sep),
{
    let mut done: Vec<Vec<char>> = Vec::new();
    let mut cur: Vec<char> = Vec::new();
    let mut i: usize = start;
    while i < end
        invariant
            start <= i <= end <= text@.len(),
            label_seq(done@).push(cur@) == split(text@.subrange(start as int, i as int), sep),
        decreases end - i,
    {
        let c = text[i];
        proof {
            let t = text@.subrange(start as int, i as int + 1);
            assert(t.drop_last() == text@.subrange(start as int, i as int));
        }
        if c == sep {
            done.push(cur);
            cur = Vec::new();
        } else {
            cur.push(c);
        }
        i += 1;
    }
    done.push(cur);
    done
}

/// The labels of the name written by the characters of `text` from `start` on.
pub fn labels_from(text: &Vec<char>, start: usize) -> (r: Vec<Vec<char>>)
    requires
        start <= text@.len(),
    ensures
        label_seq(r@) == labels(text@.skip(start as int)),
{
    let n = text.len();
    let end = if n > start && text[n - 1] == '.' {
        n - 1
    } else {
        n
    };
    proof {
        let t = text@.skip(start as int);
        assert(body(t) =~= text@.subrange(start as int, end as int));
    }
    if end == start {
        let r: Vec<Vec<char>> = Vec::new();
        r
    } else {
        split_chars(text, start, end, '.')
    }
}

/// A domain name held as its labels, most specific first.
#[derive(Debug, PartialEq, Eq)]
pub struct Name {
    labels: Vec<Vec<char>>,
}

impl View for Name {
    type V = Seq<Seq<char>>;

    closed spec fn view(&self) -> Seq<Seq<char>> {
        label_seq(self.labels@)
    }
}

impl Name {
    /// Reads a name: the text is made canonical and cut into its labels.
    pub fn parse(text: &str) -> (r: Name)
        ensures
            r@ == name_labels(text@),
    {
        let chars = chars_of(text);
        Name::from_chars(&chars)
    }

    /// Reads a name from its characters, as [`Name::parse`] does from a text.
    pub fn from_chars(text: &Vec<char>) -> (r: Name)
        ensures
            r@ == name_labels(text@),
    {
        let c = canonical_chars(text);
        proof {
            assert(c@.skip(0) == c@);
        }
        Name { labels: labels_from(&c, 0) }
    }

    /// The name written by the canonical characters of `text` from `start` on.
    pub fn from_canonical(text: &Vec<char>, start: usize) -> (r: Name)
        requires
            start <= text@.len(),
        ensures
            r@ == labels(text@.skip(start as int)),
    {
        Name { labels: labels_from(text, start) }
    }

    /// The number of labels.
    pub fn len(&self) -> (n: usize)
        ensures
            n == self@.len(),
    {
        self.labels.len()
    }

    /// The label at position `i`, counted from the most specific one.
    pub fn label(&self, i: usize) -> (l: &Vec<char>)
        requires
            i < self@.len(),
        ensures
            l@ == self@[i as int],
    {
        &self.labels[i]
    }
}

} // verus!
