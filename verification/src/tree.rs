//! The matcher: a trie over the labels of the listed names, read from the
//! top-level domain down.

use vstd::prelude::*;
use crate::entry::{parse_line, EntrySpec, ListEntry};
use crate::name::{canonical, name_labels, Name};

verus! {

/// What the matcher says of a name. `BlockedExact` takes precedence over
/// `BlockedWildcard`, which takes precedence over `NotBlocked`.
#[derive(Clone, Copy, Debug, PartialEq, Eq, Structural)]
pub enum MatchOutcome {
    /// No entry covers the name.
    NotBlocked,
    /// The name itself is listed.
    BlockedExact,
    /// The name lies below a wildcard anchor that is deep enough.
    BlockedWildcard,
}

/// What a matcher holds: the names listed exactly and the wildcard anchors,
/// each as its labels, most specific first.
pub struct BlockSet {
    pub exact: Set<Seq<Seq<char>>>,
    pub wildcard: Set<Seq<Seq<char>>>,
}

impl BlockSet {
    /// Nothing is listed.
    pub open spec fn empty() -> BlockSet {
        BlockSet { exact: Set::empty(), wildcard: Set::empty() }
    }

    /// The set with one more entry. A wildcard without labels would anchor at
    /// the root, which anchors none: it adds nothing.
    pub open spec fn with(self, e: EntrySpec) -> BlockSet {
        match e {
            EntrySpec::Exact(n) => BlockSet { exact: self.exact.insert(n), wildcard: self.wildcard },
            EntrySpec::Wildcard(n) => if e.is_void() {
                self
            } else {
                BlockSet { exact: self.exact, wildcard: self.wildcard.insert(n) }
            },
        }
    }

    /// The set with the given entries added one after the other.
    pub open spec fn with_all(self, entries: Seq<EntrySpec>) -> BlockSet
        decreases entries.len(),
    {
        if entries.len() == 0 {
            self
        } else {
            self.with_all(entries.drop_last()).with(entries.last())
        }
    }

    /// Whether the entry is in the set.
    pub open spec fn holds(self, e: EntrySpec) -> bool {
        match e {
            EntrySpec::Exact(n) => self.exact.contains(n),
            EntrySpec::Wildcard(n) => self.wildcard.contains(n),
        }
    }

    /// Whether dropping the first `j` labels of `name` gives an anchor that may
    /// cover it: at least one label is dropped, and more than `min_depth`
    /// labels are left, so that the `min_depth` labels next to the root never
    /// anchor a wildcard on their own.
    pub open spec fn anchor_at(name: Seq<Seq<char>>, min_depth: nat, j: int) -> bool {
        1 <= j && j + min_depth < name.len()
    }

    /// Whether some wildcard anchor of the set covers the name.
    pub open spec fn covers(self, name: Seq<Seq<char>>, min_depth: nat) -> bool {
        exists|j: int|
            BlockSet::anchor_at(name, min_depth, j) && self.wildcard.contains(
                #[trigger] name.skip(j),
            )
    }

    /// The outcome for a name when wildcard entries are left aside.
    pub open spec fn exact_outcome(self, name: Seq<Seq<char>>) -> MatchOutcome {
        if self.exact.contains(name) {
            MatchOutcome::BlockedExact
        } else {
            MatchOutcome::NotBlocked
        }
    }

    /// The outcome for a name when wildcards count from `min_depth` on.
    pub open spec fn outcome(self, name: Seq<Seq<char>>, min_depth: nat) -> MatchOutcome {
        if self.exact.contains(name) {
            MatchOutcome::BlockedExact
        } else if self.covers(name, min_depth) {
            MatchOutcome::BlockedWildcard
        } else {
            MatchOutcome::NotBlocked
        }
    }
}

/// A set to which entries were added holds what it held before and each of
/// those entries, but for the wildcards without labels, and nothing else.
pub proof fn law_with_all_holds(set: BlockSet, entries: Seq<EntrySpec>, e: EntrySpec)
    ensures
        set.with_all(entries).holds(e) == (set.holds(e) || (entries.contains(e) && !e.is_void())),
    decreases entries.len(),
{
    if entries.len() > 0 {
        let init = entries.drop_last();
        law_with_all_holds(set, init, e);
        if entries.contains(e) {
            let i = choose|i: int| 0 <= i < entries.len() && entries[i] == e;
            if i < entries.len() - 1 {
                assert(init[i] == e);
            }
        }
    }
}

/// A name that was listed as an exact entry is blocked as such, whatever
/// else was listed before or after it and from whatever depth wildcards count.
pub proof fn law_listed_name_is_blocked(
    set: BlockSet,
    entries: Seq<EntrySpec>,
    name: Seq<Seq<char>>,
    min_depth: nat,
)
    requires
        entries.contains(EntrySpec::Exact(name)),
    ensures
        set.with_all(entries).outcome(name, min_depth) == MatchOutcome::BlockedExact,
{
    law_with_all_holds(set, entries, EntrySpec::Exact(name));
}

/// A name is not blocked if it was not listed as an exact entry and no
/// wildcard was listed whose anchor qualifies for it.
pub proof fn law_unlisted_name_is_not_blocked(
    entries: Seq<EntrySpec>,
    name: Seq<Seq<char>>,
    min_depth: nat,
)
    requires
        !entries.contains(EntrySpec::Exact(name)),
        forall|j: int|
            BlockSet::anchor_at(name, min_depth, j) ==> !entries.contains(
                EntrySpec::Wildcard(#[trigger] name.skip(j)),
            ),
    ensures
        BlockSet::empty().with_all(entries).outcome(name, min_depth) == MatchOutcome::NotBlocked,
{
    let set = BlockSet::empty().with_all(entries);
    law_with_all_holds(BlockSet::empty(), entries, EntrySpec::Exact(name));
    assert forall|j: int| BlockSet::anchor_at(name, min_depth, j) implies !set.wildcard.contains(
        #[trigger] name.skip(j),
    ) by {
        law_with_all_holds(BlockSet::empty(), entries, EntrySpec::Wildcard(name.skip(j)));
    }
}

/// A name is blocked by a wildcard exactly if it was not listed as an exact
/// entry and a wildcard was listed whose anchor qualifies for it.
pub proof fn law_wildcard_blocks_below_its_anchor(
    entries: Seq<EntrySpec>,
    name: Seq<Seq<char>>,
    min_depth: nat,
)
    ensures
        BlockSet::empty().with_all(entries).outcome(name, min_depth)
            == MatchOutcome::BlockedWildcard <==> !entries.contains(EntrySpec::Exact(name)) && (
        exists|j: int|
            BlockSet::anchor_at(name, min_depth, j) && entries.contains(
                EntrySpec::Wildcard(#[trigger] name.skip(j)),
            )),
{
    let set = BlockSet::empty().with_all(entries);
    law_with_all_holds(BlockSet::empty(), entries, EntrySpec::Exact(name));
    assert forall|j: int| BlockSet::anchor_at(name, min_depth, j) implies set.wildcard.contains(
        #[trigger] name.skip(j),
    ) == entries.contains(EntrySpec::Wildcard(name.skip(j))) by {
        law_with_all_holds(BlockSet::empty(), entries, EntrySpec::Wildcard(name.skip(j)));
    }
}

/// A line that lists a name blocks every way of writing that name: a query
/// that differs from the line only in the case of its ASCII letters or in the
/// root terminator is blocked as an exact entry.
pub proof fn law_listing_ignores_case(
    set: BlockSet,
    line: Seq<char>,
    query: Seq<char>,
    min_depth: nat,
)
    requires
        canonical(line) == canonical(query),
        parse_line(line) is Ok,
        parse_line(line)->Ok_0 is Exact,
    ensures
        set.with(parse_line(line)->Ok_0).outcome(name_labels(query), min_depth)
            == MatchOutcome::BlockedExact,
{
}

/// Adding an entry a second time changes nothing: the set is the same, and so
/// is the outcome for every name.
pub proof fn law_insert_is_idempotent(set: BlockSet, e: EntrySpec)
    ensures
        set.with(e).with(e) == set.with(e),
        forall|name: Seq<Seq<char>>, min_depth: nat|
            #[trigger] set.with(e).with(e).outcome(name, min_depth) == set.with(e).outcome(
                name,
                min_depth,
            ),
{
    match e {
        EntrySpec::Exact(n) => {
            assert(set.exact.insert(n).insert(n) =~= set.exact.insert(n));
        },
        EntrySpec::Wildcard(n) => {
            assert(set.wildcard.insert(n).insert(n) =~= set.wildcard.insert(n));
        },
    }
}

/// A wildcard never covers its own anchor: a name that is not listed as an
/// exact entry is not blocked on account of a wildcard anchored at that name.
pub proof fn law_wildcard_spares_its_anchor(set: BlockSet, anchor: Seq<Seq<char>>, min_depth: nat)
    ensures
        set.with(EntrySpec::Wildcard(anchor)).outcome(anchor, min_depth) == set.outcome(
            anchor,
            min_depth,
        ),
{
}

/// A name with no more than `min_depth + 1` labels is never blocked by a
/// wildcard.
pub proof fn law_short_name_is_not_covered(set: BlockSet, name: Seq<Seq<char>>, min_depth: nat)
    requires
        name.len() <= min_depth + 1,
    ensures
        !set.covers(name, min_depth),
        set.outcome(name, min_depth) != MatchOutcome::BlockedWildcard,
{
}

/// One node of the trie: the names that end with the labels on the way from
/// the root to this node.
#[derive(Debug)]
struct Node {
    label: Vec<char>,
    exact: bool,
    wildcard: bool,
    children: Vec<Node>,
}

impl Node {
    /// No two children carry the same label, here and below.
    spec fn wf(&self) -> bool
        decreases self,
    {
        &&& forall|i: int|
            0 <= i < self.children@.len() ==> (#[trigger] self.children@[i]).wf()
        &&& forall|i: int, j: int|
            0 <= i < j < self.children@.len() ==> (#[trigger] self.children@[i]).label@ != (
            #[trigger] self.children@[j]).label@
    }

    /// The flag of the node itself.
    spec fn flag(&self, wildcard: bool) -> bool {
        if wildcard {
            self.wildcard
        } else {
            self.exact
        }
    }

    /// The flag of the node reached from here by the labels of `ls`, last
    /// label first; false where there is no such node.
    spec fn flag_at(&self, ls: Seq<Seq<char>>, wildcard: bool) -> bool
        decreases ls.len(),
    {
        if ls.len() == 0 {
            self.flag(wildcard)
        } else {
            exists|i: int|
                0 <= i < self.children@.len() && (#[trigger] self.children@[i]).label@ == ls.last()
                    && self.children@[i].flag_at(ls.drop_last(), wildcard)
        }
    }

    /// Below a child that carries the last label, the rest of the labels decides.
    proof fn lemma_descend(&self, i: int, ls: Seq<Seq<char>>, wildcard: bool)
        requires
            self.wf(),
            0 <= i < self.children@.len(),
            ls.len() > 0,
            self.children@[i].label@ == ls.last(),
        ensures
            self.flag_at(ls, wildcard) == self.children@[i].flag_at(ls.drop_last(), wildcard),
    {
    }

    /// A node for `label` with nothing listed at or below it.
    fn leaf(label: &Vec<char>) -> (n: Node)
        ensures
            n.wf(),
            n.label@ == label@,
            n.children@.len() == 0,
            !n.exact,
            !n.wildcard,
    {
        let mut copy: Vec<char> = Vec::new();
        let mut i: usize = 0;
        while i < label.len()
            invariant
                i <= label@.len(),
                copy@ == label@.take(i as int),
            decreases label@.len() - i,
        {
            copy.push(label[i]);
            i += 1;
        }
        Node { label: copy, exact: false, wildcard: false, children: Vec::new() }
    }

    /// Lists the first `pos` labels of `name` below this node, as an exact
    /// entry or as a wildcard anchor.
    fn insert_at(&mut self, name: &Name, pos: usize, wildcard: bool)
        requires
            old(self).wf(),
            pos <= name@.len(),
        ensures
            final(self).wf(),
            final(self).label@ == old(self).label@,
            forall|ls: Seq<Seq<char>>, w: bool|
                #[trigger] final(self).flag_at(ls, w) == (old(self).flag_at(ls, w) || (w == wildcard
                    && ls == name@.take(pos as int))),
        decreases pos,
    {
        if pos == 0 {
            if wildcard {
                self.wildcard = true;
            } else {
                self.exact = true;
            }
            proof {
                assert forall|ls: Seq<Seq<char>>, w: bool|
                    #[trigger] self.flag_at(ls, w) == (old(self).flag_at(ls, w) || (w == wildcard
                        && ls == name@.take(0))) by {
                    if ls.len() == 0 {
                        assert(ls =~= name@.take(0));
                    }
                }
            }
            return ;
        }
        let label = name.label(pos - 1);
        let found = self.find_child(label);
        let i = match found {
            Some(i) => i,
            None => {
                let fresh = Node::leaf(label);
                self.children.push(fresh);
                self.children.len() - 1
            },
        };
        let ghost mid = *self;
        proof {
            assert forall|ls: Seq<Seq<char>>, w: bool|
                #[trigger] mid.flag_at(ls, w) == old(self).flag_at(ls, w) by {
                if ls.len() > 0 && found is None {
                    let last = mid.children@.len() - 1;
                    if ls.last() == mid.children@[last].label@ {
                        mid.lemma_descend(last, ls, w);
                    } else {
                        if old(self).flag_at(ls, w) {
                            let k = choose|k: int|
                                0 <= k < old(self).children@.len() && (
                                #[trigger] old(self).children@[k]).label@ == ls.last() && old(
                                    self,
                                ).children@[k].flag_at(ls.drop_last(), w);
                            assert(old(self).children@[k] == mid.children@[k]);
                        }
                    }
                }
            }
        }
        self.children[i].insert_at(name, pos - 1, wildcard);
        proof {
            let target = name@.take(pos as int);
            assert(target.drop_last() =~= name@.take(pos - 1));
            assert forall|ls: Seq<Seq<char>>, w: bool|
                #[trigger] self.flag_at(ls, w) == (mid.flag_at(ls, w) || (w == wildcard && ls
                    == target)) by {
                if ls.len() > 0 {
                    if ls.last() == label@ {
                        self.lemma_descend(i as int, ls, w);
                        if ls.drop_last() == target.drop_last() {
                            assert(ls =~= target);
                        }
                    } else {
                        if mid.flag_at(ls, w) {
                            let k = choose|k: int|
                                0 <= k < mid.children@.len() && (#[trigger] mid.children@[k]).label@
                                    == ls.last() && mid.children@[k].flag_at(ls.drop_last(), w);
                            assert(self.children@[k] == mid.children@[k]);
                        }
                    }
                }
            }
        }
    }

    /// A node without a label, with nothing listed at or below it.
    fn bare() -> (n: Node)
        ensures
            n.wf(),
            n.children@.len() == 0,
            !n.exact,
            !n.wildcard,
    {
        Node { label: Vec::new(), exact: false, wildcard: false, children: Vec::new() }
    }

    /// The position of the child that carries `label`, if there is one.
    fn find_child(&self, label: &Vec<char>) -> (r: Option<usize>)
        ensures
            match r {
                Some(i) => i < self.children@.len() && self.children@[i as int].label@ == label@,
                None => forall|i: int|
                    0 <= i < self.children@.len() ==> (#[trigger] self.children@[i]).label@
                        != label@,
            },
    {
        let mut i: usize = 0;
        while i < self.children.len()
            invariant
                i <= self.children@.len(),
                forall|k: int| 0 <= k < i ==> (#[trigger] self.children@[k]).label@ != label@,
            decreases self.children@.len() - i,
        {
            if same_chars(&self.children[i].label, label) {
                return Some(i);
            }
            i += 1;
        }
        None
    }
}

/// The matcher. It is filled once, entry by entry, and then only read.
#[derive(Debug)]
pub struct BlockTree {
    root: Node,
}

impl View for BlockTree {
    type V = BlockSet;

    closed spec fn view(&self) -> BlockSet {
        BlockSet {
            exact: Set::new(|ls: Seq<Seq<char>>| self.root.flag_at(ls, false)),
            wildcard: Set::new(|ls: Seq<Seq<char>>| self.root.flag_at(ls, true)),
        }
    }
}

impl BlockTree {
    /// Siblings carry distinct labels, and the root anchors no wildcard.
    #[verifier::type_invariant]
    spec fn wf(&self) -> bool {
        self.root.wf() && !self.root.wildcard
    }

    /// A matcher in which nothing is listed.
    pub fn new() -> (t: BlockTree)
        ensures
            t@ == BlockSet::empty(),
    {
        let t = BlockTree { root: Node::bare() };
        proof {
            assert(t@.exact =~= Set::empty());
            assert(t@.wildcard =~= Set::empty());
        }
        t
    }

    /// Lists one entry. Listing an entry that is already there changes nothing.
    pub fn insert(&mut self, entry: &ListEntry)
        ensures
            final(self)@ == old(self)@.with(entry@),
    {
        proof {
            use_type_invariant(&*self);
        }
        match entry {
            ListEntry::Exact(name) => {
                let n = name.len();
                let mut root = Node::bare();
                std::mem::swap(&mut self.root, &mut root);
                root.insert_at(name, n, false);
                assert(!root.flag_at(Seq::<Seq<char>>::empty(), true));
                std::mem::swap(&mut self.root, &mut root);
                proof {
                    assert(name@.take(n as int) == name@);
                    assert(self@.exact =~= old(self)@.exact.insert(name@));
                    assert(self@.wildcard =~= old(self)@.wildcard);
                }
            },
            ListEntry::Wildcard(name) => {
                let n = name.len();
                if n > 0 {
                    let mut root = Node::bare();
                    std::mem::swap(&mut self.root, &mut root);
                    root.insert_at(name, n, true);
                    assert(!root.flag_at(Seq::<Seq<char>>::empty(), true));
                    std::mem::swap(&mut self.root, &mut root);
                    proof {
                        assert(name@.take(n as int) == name@);
                        assert(self@.exact =~= old(self)@.exact);
                        assert(self@.wildcard =~= old(self)@.wildcard.insert(name@));
                    }
                }
            },
        }
    }
}

impl BlockTree {
    /// Walks down from the root along the labels of `name`, from the last one
    /// to the first, and reports whether the name itself is listed and whether
    /// an anchor that qualifies was passed on the way.
    fn walk(&self, name: &Name, min_depth: u8) -> (r: (bool, bool))
        ensures
            r.0 == self@.exact.contains(name@),
            r.1 == self@.covers(name@, min_depth as nat),
    {
        proof {
            use_type_invariant(self);
        }
        let n = name.len();
        let mut node = &self.root;
        let mut pos = n;
        let mut covered = false;
        let mut alive = true;
        let mut exact = false;
        proof {
            assert(name@.take(n as int) == name@);
        }
        while alive
            invariant
                n == name@.len(),
                pos <= n,
                node.wf(),
                alive ==> self.root.flag_at(name@, false) == node.flag_at(
                    name@.take(pos as int),
                    false,
                ),
                alive ==> forall|j: int|
                    0 <= j <= pos ==> self.root.flag_at(#[trigger] name@.skip(j), true)
                        == node.flag_at(name@.subrange(j, pos as int), true),
                !alive ==> exact == self.root.flag_at(name@, false),
                !alive ==> forall|j: int|
                    1 <= j <= pos ==> !self.root.flag_at(#[trigger] name@.skip(j), true),
                covered == (exists|j: int|
                    pos < j && BlockSet::anchor_at(name@, min_depth as nat, j)
                        && self.root.flag_at(#[trigger] name@.skip(j), true)),
            decreases pos + (if alive { 1int } else { 0int }),
        {
            proof {
                assert(self.root.flag_at(name@.skip(pos as int), true) == node.wildcard);
            }
            let qualifies = pos >= 1 && (min_depth as usize) < n - pos;
            if node.wildcard && qualifies {
                covered = true;
            }
            if pos == 0 {
                exact = node.exact;
                alive = false;
            } else {
                let label = name.label(pos - 1);
                proof {
                    assert forall|j: int| 0 <= j < pos implies (#[trigger] name@.subrange(
                        j,
                        pos as int,
                    )).last() == label@ && name@.subrange(j, pos as int).drop_last()
                        == name@.subrange(j, pos - 1) by {}
                }
                match node.find_child(label) {
                    Some(i) => {
                        node = &node.children[i];
                        pos = pos - 1;
                    },
                    None => {
                        exact = false;
                        alive = false;
                        pos = pos - 1;
                    },
                }
            }
        }
        (exact, covered)
    }

    /// The outcome for a name. With `Some(d)` as `min_wildcard_depth`, a
    /// wildcard anchor covers the name if it has more than `d` labels and
    /// fewer than the name; with `None`, wildcard entries are left aside.
    pub fn lookup(&self, name: &Name, min_wildcard_depth: Option<u8>) -> (r: MatchOutcome)
        ensures
            r == match min_wildcard_depth {
                Some(d) => self@.outcome(name@, d as nat),
                None => self@.exact_outcome(name@),
            },
    {
        let depth = match min_wildcard_depth {
            Some(d) => d,
            None => 0,
        };
        let (exact, covered) = self.walk(name, depth);
        if exact {
            MatchOutcome::BlockedExact
        } else if covered && min_wildcard_depth.is_some() {
            MatchOutcome::BlockedWildcard
        } else {
            MatchOutcome::NotBlocked
        }
    }

    /// The outcome for a query name given as text, in any case and with or
    /// without the root terminator.
    pub fn match_name(&self, query: &str, min_wildcard_depth: u8) -> (r: MatchOutcome)
        ensures
            r == self@.outcome(name_labels(query@), min_wildcard_depth as nat),
    {
        let name = Name::parse(query);
        self.lookup(&name, Some(min_wildcard_depth))
    }
}

/// Whether two labels are the same text.
fn same_chars(a: &Vec<char>, b: &Vec<char>) -> (r: bool)
    ensures
        r == (a@ == b@),
{
    if a.len() != b.len() {
        return false;
    }
    let mut i: usize = 0;
    while i < a.len()
        invariant
            a@.len() == b@.len(),
            i <= a@.len(),
            forall|k: int| 0 <= k < i ==> a@[k] == b@[k],
        decreases a@.len() - i,
    {
        if a[i] != b[i] {
            return false;
        }
        i += 1;
    }
    proof {
        assert(a@ =~= b@);
    }
    true
}

} // verus!
