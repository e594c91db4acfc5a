//! The blocklist store: an authority that answers the names on its lists with
//! a sinkhole record and leaves every other name to the stores after it.
//!
//! It is meant to stand first in a chain, before a forwarding or recursive
//! resolver: those are consulted only for the names that it does not handle.

use vstd::prelude::*;
use crate::config::BlockListConfig;
use crate::entry::{
    entries_of,
    lines_of,
    malformed_of,
    parse_line,
    EntrySpec,
    ListEntry,
    Skipped,
};
use crate::name::{
    canonical,
    canonical_chars,
    chars_of,
    dotted,
    label_seq,
    law_canonical_form,
    law_labels_are_clean,
    law_labels_of_dotted,
    name_labels,
    split_chars,
    text_of,
    Name,
};
use crate::record::{is_sinkhole, BlockListLookup, Query, RecordType};
use crate::tree::{BlockSet, BlockTree, MatchOutcome};

verus! {

/// The role of a zone.
#[derive(Clone, Copy, Debug, PartialEq, Eq, Structural)]
pub enum ZoneType {
    Primary,
    Secondary,
    Hint,
    Forward,
}

/// The response codes of the protocol.
#[derive(Clone, Copy, Debug, PartialEq, Eq, Structural)]
pub enum ResponseCode {
    NoError,
    FormErr,
    ServFail,
    NXDomain,
    NotImp,
    Refused,
}

/// What a store can be asked for besides a lookup.
#[derive(Clone, Copy, Debug, PartialEq, Eq, Structural)]
pub enum Capability {
    ZoneTransfer,
    DynamicUpdate,
    Nsec,
}

/// Why a lookup failed.
#[derive(Debug, PartialEq, Eq)]
pub enum LookupError {
    /// The store was asked for something that it never provides. This is a
    /// trait of the store, not a miss against its data.
    UnsupportedCapability(Capability),
    /// The store could not do its work, for the reason given.
    LookupFailed(String),
}

/// What a blocklist store answers to a lookup.
#[derive(Debug, PartialEq, Eq)]
pub enum LookupOutcome {
    /// The store answers, and no later store is to be asked.
    Answered(BlockListLookup),
    /// The store has nothing to say about the name: the next store is asked.
    NotHandled,
    /// The store failed, and no later store is to be asked.
    Failed(LookupError),
}

/// Why a list could not be loaded.
#[derive(Debug, PartialEq, Eq)]
pub enum LoadError {
    /// The list file at this path could not be read.
    Unreadable(String),
}

/// A list file as it was found: its path, and its contents if it could be read.
#[derive(Debug, PartialEq, Eq)]
pub struct ListSource {
    pub path: String,
    pub contents: Option<String>,
}

/// What loading one list did.
#[derive(Debug, PartialEq, Eq)]
pub struct LoadReport {
    /// The number of lines that gave an entry.
    pub inserted: usize,
    /// The positions of the lines that were malformed, counted from 0.
    pub malformed: Vec<usize>,
}

/// The positions held by a vector of line numbers.
pub open spec fn positions(v: Seq<usize>) -> Seq<int> {
    Seq::new(v.len(), |i: int| v[i] as int)
}

/// The texts held by a vector of strings.
pub open spec fn texts(v: Seq<String>) -> Seq<Seq<char>> {
    Seq::new(v.len(), |i: int| v[i]@)
}

/// The wildcard entry that is anchored at the name with the given labels.
pub open spec fn wildcard_text(anchor: Seq<Seq<char>>) -> Seq<char> {
    seq!['*', '.'] + dotted(anchor)
}

/// The wildcard entries that cover the name with the given labels, the
/// longest anchor first: one for each anchor that has fewer labels than the
/// name and more than `min_depth`.
pub open spec fn wildcards_of(name: Seq<Seq<char>>, min_depth: nat) -> Seq<Seq<char>> {
    Seq::new(
        if name.len() > min_depth + 1 {
            (name.len() - min_depth - 1) as nat
        } else {
            0
        },
        |i: int| wildcard_text(name.skip(i + 1)),
    )
}

/// What the lists of all the sources hold together, added to `set`.
pub open spec fn loaded(set: BlockSet, sources: Seq<ListSource>) -> BlockSet
    decreases sources.len(),
{
    if sources.len() == 0 {
        set
    } else {
        match sources.last().contents {
            Some(text) => loaded(set, sources.drop_last()).with_all(entries_of(lines_of(text@))),
            None => loaded(set, sources.drop_last()),
        }
    }
}

/// The wildcard entries of [`wildcards_of`] are the ones that decide whether
/// a wildcard covers the name: each is a well-formed line that stands for the
/// wildcard at one of the anchors that qualify, and the name is covered
/// exactly if one of them is in the set. This holds of every name whose
/// top-level label is not empty.
pub proof fn law_wildcards_decide_cover(set: BlockSet, host: Seq<char>, min_depth: nat)
    requires
        name_labels(host).len() > 0 ==> name_labels(host).last().len() > 0,
    ensures
        forall|i: int|
            0 <= i < wildcards_of(name_labels(host), min_depth).len() ==> parse_line(
                #[trigger] wildcards_of(name_labels(host), min_depth)[i],
            ) == Ok::<EntrySpec, Skipped>(EntrySpec::Wildcard(name_labels(host).skip(i + 1))),
        set.covers(name_labels(host), min_depth) <==> exists|i: int|
            0 <= i < wildcards_of(name_labels(host), min_depth).len() && set.wildcard.contains(
                #[trigger] name_labels(host).skip(i + 1),
            ),
{
    let name = name_labels(host);
    let ws = wildcards_of(name, min_depth);
    law_labels_are_clean(host);
    assert forall|i: int| 0 <= i < ws.len() implies parse_line(#[trigger] ws[i]) == Ok::<
        EntrySpec,
        Skipped,
    >(EntrySpec::Wildcard(name.skip(i + 1))) by {
        let anchor = name.skip(i + 1);
        let w = wildcard_text(anchor);
        law_labels_of_dotted(anchor);
        let d = dotted(anchor);
        law_canonical_form(w);
        assert(w.skip(2) =~= d);
    }
    if set.covers(name, min_depth) {
        let j = choose|j: int|
            BlockSet::anchor_at(name, min_depth, j) && set.wildcard.contains(
                #[trigger] name.skip(j),
            );
        assert(set.wildcard.contains(name.skip((j - 1) + 1)));
    }
}

/// Whether `path` is the path of the first source that could not be read.
pub open spec fn first_unreadable(sources: Seq<ListSource>, path: Seq<char>) -> bool {
    exists|i: int|
        {
            &&& 0 <= i < sources.len()
            &&& (#[trigger] sources[i]).contents is None
            &&& path == sources[i].path@
            &&& forall|k: int| 0 <= k < i ==> (#[trigger] sources[k]).contents is Some
        }
}

/// What a blocklist store is, to its callers.
pub struct AuthorityView {
    /// The canonical name of the zone.
    pub origin: Seq<char>,
    /// The entries of the lists.
    pub blocked: BlockSet,
    /// Whether wildcard entries count.
    pub wildcard_match: bool,
    /// How many labels next to the root never anchor a wildcard on their own.
    pub min_wildcard_depth: u8,
}

impl AuthorityView {
    /// What the store says of a name given as text.
    pub open spec fn verdict(self, name: Seq<char>) -> MatchOutcome {
        if self.wildcard_match {
            self.blocked.outcome(name_labels(name), self.min_wildcard_depth as nat)
        } else {
            self.blocked.exact_outcome(name_labels(name))
        }
    }
}

/// Adds the entries of a list to a matcher, line by line.
fn fill(tree: &mut BlockTree, contents: &str) -> (report: LoadReport)
    ensures
        final(tree)@ == old(tree)@.with_all(entries_of(lines_of(contents@))),
        report.inserted == entries_of(lines_of(contents@)).len(),
        positions(report.malformed@) == malformed_of(lines_of(contents@)),
{
    let chars = chars_of(contents);
    proof {
        assert(chars@.subrange(0, chars@.len() as int) == chars@);
    }
    let lines = split_chars(&chars, 0, chars.len(), '\n');
    let ghost all = lines_of(contents@);
    let mut inserted: usize = 0;
    let mut malformed: Vec<usize> = Vec::new();
    let mut i: usize = 0;
    while i < lines.len()
        invariant
            all == label_seq(lines@),
            i <= lines@.len(),
            inserted <= i,
            inserted == entries_of(all.take(i as int)).len(),
            positions(malformed@) == malformed_of(all.take(i as int)),
            tree@ == old(tree)@.with_all(entries_of(all.take(i as int))),
        decreases lines@.len() - i,
    {
        proof {
            let t = all.take(i as int + 1);
            assert(t.drop_last() == all.take(i as int));
        }
        match ListEntry::from_chars(&lines[i]) {
            Ok(entry) => {
                tree.insert(&entry);
                inserted += 1;
                proof {
                    let es = entries_of(all.take(i as int + 1));
                    assert(es.drop_last() == entries_of(all.take(i as int)));
                }
            },
            Err(Skipped::Malformed) => {
                malformed.push(i);
            },
            Err(Skipped::Blank) => {},
        }
        i += 1;
    }
    proof {
        assert(all.take(lines@.len() as int) == all);
    }
    LoadReport { inserted, malformed }
}

/// The matcher that holds the lists of all the sources, or the first source
/// that could not be read.
fn build(sources: &Vec<ListSource>) -> (r: Result<BlockTree, LoadError>)
    ensures
        match r {
            Ok(tree) => {
                &&& forall|i: int|
                    0 <= i < sources@.len() ==> (#[trigger] sources@[i]).contents is Some
                &&& tree@ == loaded(BlockSet::empty(), sources@)
            },
            Err(LoadError::Unreadable(path)) => first_unreadable(sources@, path@),
        },
{
    let mut tree = BlockTree::new();
    let mut i: usize = 0;
    while i < sources.len()
        invariant
            i <= sources@.len(),
            forall|k: int| 0 <= k < i ==> (#[trigger] sources@[k]).contents is Some,
            tree@ == loaded(BlockSet::empty(), sources@.take(i as int)),
        decreases sources@.len() - i,
    {
        proof {
            let t = sources@.take(i as int + 1);
            assert(t.drop_last() == sources@.take(i as int));
        }
        match &sources[i].contents {
            Some(text) => {
                let _ = fill(&mut tree, text.as_str());
            },
            None => {
                return Err(LoadError::Unreadable(sources[i].path.clone()));
            },
        }
        i += 1;
    }
    proof {
        assert(sources@.take(sources@.len() as int) == sources@);
    }
    Ok(tree)
}

/// An authority that answers from one or more block lists.
#[derive(Debug)]
pub struct BlockListAuthority {
    origin: String,
    block_tree: BlockTree,
    wildcard_match: bool,
    min_wildcard_depth: u8,
}

impl View for BlockListAuthority {
    type V = AuthorityView;

    closed spec fn view(&self) -> AuthorityView {
        AuthorityView {
            origin: self.origin@,
            blocked: self.block_tree@,
            wildcard_match: self.wildcard_match,
            min_wildcard_depth: self.min_wildcard_depth,
        }
    }
}

impl BlockListAuthority {
    /// A store for the zone `origin` with nothing on its lists.
    pub fn new(origin: &str, wildcard_match: bool, min_wildcard_depth: u8) -> (a: BlockListAuthority)
        ensures
            a@ == (AuthorityView {
                origin: canonical(origin@),
                blocked: BlockSet::empty(),
                wildcard_match,
                min_wildcard_depth,
            }),
    {
        let chars = chars_of(origin);
        let c = canonical_chars(&chars);
        BlockListAuthority {
            origin: text_of(&c),
            block_tree: BlockTree::new(),
            wildcard_match,
            min_wildcard_depth,
        }
    }

    /// Adds the entries of a list, given by the contents of its file: one
    /// entry per line. Empty lines are passed over; malformed lines are passed
    /// over and reported.
    pub fn add(&mut self, contents: &str) -> (report: LoadReport)
        ensures
            final(self)@ == (AuthorityView {
                blocked: old(self)@.blocked.with_all(entries_of(lines_of(contents@))),
                ..old(self)@
            }),
            report.inserted == entries_of(lines_of(contents@)).len(),
            positions(report.malformed@) == malformed_of(lines_of(contents@)),
    {
        fill(&mut self.block_tree, contents)
    }

    /// Adds the entries of a list file as it was found. A file that could not
    /// be read is an error, and the store is left as it was.
    pub fn load(&mut self, source: &ListSource) -> (r: Result<LoadReport, LoadError>)
        ensures
            match r {
                Ok(report) => {
                    &&& source.contents matches Some(text)
                    &&& final(self)@ == (AuthorityView {
                        blocked: old(self)@.blocked.with_all(entries_of(lines_of(text@))),
                        ..old(self)@
                    })
                    &&& report.inserted == entries_of(lines_of(text@)).len()
                    &&& positions(report.malformed@) == malformed_of(lines_of(text@))
                },
                Err(LoadError::Unreadable(path)) => {
                    &&& source.contents is None
                    &&& path@ == source.path@
                    &&& final(self)@ == old(self)@
                },
            },
    {
        match &source.contents {
            Some(text) => Ok(self.add(text.as_str())),
            None => Err(LoadError::Unreadable(source.path.clone())),
        }
    }

    /// Builds the store of a zone from its configuration and from the list
    /// files as they were found, read in the order given. The first file that
    /// could not be read ends the construction: a store without one of its
    /// lists would let through what it was set up to block.
    pub fn try_from_config(
        origin: &str,
        _zone_type: ZoneType,
        config: &BlockListConfig,
        sources: &Vec<ListSource>,
    ) -> (r: Result<BlockListAuthority, LoadError>)
        ensures
            match r {
                Ok(a) => {
                    &&& forall|i: int|
                        0 <= i < sources@.len() ==> (#[trigger] sources@[i]).contents is Some
                    &&& a@ == (AuthorityView {
                        origin: canonical(origin@),
                        blocked: loaded(BlockSet::empty(), sources@),
                        wildcard_match: config.wildcard_match,
                        min_wildcard_depth: config.min_wildcard_depth,
                    })
                },
                Err(LoadError::Unreadable(path)) => first_unreadable(sources@, path@),
            },
    {
        let mut authority = BlockListAuthority::new(
            origin,
            config.wildcard_match,
            config.min_wildcard_depth,
        );
        match build(sources) {
            Ok(tree) => {
                authority.block_tree = tree;
                Ok(authority)
            },
            Err(e) => Err(e),
        }
    }

    /// Replaces the lists of the store by those of the given files. The new
    /// matcher is built aside and put in place only when every file could be
    /// read: after a failure the store holds what it held before.
    pub fn reload(&mut self, sources: &Vec<ListSource>) -> (r: Result<(), LoadError>)
        ensures
            match r {
                Ok(_) => {
                    &&& forall|i: int|
                        0 <= i < sources@.len() ==> (#[trigger] sources@[i]).contents is Some
                    &&& final(self)@ == (AuthorityView {
                        blocked: loaded(BlockSet::empty(), sources@),
                        ..old(self)@
                    })
                },
                Err(LoadError::Unreadable(path)) => {
                    &&& final(self)@ == old(self)@
                    &&& first_unreadable(sources@, path@)
                },
            },
    {
        match build(sources) {
            Ok(tree) => {
                self.block_tree = tree;
                Ok(())
            },
            Err(e) => Err(e),
        }
    }

    /// The wildcard entries that would cover `host`, the longest anchor
    /// first, with the minimum wildcard depth of this store.
    pub fn get_wildcards(&self, host: &str) -> (r: Vec<String>)
        ensures
            texts(r@) == wildcards_of(name_labels(host@), self@.min_wildcard_depth as nat),
    {
        let name = Name::parse(host);
        let n = name.len();
        let depth = self.min_wildcard_depth as usize;
        let mut wildcards: Vec<String> = Vec::new();
        if n <= depth || n - depth <= 1 {
            return wildcards;
        }
        let count = n - depth - 1;
        let mut i: usize = 0;
        while i < count
            invariant
                n == name@.len(),
                count == n - depth - 1,
                i <= count,
                wildcards@.len() == i,
                forall|k: int|
                    0 <= k < i ==> (#[trigger] wildcards@[k])@ == wildcard_text(name@.skip(k + 1)),
            decreases count - i,
        {
            let mut wc: Vec<char> = Vec::new();
            wc.push('*');
            wc.push('.');
            let mut j: usize = i + 1;
            while j < n
                invariant
                    n == name@.len(),
                    i + 1 <= j <= n,
                    wc@ == seq!['*', '.'] + dotted(name@.subrange(i + 1, j as int)),
                decreases n - j,
            {
                let label = name.label(j);
                let ghost start = wc@;
                let mut k: usize = 0;
                while k < label.len()
                    invariant
                        k <= label@.len(),
                        wc@ == start + label@.take(k as int),
                    decreases label@.len() - k,
                {
                    wc.push(label[k]);
                    k += 1;
                }
                wc.push('.');
                proof {
                    let t = name@.subrange(i + 1, j + 1);
                    assert(t.drop_last() == name@.subrange(i + 1, j as int));
                }
                j += 1;
            }
            wildcards.push(text_of(&wc));
            i += 1;
        }
        wildcards
    }

    /// What the store says of a name: whether it is listed itself, lies below
    /// a wildcard anchor that counts, or is not blocked.
    pub fn verdict(&self, name: &str) -> (r: MatchOutcome)
        ensures
            r == self@.verdict(name@),
    {
        let parsed = Name::parse(name);
        if self.wildcard_match {
            self.block_tree.lookup(&parsed, Some(self.min_wildcard_depth))
        } else {
            self.block_tree.lookup(&parsed, None)
        }
    }

    /// Answers a lookup. A blocked name is answered with the sinkhole record,
    /// whatever record type was asked for; any other name is not handled. The
    /// store never fails a lookup.
    pub fn lookup(&self, name: &str, rtype: RecordType) -> (r: LookupOutcome)
        ensures
            match r {
                LookupOutcome::Answered(l) => {
                    &&& self@.verdict(name@) != MatchOutcome::NotBlocked
                    &&& l.query().name@ == canonical(name@)
                    &&& l.query().query_type == rtype
                    &&& is_sinkhole(l.records(), canonical(name@))
                },
                LookupOutcome::NotHandled => self@.verdict(name@) == MatchOutcome::NotBlocked,
                LookupOutcome::Failed(_) => false,
            },
    {
        match self.verdict(name) {
            MatchOutcome::NotBlocked => LookupOutcome::NotHandled,
            _ => {
                let chars = chars_of(name);
                let c = canonical_chars(&chars);
                let query = Query::query(text_of(&c), rtype);
                LookupOutcome::Answered(BlockListLookup::sinkhole(query))
            },
        }
    }

    /// Answers the question of a request, as [`BlockListAuthority::lookup`]
    /// answers its name and record type.
    pub fn search(&self, query: &Query) -> (r: LookupOutcome)
        ensures
            match r {
                LookupOutcome::Answered(l) => {
                    &&& self@.verdict(query.name@) != MatchOutcome::NotBlocked
                    &&& l.query().name@ == canonical(query.name@)
                    &&& l.query().query_type == query.query_type
                    &&& is_sinkhole(l.records(), canonical(query.name@))
                },
                LookupOutcome::NotHandled => self@.verdict(query.name@)
                    == MatchOutcome::NotBlocked,
                LookupOutcome::Failed(_) => false,
            },
    {
        self.lookup(query.name.as_str(), query.query_type)
    }

    /// Refuses a lookup of NSEC records: the store has none to give, for any
    /// name. This is an error and not a miss.
    pub fn get_nsec_records(&self, _name: &str) -> (r: LookupOutcome)
        ensures
            r == LookupOutcome::Failed(LookupError::UnsupportedCapability(Capability::Nsec)),
    {
        LookupOutcome::Failed(LookupError::UnsupportedCapability(Capability::Nsec))
    }

    /// The role of the zone: a blocklist store always serves as a hint zone.
    pub fn zone_type(&self) -> (z: ZoneType)
        ensures
            z == ZoneType::Hint,
    {
        ZoneType::Hint
    }

    /// Whether the zone may be transferred: never.
    pub fn is_axfr_allowed(&self) -> (r: bool)
        ensures
            !r,
    {
        false
    }

    /// Refuses a dynamic update: the store implements none.
    pub fn update(&self) -> (r: Result<bool, ResponseCode>)
        ensures
            r == Err::<bool, ResponseCode>(ResponseCode::NotImp),
    {
        Err(ResponseCode::NotImp)
    }

    /// The canonical name of the zone that the store answers for.
    pub fn origin(&self) -> (r: &String)
        ensures
            r@ == self@.origin,
    {
        &self.origin
    }

    /// Whether wildcard entries count.
    pub fn wildcard_match(&self) -> (r: bool)
        ensures
            r == self@.wildcard_match,
    {
        self.wildcard_match
    }

    /// How many labels next to the root never anchor a wildcard on their own.
    pub fn min_wildcard_depth(&self) -> (r: u8)
        ensures
            r == self@.min_wildcard_depth,
    {
        self.min_wildcard_depth
    }
}

} // verus!
