//! The chain of stores of a zone.
//!
//! The stores are asked in the order in which the chain was built, and the
//! first one that answers or fails decides: no store after it is asked. A
//! blocklist store is asked here, in memory. Any other store lies outside
//! this library and may have to wait for the network, so the chain does not
//! ask it: it names the store, and goes on when it is told what that store
//! said.

use vstd::prelude::*;
use crate::authority::{
    first_unreadable,
    loaded,
    AuthorityView,
    BlockListAuthority,
    ListSource,
    LoadError,
    LookupError,
    LookupOutcome,
    ZoneType,
};
use crate::config::{StoreConfigElement, StoreKind};
use crate::name::canonical;
use crate::record::{is_sinkhole, Record, RecordType};
use crate::tree::{BlockSet, MatchOutcome};

verus! {

/// One store of a chain.
#[derive(Debug)]
pub enum StoreHandle {
    /// A zone file, outside this library.
    File,
    /// A zone database, outside this library.
    Database,
    /// A forwarding resolver, outside this library.
    Forward,
    /// A recursive resolver, outside this library.
    Recursor,
    /// A blocklist store.
    Blocklist(BlockListAuthority),
}

/// What a store outside this library said, or what the chain says in the end.
#[derive(Debug, PartialEq, Eq)]
pub enum ChainOutcome {
    /// These records are the answer.
    Answered(Vec<Record>),
    /// No store had anything to say about the name.
    NotHandled,
    /// A store failed.
    Failed(LookupError),
}

/// Where a lookup stands in its chain.
#[derive(Debug, PartialEq, Eq)]
pub enum ChainStep {
    /// Every store before this position was asked and did not handle the
    /// name. The store at this position lies outside this library: it is to
    /// be asked now, and what it says goes to [`AuthorityChain::resume`].
    Ask(usize),
    /// The lookup is over. The first `consulted` stores of the chain were
    /// asked, each once and in order, and no other.
    Done { outcome: ChainOutcome, consulted: usize },
}

impl ChainOutcome {
    /// What the answer of a blocklist store means to the chain.
    pub fn of_lookup(outcome: LookupOutcome) -> (r: ChainOutcome)
        ensures
            match outcome {
                LookupOutcome::Answered(l) => r matches ChainOutcome::Answered(records)
                    && records@ == l.records(),
                LookupOutcome::NotHandled => r == ChainOutcome::NotHandled,
                LookupOutcome::Failed(e) => r == ChainOutcome::Failed(e),
            },
    {
        match outcome {
            LookupOutcome::Answered(lookup) => ChainOutcome::Answered(lookup.into_records()),
            LookupOutcome::NotHandled => ChainOutcome::NotHandled,
            LookupOutcome::Failed(e) => ChainOutcome::Failed(e),
        }
    }
}

impl StoreHandle {
    /// The kind of the store.
    pub open spec fn spec_kind(&self) -> StoreKind {
        match self {
            StoreHandle::File => StoreKind::File,
            StoreHandle::Database => StoreKind::Database,
            StoreHandle::Forward => StoreKind::Forward,
            StoreHandle::Recursor => StoreKind::Recursor,
            StoreHandle::Blocklist(_) => StoreKind::Blocklist,
        }
    }

    /// The kind of the store.
    pub fn kind(&self) -> (k: StoreKind)
        ensures
            k == self.spec_kind(),
    {
        match self {
            StoreHandle::File => StoreKind::File,
            StoreHandle::Database => StoreKind::Database,
            StoreHandle::Forward => StoreKind::Forward,
            StoreHandle::Recursor => StoreKind::Recursor,
            StoreHandle::Blocklist(_) => StoreKind::Blocklist,
        }
    }

    /// The handle of the store that `element` configures. A blocklist store
    /// is built here, from its list files as they were found, and fails as
    /// [`BlockListAuthority::try_from_config`] does; a store of any other
    /// kind lies outside this library, and its handle only names its kind.
    pub fn try_from_config(
        origin: &str,
        zone_type: ZoneType,
        element: &StoreConfigElement,
        sources: &Vec<ListSource>,
    ) -> (r: Result<StoreHandle, LoadError>)
        ensures
            match r {
                Ok(h) => {
                    &&& h.spec_kind() == element.spec_kind()
                    &&& element matches StoreConfigElement::BlockList(config) ==> {
                        &&& forall|i: int|
                            0 <= i < sources@.len() ==> (#[trigger] sources@[i]).contents is Some
                        &&& h matches StoreHandle::Blocklist(a)
                        &&& a@ == (AuthorityView {
                            origin: canonical(origin@),
                            blocked: loaded(BlockSet::empty(), sources@),
                            wildcard_match: config.wildcard_match,
                            min_wildcard_depth: config.min_wildcard_depth,
                        })
                    }
                },
                Err(LoadError::Unreadable(path)) => {
                    &&& element is BlockList
                    &&& first_unreadable(sources@, path@)
                },
            },
    {
        match element {
            StoreConfigElement::File(_) => Ok(StoreHandle::File),
            StoreConfigElement::Sqlite(_) => Ok(StoreHandle::Database),
            StoreConfigElement::Forward(_) => Ok(StoreHandle::Forward),
            StoreConfigElement::Recursor(_) => Ok(StoreHandle::Recursor),
            StoreConfigElement::BlockList(config) => {
                match BlockListAuthority::try_from_config(origin, zone_type, config, sources) {
                    Ok(authority) => Ok(StoreHandle::Blocklist(authority)),
                    Err(e) => Err(e),
                }
            },
        }
    }

    /// Whether the store is a blocklist store that does not handle the name,
    /// so that a lookup passes it by.
    pub open spec fn passes(&self, name: Seq<char>) -> bool {
        match self {
            StoreHandle::Blocklist(a) => a@.verdict(name) == MatchOutcome::NotBlocked,
            _ => false,
        }
    }
}

/// The first position from `from` on at which a lookup of `name` stops: that
/// of the first store that is not a blocklist store passing the name by, or
/// the length of the chain if there is none.
pub open spec fn first_stop(handles: Seq<StoreHandle>, from: int, name: Seq<char>) -> int
    decreases handles.len() - from,
{
    if from < 0 || from >= handles.len() {
        handles.len() as int
    } else if handles[from].passes(name) {
        first_stop(handles, from + 1, name)
    } else {
        from
    }
}

/// Whether `step` is where a lookup of `name` stands once the stores from
/// `from` on have been asked as far as this library can ask them.
pub open spec fn stands_at(
    handles: Seq<StoreHandle>,
    from: int,
    name: Seq<char>,
    step: ChainStep,
) -> bool {
    let k = first_stop(handles, from, name);
    match step {
        ChainStep::Ask(i) => i == k && k < handles.len() && !(handles[k] is Blocklist),
        ChainStep::Done { outcome: ChainOutcome::Answered(records), consulted } => {
            &&& k < handles.len()
            &&& handles[k] is Blocklist
            &&& is_sinkhole(records@, canonical(name))
            &&& consulted == k + 1
        },
        ChainStep::Done { outcome: ChainOutcome::NotHandled, consulted } => {
            &&& k == handles.len()
            &&& consulted == handles.len()
        },
        ChainStep::Done { outcome: ChainOutcome::Failed(_), consulted } => false,
    }
}

/// A lookup stops at the first store that does not pass it by: every store
/// before that one is a blocklist store that does not handle the name, and
/// the store itself, if there is one, is not.
pub proof fn law_first_stop(handles: Seq<StoreHandle>, from: int, name: Seq<char>)
    requires
        0 <= from <= handles.len(),
    ensures
        from <= first_stop(handles, from, name) <= handles.len(),
        forall|i: int|
            from <= i < first_stop(handles, from, name) ==> (#[trigger] handles[i]).passes(name),
        first_stop(handles, from, name) < handles.len() ==> !handles[first_stop(
            handles,
            from,
            name,
        )].passes(name),
    decreases handles.len() - from,
{
    if from < handles.len() && handles[from].passes(name) {
        law_first_stop(handles, from + 1, name);
    }
}

/// First match wins. Where a lookup stands tells which stores were asked:
/// all those before the position named were asked and did not handle the
/// name, and none after it was asked. So a blocked name is answered by the
/// first blocklist store that lists it, provided that only blocklist stores
/// which pass it by stand before that one, and no store behind it is asked.
/// A lookup that goes on behind a position never comes back to it, so no
/// store is asked twice.
pub proof fn law_first_match_wins(
    handles: Seq<StoreHandle>,
    from: int,
    name: Seq<char>,
    step: ChainStep,
)
    requires
        0 <= from <= handles.len(),
        stands_at(handles, from, name, step),
    ensures
        match step {
            ChainStep::Ask(i) => {
                &&& from <= i < handles.len()
                &&& !(handles[i as int] is Blocklist)
                &&& forall|j: int| from <= j < i ==> (#[trigger] handles[j]).passes(name)
            },
            ChainStep::Done { outcome: ChainOutcome::Answered(records), consulted } => {
                &&& from < consulted <= handles.len()
                &&& handles[consulted - 1] matches StoreHandle::Blocklist(a)
                &&& a@.verdict(name) != MatchOutcome::NotBlocked
                &&& forall|j: int| from <= j < consulted - 1 ==> (#[trigger] handles[j]).passes(name)
            },
            ChainStep::Done { outcome: ChainOutcome::NotHandled, consulted } => {
                &&& consulted == handles.len()
                &&& forall|j: int| from <= j < handles.len() ==> (#[trigger] handles[j]).passes(name)
            },
            ChainStep::Done { outcome: ChainOutcome::Failed(_), consulted } => false,
        },
{
    law_first_stop(handles, from, name);
}

/// The stores of one zone, in the order in which they are asked. The order is
/// that of construction and never changes.
#[derive(Debug)]
pub struct AuthorityChain {
    handles: Vec<StoreHandle>,
}

impl AuthorityChain {
    /// The stores of the chain, in order.
    pub closed spec fn handles(&self) -> Seq<StoreHandle> {
        self.handles@
    }

    /// The chain of the given stores, in the given order.
    pub fn new(handles: Vec<StoreHandle>) -> (c: AuthorityChain)
        ensures
            c.handles() == handles@,
    {
        AuthorityChain { handles }
    }

    /// The number of stores.
    pub fn len(&self) -> (n: usize)
        ensures
            n == self.handles().len(),
    {
        self.handles.len()
    }

    /// The store at position `i`, if there is one.
    pub fn get(&self, i: usize) -> (r: Option<&StoreHandle>)
        ensures
            match r {
                Some(h) => i < self.handles().len() && *h == self.handles()[i as int],
                None => i >= self.handles().len(),
            },
    {
        if i < self.handles.len() {
            Some(&self.handles[i])
        } else {
            None
        }
    }

    /// Asks the stores from position `from` on, one after the other, until
    /// one answers, one lies outside this library, or none is left.
    fn walk(&self, from: usize, name: &str, rtype: RecordType) -> (step: ChainStep)
        ensures
            stands_at(self.handles(), from as int, name@, step),
    {
        let n = self.handles.len();
        let mut i: usize = from;
        while i < n
            invariant
                n == self.handles@.len(),
                first_stop(self.handles@, i as int, name@) == first_stop(
                    self.handles@,
                    from as int,
                    name@,
                ),
            decreases n - i,
        {
            match &self.handles[i] {
                StoreHandle::Blocklist(authority) => {
                    match ChainOutcome::of_lookup(authority.lookup(name, rtype)) {
                        ChainOutcome::NotHandled => {},
                        outcome => {
                            return ChainStep::Done { outcome, consulted: i + 1 };
                        },
                    }
                },
                _ => {
                    return ChainStep::Ask(i);
                },
            }
            i += 1;
        }
        ChainStep::Done { outcome: ChainOutcome::NotHandled, consulted: n }
    }

    /// Begins a lookup: asks the stores from the first one on.
    pub fn dispatch(&self, name: &str, rtype: RecordType) -> (step: ChainStep)
        ensures
            stands_at(self.handles(), 0, name@, step),
    {
        self.walk(0, name, rtype)
    }

    /// Goes on with a lookup after the store at position `index`, which
    /// [`ChainStep::Ask`] named, has said `reply`. An answer or a failure of
    /// that store ends the lookup, and no later store is asked; otherwise the
    /// stores after it are asked in turn.
    pub fn resume(&self, index: usize, reply: ChainOutcome, name: &str, rtype: RecordType) -> (step:
        ChainStep)
        ensures
            match reply {
                ChainOutcome::NotHandled => stands_at(
                    self.handles(),
                    index + 1,
                    name@,
                    step,
                ),
                _ => step == (ChainStep::Done {
                    outcome: reply,
                    consulted: if index < self.handles().len() {
                        (index + 1) as usize
                    } else {
                        self.handles().len() as usize
                    },
                }),
            },
    {
        let next = if index < self.handles.len() {
            index + 1
        } else {
            self.handles.len()
        };
        match reply {
            ChainOutcome::NotHandled => self.walk(next, name, rtype),
            _ => ChainStep::Done { outcome: reply, consulted: next },
        }
    }
}

} // verus!
