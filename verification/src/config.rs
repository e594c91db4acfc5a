//! The configuration of the stores of a zone, as a loader hands it over.

use vstd::prelude::*;
use crate::name::{chars_of, text_of};

verus! {

/// The stores of a zone: one store, or several that are consulted in the
/// order in which they are written.
#[derive(Debug, PartialEq, Eq)]
pub enum StoreConfig {
    /// For a zone with a single store.
    Single(StoreConfigElement),
    /// For a zone with several stores, such as a block list before a
    /// forwarder.
    Chained(Vec<StoreConfigElement>),
}

/// The configuration of one store.
#[derive(Debug, PartialEq, Eq)]
pub enum StoreConfigElement {
    /// A zone file.
    File(FileConfig),
    /// A zone kept in a database.
    Sqlite(SqliteConfig),
    /// A forwarding resolver.
    Forward(ForwardConfig),
    /// A recursive resolver.
    Recursor(RecursiveConfig),
    /// A block list.
    BlockList(BlockListConfig),
}

/// Where a zone file lies.
#[derive(Debug, PartialEq, Eq)]
pub struct FileConfig {
    pub zone_file_path: String,
}

/// Where a zone database and its journal lie.
#[derive(Debug, PartialEq, Eq)]
pub struct SqliteConfig {
    pub zone_file_path: String,
    pub journal_file_path: String,
    pub allow_update: bool,
}

/// The name servers that a forwarder asks.
#[derive(Debug, PartialEq, Eq)]
pub struct ForwardConfig {
    pub name_servers: Vec<String>,
}

/// Where the root hints of a recursor lie.
#[derive(Debug, PartialEq, Eq)]
pub struct RecursiveConfig {
    pub roots: String,
}

/// The configuration of a blocklist store.
#[derive(Debug, PartialEq, Eq)]
pub struct BlockListConfig {
    /// The list files, relative to the root directory of the configuration.
    pub lists: Vec<String>,
    /// Whether wildcard entries count at all.
    pub wildcard_match: bool,
    /// How many labels next to the root never anchor a wildcard on their own.
    pub min_wildcard_depth: u8,
}

/// The kinds of store that a zone can have.
#[derive(Clone, Copy, Debug, PartialEq, Eq, Structural)]
pub enum StoreKind {
    File,
    Database,
    Forward,
    Recursor,
    Blocklist,
}

/// The path of a list file below a root directory.
pub open spec fn joined(root_dir: Seq<char>, list: Seq<char>) -> Seq<char> {
    root_dir.push('/') + list
}

impl StoreConfigElement {
    /// The kind of store that is configured.
    pub open spec fn spec_kind(&self) -> StoreKind {
        match self {
            StoreConfigElement::File(_) => StoreKind::File,
            StoreConfigElement::Sqlite(_) => StoreKind::Database,
            StoreConfigElement::Forward(_) => StoreKind::Forward,
            StoreConfigElement::Recursor(_) => StoreKind::Recursor,
            StoreConfigElement::BlockList(_) => StoreKind::Blocklist,
        }
    }

    /// The kind of store that is configured.
    pub fn kind(&self) -> (k: StoreKind)
        ensures
            k == self.spec_kind(),
    {
        match self {
            StoreConfigElement::File(_) => StoreKind::File,
            StoreConfigElement::Sqlite(_) => StoreKind::Database,
            StoreConfigElement::Forward(_) => StoreKind::Forward,
            StoreConfigElement::Recursor(_) => StoreKind::Recursor,
            StoreConfigElement::BlockList(_) => StoreKind::Blocklist,
        }
    }
}

impl StoreConfig {
    /// The configured stores, in the order in which they are consulted.
    pub open spec fn elements(&self) -> Seq<StoreConfigElement> {
        match self {
            StoreConfig::Single(e) => seq![*e],
            StoreConfig::Chained(v) => v@,
        }
    }

    /// The number of configured stores.
    pub fn len(&self) -> (n: usize)
        ensures
            n == self.elements().len(),
    {
        match self {
            StoreConfig::Single(_) => 1,
            StoreConfig::Chained(v) => v.len(),
        }
    }

    /// The store configured at position `i`, if there is one.
    pub fn get(&self, i: usize) -> (r: Option<&StoreConfigElement>)
        ensures
            match r {
                Some(e) => i < self.elements().len() && *e == self.elements()[i as int],
                None => i >= self.elements().len(),
            },
    {
        match self {
            StoreConfig::Single(e) => if i == 0 {
                Some(e)
            } else {
                None
            },
            StoreConfig::Chained(v) => if i < v.len() {
                Some(&v[i])
            } else {
                None
            },
        }
    }
}

/// The path of a list file below a root directory.
fn join_path(root_dir: &str, list: &str) -> (r: String)
    ensures
        r@ == joined(root_dir@, list@),
{
    let mut path = chars_of(root_dir);
    path.push('/');
    let list = chars_of(list);
    let mut k: usize = 0;
    while k < list.len()
        invariant
            k <= list@.len(),
            path@ == root_dir@.push('/') + list@.take(k as int),
        decreases list@.len() - k,
    {
        path.push(list[k]);
        k += 1;
    }
    text_of(&path)
}

impl BlockListConfig {
    /// The paths of the list files, each resolved against `root_dir`, in the
    /// order of the configuration.
    pub fn list_paths(&self, root_dir: &str) -> (r: Vec<String>)
        ensures
            r@.len() == self.lists@.len(),
            forall|i: int|
                0 <= i < r@.len() ==> (#[trigger] r@[i])@ == joined(root_dir@, self.lists@[i]@),
    {
        let mut paths: Vec<String> = Vec::new();
        let mut i: usize = 0;
        while i < self.lists.len()
            invariant
                i <= self.lists@.len(),
                paths@.len() == i,
                forall|k: int|
                    0 <= k < i ==> (#[trigger] paths@[k])@ == joined(root_dir@, self.lists@[k]@),
            decreases self.lists@.len() - i,
        {
            paths.push(join_path(root_dir, self.lists[i].as_str()));
            i += 1;
        }
        paths
    }
}

} // verus!
