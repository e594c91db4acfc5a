//! Queries and resource records, as far as this library reads or writes them.

use vstd::prelude::*;

verus! {

/// The type of a resource record.
#[derive(Clone, Copy, Debug, PartialEq, Eq, Structural)]
pub enum RecordType {
    A,
    AAAA,
    ANY,
    CNAME,
    MX,
    NS,
    NSEC,
    PTR,
    SOA,
    SRV,
    TXT,
    /// Any other type, by its code.
    Unknown(u16),
}

/// An IPv4 address, as the data of an `A` record.
#[derive(Clone, Copy, Debug, PartialEq, Eq, Structural)]
pub struct A(pub u8, pub u8, pub u8, pub u8);

impl A {
    /// The address `a.b.c.d`.
    pub fn new(a: u8, b: u8, c: u8, d: u8) -> (r: A)
        ensures
            r == A(a, b, c, d),
    {
        A(a, b, c, d)
    }

    /// The address `0.0.0.0`, which routes nowhere.
    pub open spec fn null() -> A {
        A(0, 0, 0, 0)
    }
}

/// The data of a resource record.
#[derive(Clone, Debug, PartialEq, Eq)]
pub enum RData {
    /// An IPv4 address.
    A(A),
    /// The data of a record of another type, carried through unread.
    Opaque(Vec<u8>),
}

/// A resource record: data of some type, bound to a name.
#[derive(Clone, Debug, PartialEq, Eq)]
pub struct Record {
    pub name: String,
    pub record_type: RecordType,
    pub rdata: RData,
}

/// A question: a name and the record type asked for.
#[derive(Clone, Debug, PartialEq, Eq)]
pub struct Query {
    pub name: String,
    pub query_type: RecordType,
}

impl Query {
    /// The question for records of type `query_type` at `name`.
    pub fn query(name: String, query_type: RecordType) -> (q: Query)
        ensures
            q.name == name,
            q.query_type == query_type,
    {
        Query { name, query_type }
    }
}

/// Whether `records` is the answer given for a blocked name: one `A` record
/// for that name, bound to the null address.
pub open spec fn is_sinkhole(records: Seq<Record>, name: Seq<char>) -> bool {
    &&& records.len() == 1
    &&& records[0].name@ == name
    &&& records[0].record_type == RecordType::A
    &&& records[0].rdata == RData::A(A::null())
}

/// The answer of the blocklist store to a question about a blocked name.
#[derive(Debug, PartialEq, Eq)]
pub struct BlockListLookup {
    query: Query,
    records: Vec<Record>,
}

impl BlockListLookup {
    /// The question that was answered.
    pub closed spec fn query(&self) -> Query {
        self.query
    }

    /// The records of the answer.
    pub closed spec fn records(&self) -> Seq<Record> {
        self.records@
    }

    /// The answer that sinks the question: whatever record type was asked
    /// for, one `A` record for the name asked about, bound to `0.0.0.0`.
    pub fn sinkhole(query: Query) -> (l: BlockListLookup)
        ensures
            l.query() == query,
            is_sinkhole(l.records(), query.name@),
    {
        let name = query.name.clone();
        let record = Record { name, record_type: RecordType::A, rdata: RData::A(A::new(0, 0, 0, 0)) };
        let mut records: Vec<Record> = Vec::new();
        records.push(record);
        BlockListLookup { query, records }
    }

    /// Whether the answer holds no record.
    pub fn is_empty(&self) -> (r: bool)
        ensures
            r == (self.records().len() == 0),
    {
        self.records.len() == 0
    }

    /// The records of the answer, in order.
    pub fn iter(&self) -> (r: &Vec<Record>)
        ensures
            r@ == self.records(),
    {
        &self.records
    }

    /// The additional records that go with the answer: there are none.
    pub fn take_additionals(&mut self) -> (r: Option<BlockListLookup>)
        ensures
            r is None,
            *final(self) == *old(self),
    {
        None
    }

    /// Gives up the records of the answer.
    pub fn into_records(self) -> (r: Vec<Record>)
        ensures
            r@ == self.records(),
    {
        self.records
    }

    /// The question that was answered.
    pub fn question(&self) -> (q: &Query)
        ensures
            *q == self.query(),
    {
        &self.query
    }
}

} // verus!
