//! The record queries: extracting the key material from a request body,
//! filtering the ledger's record store, and collecting the result into an
//! ordered commitment-to-record mapping whose insertion order follows the
//! scan order — clients may rely on the same query returning the same
//! mapping in the same order against an unchanged ledger.

use crate::chain::{ChainState, RecordInfo};
use crate::routes::seg_is;
use vstd::prelude::*;

verus! {

/// Why the key material of a record query was refused: a field the query
/// needs is missing from its body. (Key material that is present but
/// unparsable is refused by the external library that parses it; both are
/// client errors, never a crash.)
#[derive(Clone, Copy, PartialEq, Eq, Structural, Debug)]
pub enum KeyError {
    /// The body names no view key.
    MissingViewKey,
    /// The body names no graph key.
    MissingGraphKey,
}

/// The first value under this name among the body's fields, if any.
pub open spec fn lookup_field(pairs: Seq<(Seq<char>, Seq<char>)>, name: Seq<char>) -> Option<
    Seq<char>,
>
    decreases pairs.len(),
{
    if pairs.len() == 0 {
        None
    } else if pairs[0].0 == name {
        Some(pairs[0].1)
    } else {
        lookup_field(pairs.drop_first(), name)
    }
}

/// Finds the first field with this name in a parsed body.
pub fn find_field(pairs: &Vec<(String, String)>, name: &str) -> (r: Option<String>)
    ensures
        match r {
            Some(v) => lookup_field(pairs.deep_view(), name@) == Some(v@),
            None => lookup_field(pairs.deep_view(), name@) is None,
        },
{
    let n = pairs.len();
    let mut i: usize = 0;
    proof {
        assert(pairs.deep_view().skip(0) =~= pairs.deep_view());
    }
    while i < n
        invariant
            n == pairs@.len(),
            0 <= i <= n,
            lookup_field(pairs.deep_view(), name@) == lookup_field(
                pairs.deep_view().skip(i as int),
                name@,
            ),
        decreases n - i,
    {
        proof {
            let d = pairs.deep_view();
            assert(d.skip(i as int)[0] == d[i as int]);
            assert(d.skip(i as int).drop_first() =~= d.skip(i as int + 1));
        }
        if seg_is(&pairs[i].0, name) {
            return Some(pairs[i].1.clone());
        }
        i = i + 1;
    }
    proof {
        assert(pairs.deep_view().skip(n as int) =~= Seq::<(Seq<char>, Seq<char>)>::empty());
    }
    None
}

/// Takes the view key and the graph key out of a spent- or
/// unspent-records body: both must be present, and each is refused by
/// name when missing. The keys themselves stay opaque strings here; the
/// external library parses them.
pub fn record_query_keys(pairs: &Vec<(String, String)>) -> (r: Result<(String, String), KeyError>)
    ensures
        match r {
            Ok(keys) => {
                &&& lookup_field(pairs.deep_view(), "view_key"@) == Some(keys.0@)
                &&& lookup_field(pairs.deep_view(), "graph_key"@) == Some(keys.1@)
            },
            Err(KeyError::MissingViewKey) => lookup_field(pairs.deep_view(), "view_key"@) is None,
            Err(KeyError::MissingGraphKey) => {
                &&& lookup_field(pairs.deep_view(), "view_key"@) is Some
                &&& lookup_field(pairs.deep_view(), "graph_key"@) is None
            },
        },
{
    let view_key = match find_field(pairs, "view_key") {
        Some(v) => v,
        None => {
            return Err(KeyError::MissingViewKey);
        },
    };
    let graph_key = match find_field(pairs, "graph_key") {
        Some(v) => v,
        None => {
            return Err(KeyError::MissingGraphKey);
        },
    };
    Ok((view_key, graph_key))
}

/// Which records a query asks for.
#[derive(Clone, Copy, PartialEq, Eq, Structural, Debug)]
pub enum RecordFilter {
    /// Every record.
    All,
    /// Only the spent records.
    Spent,
    /// Only the unspent records.
    Unspent,
}

/// Whether a record belongs to the filter's subset.
pub open spec fn matches_filter(filter: RecordFilter, r: RecordInfo) -> bool {
    match filter {
        RecordFilter::All => true,
        RecordFilter::Spent => r.spent,
        RecordFilter::Unspent => !r.spent,
    }
}

/// The scan a record query performs: the commitment-record pairs of the
/// records in the filter's subset, in store order.
pub open spec fn filtered_records(rs: Seq<RecordInfo>, filter: RecordFilter) -> Seq<(u64, u64)>
    decreases rs.len(),
{
    if rs.len() == 0 {
        Seq::empty()
    } else {
        let rest = filtered_records(rs.drop_last(), filter);
        if matches_filter(filter, rs.last()) {
            rest.push((rs.last().commitment, rs.last().record))
        } else {
            rest
        }
    }
}

/// No key appears twice in the sequence of pairs.
pub open spec fn keys_distinct(s: Seq<(u64, u64)>) -> bool {
    forall|i: int, j: int| 0 <= i < j < s.len() ==> (#[trigger] s[i]).0 != (#[trigger] s[j]).0
}

/// The ordered map type of the indexmap crate, declared so that the
/// gateway can hold one; what it contains is named by `record_entries`.
#[verifier::external_type_specification]
#[verifier::external_body]
#[verifier::reject_recursive_types(K)]
#[verifier::reject_recursive_types(V)]
#[verifier::reject_recursive_types(S)]
pub struct ExIndexMap<K, V, S>(indexmap::IndexMap<K, V, S>);

/// The contents of an ordered commitment-to-record mapping, as the
/// sequence of its pairs in insertion order.
pub uninterp spec fn record_entries(m: indexmap::IndexMap<u64, u64>) -> Seq<(u64, u64)>;

/// Relies on indexmap::IndexMap::new: the new map is empty.
#[verifier::external_body]
fn im_new() -> (m: indexmap::IndexMap<u64, u64>)
    ensures
        record_entries(m) == Seq::<(u64, u64)>::empty(),
{
    indexmap::IndexMap::new()
}

/// Relies on indexmap::IndexMap::insert: a key not yet present is
/// appended, last in order, and None comes back; a present key keeps its
/// place, its value is replaced, and the old value comes back.
#[verifier::external_body]
fn im_insert(m: &mut indexmap::IndexMap<u64, u64>, key: u64, value: u64) -> (prev: Option<u64>)
    ensures
        (forall|i: int|
            0 <= i < record_entries(*old(m)).len() ==> (#[trigger] record_entries(*old(m))[i]).0
                != key) ==> record_entries(*final(m)) == record_entries(*old(m)).push((key, value))
            && prev is None,
        (exists|i: int|
            0 <= i < record_entries(*old(m)).len() && (#[trigger] record_entries(*old(m))[i]).0
                == key) ==> exists|i: int|
            {
                &&& 0 <= i < record_entries(*old(m)).len()
                &&& (#[trigger] record_entries(*old(m))[i]).0 == key
                &&& prev == Some(record_entries(*old(m))[i].1)
                &&& record_entries(*final(m)) == record_entries(*old(m)).update(i, (key, value))
            },
{
    m.insert(key, value)
}

/// Relies on indexmap::IndexMap::len: the number of pairs held.
#[verifier::external_body]
fn im_len(m: &indexmap::IndexMap<u64, u64>) -> (n: usize)
    ensures
        n as nat == record_entries(*m).len(),
{
    m.len()
}

/// Relies on indexmap::IndexMap::get_index: the pair at this position in
/// order, or nothing past the end.
#[verifier::external_body]
fn im_get_index(m: &indexmap::IndexMap<u64, u64>, i: usize) -> (r: Option<(u64, u64)>)
    ensures
        (i as nat) < record_entries(*m).len() ==> r == Some(record_entries(*m)[i as int]),
        (i as nat) >= record_entries(*m).len() ==> r is None,
{
    m.get_index(i).map(|(k, v)| (*k, *v))
}

/// The ordered commitment-to-record mapping a record query answers with.
/// Its view is the sequence of its pairs in insertion order.
pub struct RecordMap {
    map: indexmap::IndexMap<u64, u64>,
}

impl View for RecordMap {
    type V = Seq<(u64, u64)>;

    closed spec fn view(&self) -> Seq<(u64, u64)> {
        record_entries(self.map)
    }
}

impl RecordMap {
    /// An empty mapping.
    pub fn new() -> (m: RecordMap)
        ensures
            m@ == Seq::<(u64, u64)>::empty(),
    {
        RecordMap { map: im_new() }
    }

    /// Appends a record under a commitment not yet present: it goes last
    /// in order.
    pub fn push_record(&mut self, commitment: u64, record: u64)
        requires
            forall|i: int| 0 <= i < old(self)@.len() ==> (#[trigger] old(self)@[i]).0 != commitment,
        ensures
            final(self)@ == old(self)@.push((commitment, record)),
    {
        let _ = im_insert(&mut self.map, commitment, record);
    }

    /// How many records the mapping holds.
    pub fn len(&self) -> (n: usize)
        ensures
            n as nat == self@.len(),
    {
        im_len(&self.map)
    }

    /// The pair at this position in insertion order, or nothing past the
    /// end.
    pub fn get_index(&self, i: usize) -> (r: Option<(u64, u64)>)
        ensures
            (i as nat) < self@.len() ==> r == Some(self@[i as int]),
            (i as nat) >= self@.len() ==> r is None,
    {
        im_get_index(&self.map, i)
    }
}

/// Collects a scan's pairs into an ordered mapping, preserving the scan
/// order exactly: the mapping is a function of the scan alone, so the
/// same scan always yields the same mapping in the same order.
pub fn collect_records(scan: &Vec<(u64, u64)>) -> (m: RecordMap)
    requires
        keys_distinct(scan@),
    ensures
        m@ == scan@,
{
    let mut m = RecordMap::new();
    let n = scan.len();
    let mut i: usize = 0;
    while i < n
        invariant
            n == scan@.len(),
            0 <= i <= n,
            keys_distinct(scan@),
            m@ == scan@.subrange(0, i as int),
        decreases n - i,
    {
        let (c, r) = scan[i];
        m.push_record(c, r);
        proof {
            assert(scan@.subrange(0, i as int + 1) =~= scan@.subrange(0, i as int).push(
                scan@[i as int],
            ));
        }
        i = i + 1;
    }
    proof {
        assert(scan@.subrange(0, n as int) =~= scan@);
    }
    m
}

/// Every pair a scan yields takes its commitment from some record of the
/// store.
proof fn lemma_filtered_keys_from(rs: Seq<RecordInfo>, filter: RecordFilter)
    ensures
        forall|j: int|
            0 <= j < filtered_records(rs, filter).len() ==> exists|i: int|
                0 <= i < rs.len() && (#[trigger] filtered_records(rs, filter)[j]).0
                    == rs[i].commitment,
    decreases rs.len(),
{
    if rs.len() > 0 {
        lemma_filtered_keys_from(rs.drop_last(), filter);
        let out = filtered_records(rs, filter);
        let rest = filtered_records(rs.drop_last(), filter);
        assert forall|j: int| 0 <= j < out.len() implies exists|i: int|
            0 <= i < rs.len() && (#[trigger] out[j]).0 == rs[i].commitment by {
            if j < rest.len() {
                let i = choose|i: int|
                    0 <= i < rs.drop_last().len() && rest[j].0 == rs.drop_last()[i].commitment;
                assert(0 <= i < rs.len() && out[j].0 == rs[i].commitment);
            } else {
                assert(out[j].0 == rs[rs.len() - 1].commitment);
            }
        }
    }
}

/// A scan over a store with pairwise-distinct commitments yields pairs
/// with pairwise-distinct keys.
pub proof fn lemma_filtered_distinct(rs: Seq<RecordInfo>, filter: RecordFilter)
    requires
        forall|i: int, j: int|
            0 <= i < j < rs.len() ==> (#[trigger] rs[i]).commitment != (
            #[trigger] rs[j]).commitment,
    ensures
        keys_distinct(filtered_records(rs, filter)),
    decreases rs.len(),
{
    if rs.len() > 0 {
        lemma_filtered_distinct(rs.drop_last(), filter);
        lemma_filtered_keys_from(rs.drop_last(), filter);
        let out = filtered_records(rs, filter);
        let rest = filtered_records(rs.drop_last(), filter);
        if matches_filter(filter, rs.last()) {
            assert forall|i: int, j: int| 0 <= i < j < out.len() implies (#[trigger] out[i]).0 != (
            #[trigger] out[j]).0 by {
                if j == rest.len() {
                    let k = choose|k: int|
                        0 <= k < rs.drop_last().len() && rest[i].0 == rs.drop_last()[k].commitment;
                    assert(rs[k].commitment != rs[rs.len() - 1].commitment);
                }
            }
        }
    }
}

/// Repeated identical queries against an unchanged ledger answer with
/// the same mapping in the same order: a record query's answer is pinned
/// by the ledger's records and the filter alone.
pub proof fn lemma_stable_order(
    rs: Seq<RecordInfo>,
    filter: RecordFilter,
    first: Seq<(u64, u64)>,
    second: Seq<(u64, u64)>,
)
    requires
        first == filtered_records(rs, filter),
        second == filtered_records(rs, filter),
    ensures
        first == second,
{
}

/// Scans the ledger's record store for the filter's subset, in store
/// order.
pub fn scan_records(chain: &ChainState, filter: RecordFilter) -> (out: Vec<(u64, u64)>)
    ensures
        out@ == filtered_records(chain.records_view(), filter),
{
    let rs = chain.records();
    let n = rs.len();
    let mut out: Vec<(u64, u64)> = Vec::new();
    let mut i: usize = 0;
    while i < n
        invariant
            n == rs@.len(),
            rs@ == chain.records_view(),
            0 <= i <= n,
            out@ == filtered_records(rs@.subrange(0, i as int), filter),
        decreases n - i,
    {
        let r = rs[i];
        let keep = match filter {
            RecordFilter::All => true,
            RecordFilter::Spent => r.spent,
            RecordFilter::Unspent => !r.spent,
        };
        proof {
            let p = rs@.subrange(0, i as int);
            let q = rs@.subrange(0, i as int + 1);
            assert(q.drop_last() =~= p);
            assert(q.last() == rs@[i as int]);
        }
        if keep {
            out.push((r.commitment, r.record));
        }
        i = i + 1;
    }
    proof {
        assert(rs@.subrange(0, n as int) =~= rs@);
    }
    out
}

/// Answers a record query against a well-formed ledger: the filter's
/// subset of the record store, as an ordered mapping whose insertion
/// order is the store's scan order. The answer is a function of the
/// ledger's records and the filter alone, so repeated identical queries
/// against an unchanged ledger return the same mapping in the same
/// stable order.
pub fn records_response(chain: &ChainState, filter: RecordFilter) -> (m: RecordMap)
    requires
        chain.wf(),
    ensures
        m@ == filtered_records(chain.records_view(), filter),
{
    proof {
        chain.lemma_records_distinct();
        lemma_filtered_distinct(chain.records_view(), filter);
    }
    let scan = scan_records(chain, filter);
    collect_records(&scan)
}

} // verus!
