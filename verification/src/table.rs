//! Records kept under byte-string keys, in the order in which the keys came.
//!
//! A table is read through its first record for a key. The operations here
//! never add a second record for a key that has one, so a table that starts
//! out with distinct keys keeps them distinct.

use crate::bigendian::bytes_eq;
use vstd::prelude::*;
use vstd::slice::slice_to_vec;

verus! {

/// One record of a table.
#[derive(Clone, Debug, PartialEq, Eq)]
pub struct Entry<V> {
    pub key: Vec<u8>,
    pub value: V,
}

/// Records under byte-string keys, oldest key first.
#[derive(Clone, Debug, PartialEq, Eq)]
pub struct Table<V> {
    pub entries: Vec<Entry<V>>,
}

impl<V> View for Table<V> {
    type V = Seq<(Seq<u8>, V)>;

    /// The records as pairs of key and value, oldest key first.
    open spec fn view(&self) -> Seq<(Seq<u8>, V)> {
        self.entries@.map_values(|e: Entry<V>| (e.key@, e.value))
    }
}

/// Where the first record for `key` stands, or the number of records where
/// there is none.
pub open spec fn index_of_key<V>(records: Seq<(Seq<u8>, V)>, key: Seq<u8>) -> int
    decreases records.len(),
{
    if records.len() == 0 {
        0
    } else if records[0].0 == key {
        0
    } else {
        1 + index_of_key(records.drop_first(), key)
    }
}

/// True when there is a record for `key`.
pub open spec fn has_key<V>(records: Seq<(Seq<u8>, V)>, key: Seq<u8>) -> bool {
    index_of_key(records, key) < records.len()
}

/// The value recorded for `key`, if any.
pub open spec fn lookup<V>(records: Seq<(Seq<u8>, V)>, key: Seq<u8>) -> Option<V> {
    if has_key(records, key) {
        Some(records[index_of_key(records, key)].1)
    } else {
        None
    }
}

/// The records after `value` is recorded for `key`: the record for `key` is
/// replaced where it stands, or a new record is added at the end.
pub open spec fn upsert<V>(records: Seq<(Seq<u8>, V)>, key: Seq<u8>, value: V) -> Seq<
    (Seq<u8>, V),
> {
    if has_key(records, key) {
        records.update(index_of_key(records, key), (key, value))
    } else {
        records.push((key, value))
    }
}

/// True when no two records have the same key.
pub open spec fn distinct_keys<V>(records: Seq<(Seq<u8>, V)>) -> bool {
    forall|i: int, j: int|
        0 <= i < j < records.len() ==> (#[trigger] records[i]).0 != (#[trigger] records[j]).0
}

/// Where a page starts among `len` records: after `page` pages of
/// `page_size` records, or at the end where there are not that many.
pub open spec fn page_start(len: nat, page: nat, page_size: nat) -> nat {
    if page * page_size < len {
        page * page_size
    } else {
        len
    }
}

/// Where a page ends among `len` records: `page_size` records after its
/// start, or at the end where there are not that many.
pub open spec fn page_end(len: nat, page: nat, page_size: nat) -> nat {
    if page * page_size + page_size < len {
        page * page_size + page_size
    } else {
        len
    }
}

/// Pages follow one another without gap or overlap: each page ends where the
/// next one starts, the first page starts at the first record, and no page
/// holds more than `page_size` records.
pub proof fn lemma_pages_are_adjacent(len: nat, page: nat, page_size: nat)
    ensures
        page_start(len, 0, page_size) == 0,
        page_end(len, page, page_size) == page_start(len, page + 1, page_size),
        page_start(len, page, page_size) <= page_end(len, page, page_size) <= len,
        page_end(len, page, page_size) - page_start(len, page, page_size) <= page_size,
{
    assert((page + 1) * page_size == page * page_size + page_size) by (nonlinear_arith);
    assert(0 * page_size == 0) by (nonlinear_arith);
    assert(page * page_size >= 0) by (nonlinear_arith);
}

/// The first record for a key stands within the table or at its end; it has
/// the key, and no record before it has.
pub proof fn lemma_index_of_key<V>(records: Seq<(Seq<u8>, V)>, key: Seq<u8>)
    ensures
        0 <= index_of_key(records, key) <= records.len(),
        has_key(records, key) ==> records[index_of_key(records, key)].0 == key,
        forall|j: int| 0 <= j < index_of_key(records, key) ==> (#[trigger] records[j]).0 != key,
    decreases records.len(),
{
    if records.len() > 0 && records[0].0 != key {
        let rest = records.drop_first();
        lemma_index_of_key(rest, key);
        assert forall|j: int| 0 <= j < index_of_key(records, key) implies (#[trigger] records[j]).0
            != key by {
            if j > 0 {
                assert(rest[j - 1] == records[j]);
            }
        }
    }
}

/// A place that has the key, or is the end, and has no record with the key
/// before it is where the first record for the key stands.
pub proof fn lemma_index_of_key_is<V>(records: Seq<(Seq<u8>, V)>, key: Seq<u8>, at: int)
    requires
        0 <= at <= records.len(),
        at < records.len() ==> records[at].0 == key,
        forall|j: int| 0 <= j < at ==> (#[trigger] records[j]).0 != key,
    ensures
        index_of_key(records, key) == at,
{
    lemma_index_of_key(records, key);
}

/// What was recorded for a key is what is found under it.
pub proof fn lemma_lookup_after_upsert<V>(records: Seq<(Seq<u8>, V)>, key: Seq<u8>, value: V)
    ensures
        lookup(upsert(records, key, value), key) == Some(value),
        upsert(records, key, value).len() == if has_key(records, key) {
            records.len()
        } else {
            records.len() + 1
        },
{
    lemma_index_of_key(records, key);
    let after = upsert(records, key, value);
    lemma_index_of_key_is(after, key, index_of_key(records, key));
}

/// Recording a value for one key changes nothing under another key.
pub proof fn lemma_lookup_after_upsert_other<V>(
    records: Seq<(Seq<u8>, V)>,
    key: Seq<u8>,
    value: V,
    other: Seq<u8>,
)
    requires
        other != key,
    ensures
        lookup(upsert(records, key, value), other) == lookup(records, other),
        has_key(upsert(records, key, value), other) == has_key(records, other),
{
    lemma_index_of_key(records, key);
    lemma_index_of_key(records, other);
    let after = upsert(records, key, value);
    let at = index_of_key(records, other);
    if has_key(records, other) || has_key(records, key) {
        lemma_index_of_key_is(after, other, at);
    } else {
        lemma_index_of_key_is(after, other, at + 1);
    }
}

/// Recording a value keeps distinct keys distinct.
pub proof fn lemma_upsert_keeps_keys_distinct<V>(records: Seq<(Seq<u8>, V)>, key: Seq<u8>, value: V)
    requires
        distinct_keys(records),
    ensures
        distinct_keys(upsert(records, key, value)),
{
    lemma_index_of_key(records, key);
}

impl<V: Copy> Table<V> {
    /// A table without records.
    pub fn new() -> (table: Table<V>)
        ensures
            table@ == Seq::<(Seq<u8>, V)>::empty(),
    {
        Table { entries: Vec::new() }
    }

    /// The number of records.
    pub fn len(&self) -> (len: usize)
        ensures
            len == self@.len(),
    {
        self.entries.len()
    }

    /// Where the first record for `key` stands, or the number of records
    /// where there is none.
    pub fn find(&self, key: &[u8]) -> (at: usize)
        ensures
            at == index_of_key(self@, key@),
            at <= self@.len(),
    {
        let mut i: usize = 0;
        while i < self.entries.len()
            invariant
                i <= self.entries.len(),
                forall|j: int| 0 <= j < i ==> (#[trigger] self@[j]).0 != key@,
            decreases self.entries.len() - i,
        {
            if bytes_eq(self.entries[i].key.as_slice(), key) {
                proof {
                    lemma_index_of_key_is(self@, key@, i as int);
                }
                return i;
            }
            i += 1;
        }
        proof {
            lemma_index_of_key_is(self@, key@, i as int);
        }
        i
    }

    /// Tells whether there is a record for `key`.
    pub fn contains_key(&self, key: &[u8]) -> (found: bool)
        ensures
            found == has_key(self@, key@),
    {
        self.find(key) < self.entries.len()
    }

    /// The value recorded for `key`, if any.
    pub fn get(&self, key: &[u8]) -> (value: Option<V>)
        ensures
            value == lookup(self@, key@),
    {
        let at: usize = self.find(key);
        if at < self.entries.len() {
            Some(self.entries[at].value)
        } else {
            None
        }
    }

    /// Records `value` for `key`: in place of the value that `key` had, or
    /// as a new record after all others.
    pub fn insert(&mut self, key: Vec<u8>, value: V)
        ensures
            final(self)@ == upsert(old(self)@, key@, value),
    {
        let at: usize = self.find(key.as_slice());
        if at < self.entries.len() {
            self.entries.set(at, Entry { key, value });
        } else {
            self.entries.push(Entry { key, value });
        }
    }

    /// The key and the value of the record at `at`.
    fn entry_at(&self, at: usize) -> (pair: (Vec<u8>, V))
        requires
            at < self@.len(),
        ensures
            (pair.0@, pair.1) == self@[at as int],
    {
        (slice_to_vec(self.entries[at].key.as_slice()), self.entries[at].value)
    }

    /// The records of one page, oldest key first. Pages are counted from
    /// zero and hold `page_size` records each; a page past the end is empty.
    pub fn page(&self, page: u64, page_size: u64) -> (records: Vec<(Vec<u8>, V)>)
        ensures
            pairs_of(records@) == self@.subrange(
                page_start(self@.len(), page as nat, page_size as nat) as int,
                page_end(self@.len(), page as nat, page_size as nat) as int,
            ),
    {
        let (start, end) = page_bounds(self.entries.len(), page, page_size);
        let mut records: Vec<(Vec<u8>, V)> = Vec::new();
        let mut i: usize = start;
        while i < end
            invariant
                start <= i <= end <= self@.len(),
                pairs_of(records@) =~= self@.subrange(start as int, i as int),
            decreases end - i,
        {
            records.push(self.entry_at(i));
            i += 1;
            assert(self@.subrange(start as int, i as int) =~= self@.subrange(
                start as int,
                i - 1,
            ).push(self@[i - 1]));
        }
        records
    }
}

/// The keys and values that a list of records holds.
pub open spec fn pairs_of<V>(records: Seq<(Vec<u8>, V)>) -> Seq<(Seq<u8>, V)> {
    records.map_values(|pair: (Vec<u8>, V)| (pair.0@, pair.1))
}

/// Where a page starts and ends among `len` records.
pub fn page_bounds(len: usize, page: u64, page_size: u64) -> (bounds: (usize, usize))
    ensures
        bounds.0 == page_start(len as nat, page as nat, page_size as nat),
        bounds.1 == page_end(len as nat, page as nat, page_size as nat),
        bounds.0 <= bounds.1 <= len,
{
    let total: u128 = len as u128;
    assert(page * page_size <= 0xffff_ffff_ffff_ffff * 0xffff_ffff_ffff_ffff) by (nonlinear_arith)
        requires
            0 <= page <= 0xffff_ffff_ffff_ffff,
            0 <= page_size <= 0xffff_ffff_ffff_ffff,
    ;
    let first: u128 = (page as u128) * (page_size as u128);
    let after: u128 = first + page_size as u128;
    let start: usize = if first < total {
        first as usize
    } else {
        len
    };
    let end: usize = if after < total {
        after as usize
    } else {
        len
    };
    (start, end)
}

} // verus!
