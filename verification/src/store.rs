//! The result store: an ordered mapping from URL to its last known record.

use crate::record::{ArchiveRecord, RecordView};
use crate::text::{key_before, lemma_key_order, order_of, KeyOrder};
use crate::time::{is_within_window, within_window, Timestamp};
use vstd::prelude::*;

verus! {

/// One URL with its record.
#[derive(Clone, Debug, PartialEq, Eq)]
pub struct Entry {
    pub url: String,
    pub record: ArchiveRecord,
}

/// An [`Entry`] as a mathematical value: the key and the record.
pub type EntryView = (Seq<char>, RecordView);

impl View for Entry {
    type V = EntryView;

    open spec fn view(&self) -> EntryView {
        (self.url@, self.record@)
    }
}

/// The entries of a list as mathematical values, in the same order.
pub open spec fn listing(list: Seq<Entry>) -> Seq<EntryView> {
    list.map_values(|e: Entry| e@)
}

/// Keys ascend strictly: each entry's key comes before those after it.
pub open spec fn ascending(list: Seq<EntryView>) -> bool {
    forall|i: int, j: int| 0 <= i < j < list.len() ==> key_before(list[i].0, list[j].0)
}

/// The mapping that comes from reading `list` front to back, a later entry
/// for a key replacing an earlier one.
pub open spec fn collect(list: Seq<EntryView>) -> Map<Seq<char>, RecordView>
    decreases list.len(),
{
    if list.len() == 0 {
        Map::empty()
    } else {
        collect(list.drop_last()).insert(list.last().0, list.last().1)
    }
}

/// `list` holds exactly the pairs of `m`, in ascending order of key.
pub open spec fn lists(list: Seq<EntryView>, m: Map<Seq<char>, RecordView>) -> bool {
    &&& ascending(list)
    &&& forall|i: int| 0 <= i < list.len() ==> m.contains_pair(list[i].0, list[i].1)
    &&& forall|k: Seq<char>| m.contains_key(k) ==> exists|i: int| 0 <= i < list.len() && list[i].0 == k
}

/// Whether `m` holds a record for `url` that is still fresh at `now`: the
/// rule by which a URL is passed over.
pub open spec fn fresh_in(m: Map<Seq<char>, RecordView>, url: Seq<char>, now: Timestamp) -> bool {
    m.contains_key(url) && within_window(now, m[url].last_archived)
}

/// A key is in the mapping read from `list` exactly when `list` names it.
pub proof fn lemma_collect_has_key(list: Seq<EntryView>, k: Seq<char>)
    ensures
        collect(list).contains_key(k) <==> exists|i: int| 0 <= i < list.len() && list[i].0 == k,
    decreases list.len(),
{
    if list.len() > 0 {
        let front = list.drop_last();
        lemma_collect_has_key(front, k);
        if list.last().0 == k {
            assert(list[list.len() - 1].0 == k);
        } else if collect(front).contains_key(k) {
            let i = choose|i: int| 0 <= i < front.len() && front[i].0 == k;
            assert(list[i].0 == k);
        } else if exists|i: int| 0 <= i < list.len() && list[i].0 == k {
            let i = choose|i: int| 0 <= i < list.len() && list[i].0 == k;
            assert(front[i].0 == k);
        }
    }
}

/// In an ascending list every entry is the one that the mapping keeps.
pub proof fn lemma_collect_pair(list: Seq<EntryView>, i: int)
    requires
        ascending(list),
        0 <= i < list.len(),
    ensures
        collect(list).contains_pair(list[i].0, list[i].1),
    decreases list.len(),
{
    if i < list.len() - 1 {
        let front = list.drop_last();
        assert(ascending(front)) by {
            assert forall|a: int, b: int| 0 <= a < b < front.len() implies key_before(
                front[a].0,
                front[b].0,
            ) by {
                assert(key_before(list[a].0, list[b].0));
            }
        }
        lemma_collect_pair(front, i);
        assert(key_before(list[i].0, list[list.len() - 1].0));
        lemma_key_order(list[i].0, list.last().0, list.last().0);
    }
}

/// An ascending list lists the mapping read from it.
pub proof fn lemma_ascending_lists_collect(list: Seq<EntryView>)
    requires
        ascending(list),
    ensures
        lists(list, collect(list)),
{
    assert forall|i: int| 0 <= i < list.len() implies collect(list).contains_pair(
        list[i].0,
        list[i].1,
    ) by {
        lemma_collect_pair(list, i);
    }
    assert forall|k: Seq<char>| collect(list).contains_key(k) implies exists|i: int|
        0 <= i < list.len() && list[i].0 == k by {
        lemma_collect_has_key(list, k);
    }
}

/// Reading back the ascending list of a mapping gives that mapping again.
pub proof fn lemma_collect_of_listing(list: Seq<EntryView>, m: Map<Seq<char>, RecordView>)
    requires
        lists(list, m),
    ensures
        collect(list) == m,
{
    assert forall|k: Seq<char>| collect(list).contains_key(k) <==> m.contains_key(k) by {
        lemma_collect_has_key(list, k);
        if collect(list).contains_key(k) {
            let i = choose|i: int| 0 <= i < list.len() && list[i].0 == k;
            assert(m.contains_pair(list[i].0, list[i].1));
        }
    }
    assert forall|k: Seq<char>| m.contains_key(k) implies collect(list)[k] == m[k] by {
        let i = choose|i: int| 0 <= i < list.len() && list[i].0 == k;
        lemma_collect_pair(list, i);
        assert(m.contains_pair(list[i].0, list[i].1));
    }
    assert(collect(list) =~= m);
}

/// A mapping read from an ascending list has as many keys as the list has
/// entries.
pub proof fn lemma_collect_len(list: Seq<EntryView>)
    requires
        ascending(list),
    ensures
        collect(list).dom().finite(),
        collect(list).dom().len() == list.len(),
    decreases list.len(),
{
    if list.len() > 0 {
        let front = list.drop_last();
        assert(ascending(front)) by {
            assert forall|a: int, b: int| 0 <= a < b < front.len() implies key_before(
                front[a].0,
                front[b].0,
            ) by {
                assert(key_before(list[a].0, list[b].0));
            }
        }
        lemma_collect_len(front);
        lemma_collect_has_key(front, list.last().0);
        if collect(front).contains_key(list.last().0) {
            let i = choose|i: int| 0 <= i < front.len() && front[i].0 == list.last().0;
            assert(key_before(list[i].0, list[list.len() - 1].0));
            lemma_key_order(list[i].0, list.last().0, list.last().0);
        }
    }
}

/// Putting an entry with a new key at its place in an ascending list keeps
/// the list ascending and adds the entry to the mapping.
proof fn lemma_insert_entry(list: Seq<EntryView>, at: int, e: EntryView)
    requires
        ascending(list),
        0 <= at <= list.len(),
        forall|j: int| 0 <= j < at ==> key_before(list[j].0, e.0),
        forall|j: int| at <= j < list.len() ==> key_before(e.0, list[j].0),
    ensures
        ascending(list.insert(at, e)),
        collect(list.insert(at, e)) == collect(list).insert(e.0, e.1),
{
    let next = list.insert(at, e);
    assert forall|i: int, j: int| 0 <= i < j < next.len() implies key_before(
        next[i].0,
        next[j].0,
    ) by {
        if i < at && j > at {
            assert(key_before(list[i].0, list[j - 1].0));
        } else if i < at && j < at {
            assert(key_before(list[i].0, list[j].0));
        } else if i > at {
            assert(key_before(list[i - 1].0, list[j - 1].0));
        }
    }
    lemma_ascending_lists_collect(list);
    let m = collect(list).insert(e.0, e.1);
    assert(lists(next, m)) by {
        assert forall|i: int| 0 <= i < next.len() implies m.contains_pair(next[i].0, next[i].1) by {
            if i < at {
                assert(next[i] == list[i]);
                lemma_key_order(list[i].0, e.0, e.0);
            } else if i > at {
                assert(next[i] == list[i - 1]);
                lemma_key_order(e.0, list[i - 1].0, e.0);
            }
        }
        assert forall|k: Seq<char>| m.contains_key(k) implies exists|i: int|
            0 <= i < next.len() && next[i].0 == k by {
            if k == e.0 {
                assert(next[at].0 == k);
            } else {
                let i = choose|i: int| 0 <= i < list.len() && list[i].0 == k;
                if i < at {
                    assert(next[i].0 == k);
                } else {
                    assert(next[i + 1].0 == k);
                }
            }
        }
    }
    lemma_collect_of_listing(next, m);
}

/// Replacing the record of an entry keeps the list ascending and replaces
/// the record in the mapping.
proof fn lemma_replace_entry(list: Seq<EntryView>, at: int, e: EntryView)
    requires
        ascending(list),
        0 <= at < list.len(),
        list[at].0 == e.0,
    ensures
        ascending(list.update(at, e)),
        collect(list.update(at, e)) == collect(list).insert(e.0, e.1),
{
    let next = list.update(at, e);
    assert forall|i: int, j: int| 0 <= i < j < next.len() implies key_before(
        next[i].0,
        next[j].0,
    ) by {
        assert(key_before(list[i].0, list[j].0));
    }
    lemma_ascending_lists_collect(list);
    let m = collect(list).insert(e.0, e.1);
    assert(lists(next, m)) by {
        assert forall|i: int| 0 <= i < next.len() implies m.contains_pair(next[i].0, next[i].1) by {
            if i < at {
                assert(key_before(list[i].0, list[at].0));
                lemma_key_order(list[i].0, e.0, e.0);
            } else if i > at {
                assert(key_before(list[at].0, list[i].0));
                lemma_key_order(e.0, list[i].0, e.0);
            }
        }
        assert forall|k: Seq<char>| m.contains_key(k) implies exists|i: int|
            0 <= i < next.len() && next[i].0 == k by {
            if k == e.0 {
                assert(next[at].0 == k);
            } else {
                let i = choose|i: int| 0 <= i < list.len() && list[i].0 == k;
                assert(next[i].0 == k);
            }
        }
    }
    lemma_collect_of_listing(next, m);
}

/// What was found where a store was last written.
#[derive(Clone, Debug, PartialEq, Eq)]
pub enum Snapshot {
    /// Nothing was ever written there.
    Missing,
    /// Something is there and cannot be read.
    Unreadable { reason: String },
    /// What is there is not a store.
    Malformed { reason: String },
    /// The entries that were written, in the order in which they were read.
    Entries { list: Vec<Entry> },
}

/// Why a run cannot start from the snapshot it was given.
#[derive(Clone, Debug, PartialEq, Eq)]
pub enum LoadError {
    Unreadable { reason: String },
    Malformed { reason: String },
}

/// The store that a snapshot stands for, where it stands for one: none when
/// nothing was written, else what its entries give.
pub open spec fn loaded(snapshot: Snapshot) -> Result<Map<Seq<char>, RecordView>, LoadError> {
    match snapshot {
        Snapshot::Missing => Ok(Map::empty()),
        Snapshot::Unreadable { reason } => Err(LoadError::Unreadable { reason }),
        Snapshot::Malformed { reason } => Err(LoadError::Malformed { reason }),
        Snapshot::Entries { list } => Ok(collect(listing(list@))),
    }
}

/// An ordered mapping from URL to record. Keys are exact strings; the
/// entries are kept in ascending order of key.
#[derive(Debug)]
pub struct ResultStore {
    entries: Vec<Entry>,
}

impl View for ResultStore {
    type V = Map<Seq<char>, RecordView>;

    closed spec fn view(&self) -> Map<Seq<char>, RecordView> {
        collect(listing(self.entries@))
    }
}

impl ResultStore {
    #[verifier::type_invariant]
    spec fn well_formed(&self) -> bool {
        ascending(listing(self.entries@))
    }

    /// An empty store.
    pub fn new() -> (s: ResultStore)
        ensures
            s@ == Map::<Seq<char>, RecordView>::empty(),
    {
        ResultStore { entries: Vec::new() }
    }

    /// Where `key` stands among the entries: its index if it is there, else
    /// the index at which it would have to be put.
    fn position(&self, key: &str) -> (at: (usize, bool))
        ensures
            at.0 <= self.entries.len(),
            at.1 ==> at.0 < self.entries.len() && self.entries[at.0 as int].url@ == key@,
            !at.1 ==> forall|j: int| 0 <= j < at.0 ==> key_before(self.entries[j].url@, key@),
            !at.1 ==> forall|j: int|
                at.0 <= j < self.entries.len() ==> key_before(key@, self.entries[j].url@),
    {
        proof {
            use_type_invariant(self);
        }
        let ghost list = listing(self.entries@);
        let mut lo: usize = 0;
        let mut hi: usize = self.entries.len();
        while lo < hi
            invariant
                lo <= hi <= self.entries.len(),
                list == listing(self.entries@),
                ascending(list),
                forall|j: int| 0 <= j < lo ==> key_before(self.entries[j].url@, key@),
                forall|j: int| hi <= j < self.entries.len() ==> key_before(key@, self.entries[j].url@),
            decreases hi - lo,
        {
            let mid: usize = lo + (hi - lo) / 2;
            match order_of(self.entries[mid].url.as_str(), key) {
                KeyOrder::Same => {
                    return (mid, true);
                },
                KeyOrder::Before => {
                    assert forall|j: int| 0 <= j < mid + 1 implies key_before(
                        self.entries[j].url@,
                        key@,
                    ) by {
                        if j < mid {
                            assert(key_before(list[j].0, list[mid as int].0));
                            lemma_key_order(self.entries[j].url@, self.entries[mid as int].url@, key@);
                        }
                    }
                    lo = mid + 1;
                },
                KeyOrder::After => {
                    assert forall|j: int| mid <= j < self.entries.len() implies key_before(
                        key@,
                        self.entries[j].url@,
                    ) by {
                        if j > mid {
                            assert(key_before(list[mid as int].0, list[j].0));
                            lemma_key_order(key@, self.entries[mid as int].url@, self.entries[j].url@);
                        }
                    }
                    hi = mid;
                },
            }
        }
        (lo, false)
    }

    /// The record kept for exactly this URL, if there is one.
    pub fn lookup(&self, url: &str) -> (found: Option<&ArchiveRecord>)
        ensures
            match found {
                Some(record) => self@.contains_pair(url@, record@),
                None => !self@.contains_key(url@),
            },
    {
        proof {
            use_type_invariant(self);
        }
        let ghost list = listing(self.entries@);
        let (at, present) = self.position(url);
        if present {
            proof {
                assert(list[at as int] == self.entries[at as int]@);
                lemma_collect_pair(list, at as int);
            }
            Some(&self.entries[at].record)
        } else {
            proof {
                lemma_collect_has_key(list, url@);
                if self@.contains_key(url@) {
                    let i = choose|i: int| 0 <= i < list.len() && list[i].0 == url@;
                    assert(list[i] == self.entries[i]@);
                    lemma_key_order(url@, url@, url@);
                }
            }
            None
        }
    }

    /// Whether a record is kept for exactly this URL.
    pub fn contains(&self, url: &str) -> (b: bool)
        ensures
            b == self@.contains_key(url@),
    {
        self.lookup(url).is_some()
    }

    /// Whether `url` was archived so recently that it is passed over at `now`.
    pub fn is_fresh(&self, url: &str, now: Timestamp) -> (fresh: bool)
        ensures
            fresh == fresh_in(self@, url@, now),
    {
        match self.lookup(url) {
            Some(record) => is_within_window(&now, &record.last_archived),
            None => false,
        }
    }

    /// Puts `record` under `url`, in place of the record that was there.
    pub fn upsert(&mut self, url: String, record: ArchiveRecord)
        ensures
            final(self)@ == old(self)@.insert(url@, record@),
    {
        proof {
            use_type_invariant(&*self);
        }
        let ghost list = listing(self.entries@);
        let (at, present) = self.position(url.as_str());
        let entry = Entry { url, record };
        proof {
            assert forall|j: int| 0 <= j < list.len() implies list[j].0 == self.entries[j].url@ by {}
            if present {
                lemma_replace_entry(list, at as int, entry@);
                assert(listing(self.entries@.update(at as int, entry)) =~= list.update(
                    at as int,
                    entry@,
                ));
            } else {
                lemma_insert_entry(list, at as int, entry@);
                assert(listing(self.entries@.insert(at as int, entry)) =~= list.insert(
                    at as int,
                    entry@,
                ));
            }
        }
        let mut entries: Vec<Entry> = Vec::new();
        core::mem::swap(&mut self.entries, &mut entries);
        if present {
            entries.set(at, entry);
        } else {
            entries.insert(at, entry);
        }
        self.entries = entries;
    }

    /// The number of URLs with a record.
    pub fn len(&self) -> (n: usize)
        ensures
            self@.dom().finite(),
            n == self@.dom().len(),
    {
        proof {
            use_type_invariant(self);
            lemma_collect_len(listing(self.entries@));
        }
        self.entries.len()
    }

    pub fn is_empty(&self) -> (b: bool)
        ensures
            b == (self@ == Map::<Seq<char>, RecordView>::empty()),
    {
        proof {
            use_type_invariant(self);
            let list = listing(self.entries@);
            if list.len() > 0 {
                lemma_collect_has_key(list, list[0].0);
            } else {
                assert(self@ =~= Map::<Seq<char>, RecordView>::empty());
            }
        }
        self.entries.len() == 0
    }

    /// All entries in ascending order of key.
    pub fn entries(&self) -> (list: Vec<Entry>)
        ensures
            lists(listing(list@), self@),
            collect(listing(list@)) == self@,
    {
        proof {
            use_type_invariant(self);
            lemma_ascending_lists_collect(listing(self.entries@));
        }
        let mut list: Vec<Entry> = Vec::new();
        let mut i: usize = 0;
        while i < self.entries.len()
            invariant
                i <= self.entries.len(),
                list.len() == i,
                forall|j: int| 0 <= j < i ==> list[j]@ == self.entries[j]@,
            decreases self.entries.len() - i,
        {
            let e = &self.entries[i];
            list.push(Entry { url: e.url.clone(), record: e.record.duplicate() });
            i = i + 1;
        }
        proof {
            assert(listing(list@) =~= listing(self.entries@));
        }
        list
    }

    /// The store to start from, given what was found at the output path. A
    /// missing snapshot is an empty store; one that cannot be read or makes
    /// no sense stops the run.
    pub fn load(snapshot: Snapshot) -> (r: Result<ResultStore, LoadError>)
        ensures
            match r {
                Ok(store) => loaded(snapshot) == Ok::<Map<Seq<char>, RecordView>, LoadError>(store@),
                Err(e) => loaded(snapshot) == Err::<Map<Seq<char>, RecordView>, LoadError>(e),
            },
    {
        match snapshot {
            Snapshot::Missing => Ok(ResultStore::new()),
            Snapshot::Unreadable { reason } => Err(LoadError::Unreadable { reason }),
            Snapshot::Malformed { reason } => Err(LoadError::Malformed { reason }),
            Snapshot::Entries { list } => Ok(ResultStore::from_entries(list)),
        }
    }

    /// The store read from `list` front to back, a later entry for a URL
    /// replacing an earlier one.
    pub fn from_entries(list: Vec<Entry>) -> (s: ResultStore)
        ensures
            s@ == collect(listing(list@)),
    {
        let mut s = ResultStore::new();
        let mut i: usize = 0;
        while i < list.len()
            invariant
                i <= list.len(),
                s@ == collect(listing(list@.subrange(0, i as int))),
            decreases list.len() - i,
        {
            let e = &list[i];
            s.upsert(e.url.clone(), e.record.duplicate());
            proof {
                let now = listing(list@.subrange(0, i + 1));
                assert(now.drop_last() =~= listing(list@.subrange(0, i as int)));
                assert(now.last() == list[i as int]@);
            }
            i = i + 1;
        }
        proof {
            assert(list@.subrange(0, i as int) =~= list@);
        }
        s
    }
}

} // verus!
