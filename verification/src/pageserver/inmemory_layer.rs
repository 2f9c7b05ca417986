//! An in-memory layer stores recently received key-value pairs.
//!
//! The values are held in an ephemeral file.  The layer keeps, for each key, the positions
//! of its versions in the file, in the order of their log positions.
use bytes::Bytes;
use vstd::prelude::*;

use crate::base::lsn::Lsn;
use crate::base::ordered_map;
use crate::base::ordered_map::MapKey;
use crate::base::ordered_map::OrderedMap;
use crate::base::text;
use crate::pageserver::apply_neon::NeonWalRecord;
use crate::pageserver::ephemeral_file;
use crate::pageserver::ephemeral_file::EphemeralFile;
use crate::pageserver::key::Key;

verus! {

/// The versions of one key: for each log position where the version stands in the file.
pub struct VersionMap {
    pub versions: Vec<(Lsn, u64)>,
}

/// The log position is not behind all others.
#[derive(Clone, Copy, Debug, PartialEq, Eq, Structural)]
pub struct InvalidKey;

/// Log positions come in strictly ascending order.
pub open spec fn lsns_ascend(versions: Seq<(Lsn, u64)>) -> bool {
    forall|i: int, j: int|
        0 <= i < j < versions.len() ==> (#[trigger] versions[i]).0.0 < (#[trigger] versions[j]).0.0
}

/// The versions at or after `lo` and before `hi`, oldest first.
pub open spec fn versions_between(versions: Seq<(Lsn, u64)>, lo: u64, hi: u64) -> Seq<(Lsn, u64)>
    decreases versions.len(),
{
    if versions.len() == 0 {
        Seq::empty()
    } else {
        let front = versions_between(versions.drop_last(), lo, hi);
        if lo <= versions.last().0.0 < hi {
            front.push(versions.last())
        } else {
            front
        }
    }
}

/// The versions with one more behind them, or with the last one replaced where it is at the
/// same log position.
pub open spec fn with_version(versions: Seq<(Lsn, u64)>, lsn: Lsn, pos: u64) -> Seq<(Lsn, u64)> {
    if versions.len() > 0 && versions.last().0 == lsn {
        versions.drop_last().push((lsn, pos))
    } else {
        versions.push((lsn, pos))
    }
}

impl VersionMap {
    /// Log positions come in strictly ascending order.
    pub open spec fn wf(self) -> bool {
        lsns_ascend(self.versions@)
    }

    /// No versions.
    pub fn new() -> (r: VersionMap)
        ensures
            r.wf(),
            r.versions@.len() == 0,
    {
        VersionMap { versions: Vec::new() }
    }

    /// Adds a version behind all others, or replaces the last one where it is at the same
    /// log position; gives back the position in the file that was replaced.
    pub fn append_or_update_last(&mut self, lsn: Lsn, pos: u64) -> (r: Result<Option<u64>, InvalidKey>)
        requires
            old(self).wf(),
        ensures
            final(self).wf(),
            ({
                let before = old(self).versions@;
                if before.len() > 0 && before.last().0.0 > lsn.0 {
                    r is Err && final(self).versions@ == before
                } else {
                    &&& final(self).versions@ == with_version(before, lsn, pos)
                    &&& r == Ok::<Option<u64>, InvalidKey>(
                        if before.len() > 0 && before.last().0 == lsn {
                            Some(before.last().1)
                        } else {
                            None
                        },
                    )
                }
            }),
    {
        let n = self.versions.len();
        if n > 0 {
            let (last_lsn, last_pos) = self.versions[n - 1];
            if last_lsn.0 > lsn.0 {
                return Err(InvalidKey);
            }
            if last_lsn.0 == lsn.0 {
                let ghost before = self.versions@;
                self.versions.set(n - 1, (lsn, pos));
                assert(self.versions@ =~= before.drop_last().push((lsn, pos)));
                return Ok(Some(last_pos));
            }
        }
        self.versions.push((lsn, pos));
        Ok(None)
    }

    /// The versions at or after `lo` and before `hi`, oldest first.
    pub fn slice_range(&self, lo: Lsn, hi: Lsn) -> (r: Vec<(Lsn, u64)>)
        requires
            self.wf(),
        ensures
            r@ == versions_between(self.versions@, lo.0, hi.0),
    {
        let mut r: Vec<(Lsn, u64)> = Vec::new();
        let mut i: usize = 0;
        assert(self.versions@.take(0).len() == 0);
        while i < self.versions.len()
            invariant
                i <= self.versions@.len(),
                r@ == versions_between(self.versions@.take(i as int), lo.0, hi.0),
            decreases self.versions@.len() - i,
        {
            assert(self.versions@.take(i + 1).drop_last() =~= self.versions@.take(i as int));
            let version = self.versions[i];
            if lo.0 <= version.0.0 && version.0.0 < hi.0 {
                r.push(version);
            }
            i += 1;
        }
        assert(self.versions@.take(i as int) =~= self.versions@);
        r
    }
}

/// Whether a layer is still written to.
#[derive(Clone, Copy, Debug, PartialEq, Eq, Structural)]
pub enum InMemoryLayerInfo {
    Open { lsn_start: Lsn },
    Frozen { lsn_start: Lsn, lsn_end: Lsn },
}

/// A layer of recently received values.
pub struct InMemoryLayer {
    /// The layer holds all changes from here on.
    pub start_lsn: Lsn,
    /// A frozen layer ends before this position; only a layer without one is written to.
    pub end_lsn: Option<Lsn>,
    pub index: OrderedMap<Key, VersionMap>,
    pub file: EphemeralFile,
}

/// A version that is to be read from the file.
#[derive(Clone, Copy, Debug, PartialEq, Eq, Structural)]
pub struct BlockRead {
    pub key: Key,
    pub lsn: Lsn,
    pub block_offset: u64,
}

/// The looked-for range begins before the layer.
#[derive(Clone, Copy, Debug, PartialEq, Eq, Structural)]
pub struct RangeBeforeLayer;

/// The name of a layer.
pub open spec fn layer_name(start: u64, end: u64) -> Seq<char> {
    "inmem-"@ + text::hex(start as nat, 16) + "-"@ + text::hex(end as nat, 16)
}

/// The versions of a key.
pub open spec fn versions_of(index: Map<Key, VersionMap>, key: Key) -> Seq<(Lsn, u64)> {
    if index.dom().contains(key) {
        index[key].versions@
    } else {
        Seq::empty()
    }
}

impl InMemoryLayer {
    /// The keys and the versions of each key are in order; a frozen layer ends behind its
    /// start and behind all versions.
    pub open spec fn wf(self) -> bool {
        &&& self.index.wf()
        &&& self.file.wf()
        &&& forall|i: int|
            0 <= i < self.index.entries@.len() ==> (#[trigger] self.index.entries@[i]).1.wf()
        &&& self.end_lsn matches Some(end) ==> self.start_lsn.0 < end.0 && self.all_before(end)
    }

    /// All versions are before a log position.
    pub open spec fn all_before(self, end: Lsn) -> bool {
        forall|i: int, j: int|
            0 <= i < self.index.entries@.len() && 0 <= j < (
            #[trigger] self.index.entries@[i]).1.versions@.len() ==> (
            #[trigger] self.index.entries@[i].1.versions@[j]).0.0 < end.0
    }

    /// An empty layer.
    pub fn create(start_lsn: Lsn) -> (r: InMemoryLayer)
        ensures
            r.wf(),
            r.start_lsn == start_lsn,
            r.end_lsn is None,
            r.index@ == Map::<Key, VersionMap>::empty(),
            r.file.len == 0,
            r.file.log() == Seq::<u8>::empty(),
    {
        InMemoryLayer {
            start_lsn,
            end_lsn: None,
            index: OrderedMap::new(),
            file: EphemeralFile::create(),
        }
    }

    /// Whether the layer is still written to, and its range.
    pub fn info(&self) -> (r: InMemoryLayerInfo)
        ensures
            r == match self.end_lsn {
                Some(lsn_end) => InMemoryLayerInfo::Frozen { lsn_start: self.start_lsn, lsn_end },
                None => InMemoryLayerInfo::Open { lsn_start: self.start_lsn },
            },
    {
        let lsn_start = self.start_lsn;
        match self.end_lsn {
            Some(lsn_end) => InMemoryLayerInfo::Frozen { lsn_start, lsn_end },
            None => InMemoryLayerInfo::Open { lsn_start },
        }
    }

    /// Whether the layer is still written to.
    pub fn is_writable(&self) -> (r: bool)
        ensures
            r == (self.end_lsn is None),
    {
        self.end_lsn.is_none()
    }

    /// Where the layer ends; the greatest position while it is written to.
    pub fn end_lsn_or_max(&self) -> (r: Lsn)
        ensures
            r == match self.end_lsn {
                Some(end) => end,
                None => Lsn(u64::MAX),
            },
    {
        match self.end_lsn {
            Some(end) => end,
            None => Lsn::max_value(),
        }
    }

    /// The positions from which on and before which the layer holds changes.
    pub fn get_lsn_range(&self) -> (r: (Lsn, Lsn))
        ensures
            r.0 == self.start_lsn,
            r.1 == match self.end_lsn {
                Some(end) => end,
                None => Lsn(u64::MAX),
            },
    {
        (self.start_lsn, self.end_lsn_or_max())
    }

    /// The name of the layer.
    pub fn name(&self) -> (r: String)
        ensures
            r@ == layer_name(
                self.start_lsn.0,
                match self.end_lsn {
                    Some(end) => end.0,
                    None => u64::MAX,
                },
            ),
    {
        let mut r = String::from_str("inmem-");
        r.append(text::hex_text(self.start_lsn.0, 16).as_str());
        r.append("-");
        r.append(text::hex_text(self.end_lsn_or_max().0, 16).as_str());
        r
    }

    /// The size of the layer's file.
    pub fn size(&self) -> (r: u64)
        requires
            self.wf(),
        ensures
            r == self.file.log().len(),
    {
        self.file.len()
    }

    /// Notes that the version of `key` at `lsn` has been written to the file at `off`.  Says
    /// whether there was one at that log position already, whose place it takes.
    pub fn put_value(&mut self, key: Key, lsn: Lsn, off: u64) -> (r: bool)
        requires
            old(self).wf(),
            old(self).end_lsn is None,
            versions_of(old(self).index@, key).len() > 0 ==> versions_of(
                old(self).index@,
                key,
            ).last().0.0 <= lsn.0,
        ensures
            final(self).wf(),
            final(self).start_lsn == old(self).start_lsn,
            final(self).end_lsn == old(self).end_lsn,
            final(self).file == old(self).file,
            ({
                let before = versions_of(old(self).index@, key);
                &&& r == (before.len() > 0 && before.last().0 == lsn)
                &&& versions_of(final(self).index@, key) == with_version(before, lsn, off)
            }),
            forall|k: Key|
                k != key ==> #[trigger] versions_of(final(self).index@, k) == versions_of(
                    old(self).index@,
                    k,
                ),
    {
        let ghost before = self.index;
        let mut versions = match self.index.remove(&key) {
            Some(versions) => {
                proof {
                    let i = ordered_map::key_index(before.entries@, key);
                    before.lemma_entry(i);
                }
                versions
            },
            None => VersionMap::new(),
        };
        let replaced = match versions.append_or_update_last(lsn, off) {
            Ok(Some(_)) => true,
            Ok(None) => false,
            Err(_) => false,
        };
        let ghost between = self.index;
        let ghost added = versions;
        self.index.insert(key, versions);
        proof {
            assert forall|i: int| 0 <= i < self.index.entries@.len() implies (
            #[trigger] self.index.entries@[i]).1.wf() by {
                self.index.lemma_entry(i);
                let k = self.index.entries@[i].0;
                if k != key {
                    assert(before@.dom().contains(k));
                    let j = ordered_map::key_index(before.entries@, k);
                    before.lemma_entry(j);
                    assert(before.entries@[j].1.wf());
                }
            }
        }
        replaced
    }

    /// Whether all versions are before `end_lsn`.
    pub fn check_all_before(&self, end_lsn: Lsn) -> (r: bool)
        requires
            self.wf(),
        ensures
            r == self.all_before(end_lsn),
    {
        let mut i: usize = 0;
        while i < self.index.entries.len()
            invariant
                self.wf(),
                i <= self.index.entries@.len(),
                forall|k: int, j: int|
                    0 <= k < i && 0 <= j < (#[trigger] self.index.entries@[k]).1.versions@.len()
                        ==> (#[trigger] self.index.entries@[k].1.versions@[j]).0.0 < end_lsn.0,
            decreases self.index.entries@.len() - i,
        {
            let versions = &self.index.entries[i].1.versions;
            let n = versions.len();
            assert(self.index.entries@[i as int].1.wf());
            if n > 0 && versions[n - 1].0.0 >= end_lsn.0 {
                assert(!(self.index.entries@[i as int].1.versions@[n - 1].0.0 < end_lsn.0));
                return false;
            }
            assert forall|j: int| 0 <= j < n implies (
            #[trigger] self.index.entries@[i as int].1.versions@[j]).0.0 < end_lsn.0 by {
                if j < n - 1 {
                    assert(versions@[j].0.0 < versions@[n - 1].0.0);
                }
            }
            i += 1;
        }
        true
    }

    /// Ends the writing of the layer.  The layer ends before `end_lsn`.
    pub fn freeze(&mut self, end_lsn: Lsn)
        requires
            old(self).wf(),
            old(self).end_lsn is None,
            old(self).start_lsn.0 < end_lsn.0,
            old(self).all_before(end_lsn),
        ensures
            final(self).wf(),
            *final(self) == (InMemoryLayer { end_lsn: Some(end_lsn), ..*old(self) }),
    {
        self.end_lsn = Some(end_lsn);
    }

    /// The versions of a key in a range of log positions, newest first, as they are read to
    /// reconstruct a value.
    pub fn versions_to_read(&self, key: Key, lo: Lsn, hi: Lsn) -> (r: Result<
        Vec<(Lsn, u64)>,
        RangeBeforeLayer,
    >)
        requires
            self.wf(),
        ensures
            match r {
                Err(_) => lo.0 < self.start_lsn.0,
                Ok(reads) => lo.0 >= self.start_lsn.0 && reads@ == versions_between(
                    versions_of(self.index@, key),
                    lo.0,
                    hi.0,
                ).reverse(),
            },
    {
        if lo.0 < self.start_lsn.0 {
            return Err(RangeBeforeLayer);
        }
        let mut reads: Vec<(Lsn, u64)> = Vec::new();
        match self.index.position(&key) {
            Some(i) => {
                assert(self.index.entries@[i as int].1.wf());
                let slice = self.index.entries[i].1.slice_range(lo, hi);
                let mut n = slice.len();
                while n > 0
                    invariant
                        n <= slice@.len(),
                        reads@ == slice@.skip(n as int).reverse(),
                    decreases n,
                {
                    n -= 1;
                    reads.push(slice[n]);
                    assert(reads@ =~= slice@.skip(n as int).reverse());
                }
                assert(slice@.skip(0) =~= slice@);
            },
            None => {
                assert(reads@ =~= versions_between(
                    versions_of(self.index@, key),
                    lo.0,
                    hi.0,
                ).reverse());
            },
        }
        Ok(reads)
    }

    /// All versions in the order in which they are written to a delta layer: by key, then by
    /// log position.
    pub fn write_order(&self) -> (r: Vec<BlockRead>)
        requires
            self.wf(),
        ensures
            r@ == all_reads(self.index.entries@),
    {
        let mut r: Vec<BlockRead> = Vec::new();
        let mut i: usize = 0;
        assert(self.index.entries@.take(0).len() == 0);
        while i < self.index.entries.len()
            invariant
                i <= self.index.entries@.len(),
                r@ == all_reads(self.index.entries@.take(i as int)),
            decreases self.index.entries@.len() - i,
        {
            assert(self.index.entries@.take(i + 1).drop_last() =~= self.index.entries@.take(
                i as int,
            ));
            push_reads(&mut r, self.index.entries[i].0, &self.index.entries[i].1.versions);
            i += 1;
        }
        assert(self.index.entries@.take(i as int) =~= self.index.entries@);
        r
    }

    /// Plans the reads for the keys in `ranges`, each from a first key up to a last key that
    /// is not part of it: the versions before `end_lsn` that come after what is cached of a
    /// key, or all from the start of the layer on.  The reads come in descending order of
    /// key and log position.
    pub fn plan_reads(
        &self,
        ranges: &Vec<(Key, Key)>,
        end_lsn: Lsn,
        cached: &OrderedMap<Key, Lsn>,
    ) -> (r: Vec<BlockRead>)
        requires
            self.wf(),
            cached.wf(),
            forall|k: Key| cached@.dom().contains(k) ==> (#[trigger] cached@[k]).0 < u64::MAX,
        ensures
            descending(r@),
            r@.to_multiset() == planned_reads(
                self.index.entries@,
                ranges@,
                self.start_lsn,
                end_lsn,
                cached@,
            ).to_multiset(),
            forall|read: BlockRead| #[trigger]
                r@.contains(read) <==> {
                    &&& self.index@.dom().contains(read.key)
                    &&& self.index@[read.key].versions@.contains((read.lsn, read.block_offset))
                    &&& exists|n: int|
                        0 <= n < ranges@.len() && (#[trigger] ranges@[n]).0.rank()
                            <= read.key.rank() && read.key.rank() < ranges@[n].1.rank()
                    &&& read.lsn.0 < end_lsn.0
                    &&& if cached@.dom().contains(read.key) {
                        cached@[read.key].0 < read.lsn.0
                    } else {
                        self.start_lsn.0 <= read.lsn.0
                    }
                },
    {
        let ghost entries = self.index.entries@;
        let mut r: Vec<BlockRead> = Vec::new();
        let mut n: usize = 0;
        assert(ranges@.take(0).len() == 0);
        while n < ranges.len()
            invariant
                self.wf(),
                cached.wf(),
                entries == self.index.entries@,
                forall|k: Key| cached@.dom().contains(k) ==> (#[trigger] cached@[k]).0 < u64::MAX,
                n <= ranges@.len(),
                descending(r@),
                r@.to_multiset() == planned_reads(
                    entries,
                    ranges@.take(n as int),
                    self.start_lsn,
                    end_lsn,
                    cached@,
                ).to_multiset(),
            decreases ranges@.len() - n,
        {
            let (first, last) = ranges[n];
            let ghost done = planned_reads(
                entries,
                ranges@.take(n as int),
                self.start_lsn,
                end_lsn,
                cached@,
            );
            assert(ranges@.take(n + 1).drop_last() =~= ranges@.take(n as int));
            let mut i: usize = 0;
            assert(entries.take(0).len() == 0);
            assert(done + range_reads(
                entries.take(0),
                first,
                last,
                self.start_lsn,
                end_lsn,
                cached@,
            ) =~= done);
            while i < self.index.entries.len()
                invariant
                    self.wf(),
                    cached.wf(),
                    entries == self.index.entries@,
                    forall|k: Key|
                        cached@.dom().contains(k) ==> (#[trigger] cached@[k]).0 < u64::MAX,
                    i <= entries.len(),
                    descending(r@),
                    r@.to_multiset() == (done + range_reads(
                        entries.take(i as int),
                        first,
                        last,
                        self.start_lsn,
                        end_lsn,
                        cached@,
                    )).to_multiset(),
                decreases entries.len() - i,
            {
                let ghost before = range_reads(
                    entries.take(i as int),
                    first,
                    last,
                    self.start_lsn,
                    end_lsn,
                    cached@,
                );
                assert(entries.take(i + 1).drop_last() =~= entries.take(i as int));
                assert(entries[i as int].1.wf());
                let key = self.index.entries[i].0;
                if !key.precedes(&first) && key.precedes(&last) {
                    let floor = match cached.get(&key) {
                        Some(lsn) => Lsn(lsn.0 + 1),
                        None => self.start_lsn,
                    };
                    let slice = self.index.entries[i].1.slice_range(floor, end_lsn);
                    let mut j: usize = 0;
                    assert(done + before + reads_of(key, slice@.take(0)) =~= done + before);
                    while j < slice.len()
                        invariant
                            j <= slice@.len(),
                            descending(r@),
                            r@.to_multiset() == (done + before + reads_of(
                                key,
                                slice@.take(j as int),
                            )).to_multiset(),
                        decreases slice@.len() - j,
                    {
                        let read = BlockRead {
                            key,
                            lsn: slice[j].0,
                            block_offset: slice[j].1,
                        };
                        let ghost so_far = done + before + reads_of(key, slice@.take(j as int));
                        insert_read(&mut r, read);
                        proof {
                            assert(done + before + reads_of(key, slice@.take(j + 1))
                                =~= so_far.push(read));
                            vstd::seq_lib::to_multiset_build(so_far, read);
                        }
                        j += 1;
                    }
                    assert(slice@.take(j as int) =~= slice@);
                    assert(done + (before + reads_of(key, slice@)) =~= done + before + reads_of(
                        key,
                        slice@,
                    ));
                }
                i += 1;
            }
            assert(entries.take(i as int) =~= entries);
            n += 1;
        }
        assert(ranges@.take(n as int) =~= ranges@);
        proof {
            let planned = planned_reads(entries, ranges@, self.start_lsn, end_lsn, cached@);
            assert forall|read: BlockRead| #[trigger]
                r@.contains(read) <==> {
                    &&& self.index@.dom().contains(read.key)
                    &&& self.index@[read.key].versions@.contains((read.lsn, read.block_offset))
                    &&& exists|n: int|
                        0 <= n < ranges@.len() && (#[trigger] ranges@[n]).0.rank()
                            <= read.key.rank() && read.key.rank() < ranges@[n].1.rank()
                    &&& read.lsn.0 < end_lsn.0
                    &&& if cached@.dom().contains(read.key) {
                        cached@[read.key].0 < read.lsn.0
                    } else {
                        self.start_lsn.0 <= read.lsn.0
                    }
                } by {
                vstd::seq_lib::to_multiset_contains(r@, read);
                vstd::seq_lib::to_multiset_contains(planned, read);
                reads_are_the_wanted_versions(
                    entries,
                    ranges@,
                    self.start_lsn,
                    end_lsn,
                    cached@,
                    read,
                );
                self.lemma_stored(read);
            }
        }
        r
    }

    /// A version is in the list of entries exactly if the map has it under its key.
    proof fn lemma_stored(self, read: BlockRead)
        requires
            self.index.wf(),
        ensures
            (exists|i: int|
                0 <= i < self.index.entries@.len() && (#[trigger] self.index.entries@[i]).0
                    == read.key && self.index.entries@[i].1.versions@.contains(
                    (read.lsn, read.block_offset),
                )) <==> self.index@.dom().contains(read.key)
                && self.index@[read.key].versions@.contains((read.lsn, read.block_offset)),
    {
        if exists|i: int|
            0 <= i < self.index.entries@.len() && (#[trigger] self.index.entries@[i]).0 == read.key
                && self.index.entries@[i].1.versions@.contains((read.lsn, read.block_offset)) {
            let i = choose|i: int|
                0 <= i < self.index.entries@.len() && (#[trigger] self.index.entries@[i]).0
                    == read.key && self.index.entries@[i].1.versions@.contains(
                    (read.lsn, read.block_offset),
                );
            self.index.lemma_entry(i);
        }
        if self.index@.dom().contains(read.key) {
            let i = ordered_map::key_index(self.index.entries@, read.key);
            assert(self.index.entries@[i].0 == read.key);
        }
    }
}

/// The reads for some versions of a key.
pub open spec fn reads_of(key: Key, versions: Seq<(Lsn, u64)>) -> Seq<BlockRead> {
    Seq::new(
        versions.len(),
        |i: int| BlockRead { key, lsn: versions[i].0, block_offset: versions[i].1 },
    )
}

/// The reads for all versions, key by key.
pub open spec fn all_reads(entries: Seq<(Key, VersionMap)>) -> Seq<BlockRead>
    decreases entries.len(),
{
    if entries.len() == 0 {
        Seq::empty()
    } else {
        all_reads(entries.drop_last()) + reads_of(entries.last().0, entries.last().1.versions@)
    }
}

/// The first log position of a key that is wanted: behind what is cached, or the start of
/// the layer.
pub open spec fn wanted_from(key: Key, start_lsn: Lsn, cached: Map<Key, Lsn>) -> u64 {
    if cached.dom().contains(key) {
        (cached[key].0 + 1) as u64
    } else {
        start_lsn.0
    }
}

/// The reads for the keys from `first` up to `last`.
pub open spec fn range_reads(
    entries: Seq<(Key, VersionMap)>,
    first: Key,
    last: Key,
    start_lsn: Lsn,
    end_lsn: Lsn,
    cached: Map<Key, Lsn>,
) -> Seq<BlockRead>
    decreases entries.len(),
{
    if entries.len() == 0 {
        Seq::empty()
    } else {
        let front = range_reads(entries.drop_last(), first, last, start_lsn, end_lsn, cached);
        let (key, map) = entries.last();
        if first.rank() <= key.rank() < last.rank() {
            front + reads_of(
                key,
                versions_between(
                    map.versions@,
                    wanted_from(key, start_lsn, cached),
                    end_lsn.0,
                ),
            )
        } else {
            front
        }
    }
}

/// The reads for all ranges.
pub open spec fn planned_reads(
    entries: Seq<(Key, VersionMap)>,
    ranges: Seq<(Key, Key)>,
    start_lsn: Lsn,
    end_lsn: Lsn,
    cached: Map<Key, Lsn>,
) -> Seq<BlockRead>
    decreases ranges.len(),
{
    if ranges.len() == 0 {
        Seq::empty()
    } else {
        planned_reads(entries, ranges.drop_last(), start_lsn, end_lsn, cached) + range_reads(
            entries,
            ranges.last().0,
            ranges.last().1,
            start_lsn,
            end_lsn,
            cached,
        )
    }
}

/// Whether one read comes after another in ascending order of key, log position and offset,
/// or is the same.
pub open spec fn not_before(a: BlockRead, b: BlockRead) -> bool {
    ||| a.key.rank() > b.key.rank()
    ||| a.key.rank() == b.key.rank() && a.lsn.0 > b.lsn.0
    ||| a.key.rank() == b.key.rank() && a.lsn.0 == b.lsn.0 && a.block_offset >= b.block_offset
}

/// The reads come in descending order.
pub open spec fn descending(reads: Seq<BlockRead>) -> bool {
    forall|i: int, j: int| 0 <= i < j < reads.len() ==> not_before(#[trigger] reads[i], #[trigger] reads[j])
}

/// Whether a read comes after another in ascending order, or is the same.
fn is_not_before(a: &BlockRead, b: &BlockRead) -> (r: bool)
    ensures
        r == not_before(*a, *b),
{
    if b.key.precedes(&a.key) {
        true
    } else if a.key.precedes(&b.key) {
        false
    } else if a.lsn.0 != b.lsn.0 {
        a.lsn.0 > b.lsn.0
    } else {
        a.block_offset >= b.block_offset
    }
}

/// Puts a read into its place among reads in descending order.
fn insert_read(reads: &mut Vec<BlockRead>, read: BlockRead)
    requires
        descending(old(reads)@),
    ensures
        descending(final(reads)@),
        final(reads)@.to_multiset() == old(reads)@.to_multiset().insert(read),
{
    let ghost before = reads@;
    let mut at = reads.len();
    while at > 0 && !is_not_before(&reads[at - 1], &read)
        invariant
            at <= reads@.len(),
            reads@ == before,
            descending(before),
            forall|k: int| at <= k < reads@.len() ==> !not_before(#[trigger] reads@[k], read),
        decreases at,
    {
        at -= 1;
    }
    reads.insert(at, read);
    proof {
        vstd::seq_lib::to_multiset_insert(before, at as int, read);
        assert(reads@ =~= before.insert(at as int, read));
        assert forall|i: int, j: int| 0 <= i < j < reads@.len() implies not_before(
            #[trigger] reads@[i],
            #[trigger] reads@[j],
        ) by {
            if i < at && j == at {
                if i < at - 1 {
                    assert(not_before(before[i], before[at - 1]));
                }
            } else if i == at {
                assert(!not_before(before[j - 1], read));
            } else {
                let x = if i < at {
                    i
                } else {
                    i - 1
                };
                let y = if j < at {
                    j
                } else {
                    j - 1
                };
                assert(not_before(before[x], before[y]));
            }
        }
    }
}

/// Adds the reads for all versions of a key.
fn push_reads(reads: &mut Vec<BlockRead>, key: Key, versions: &Vec<(Lsn, u64)>)
    ensures
        final(reads)@ == old(reads)@ + reads_of(key, versions@),
{
    let ghost before = reads@;
    let mut j: usize = 0;
    assert(before + reads_of(key, versions@.take(0)) =~= before);
    while j < versions.len()
        invariant
            j <= versions@.len(),
            reads@ == before + reads_of(key, versions@.take(j as int)),
        decreases versions@.len() - j,
    {
        reads.push(BlockRead { key, lsn: versions[j].0, block_offset: versions[j].1 });
        j += 1;
        assert(reads@ =~= before + reads_of(key, versions@.take(j as int)));
    }
    assert(versions@.take(j as int) =~= versions@);
}

/// The value of a version.
pub enum Value {
    Image(Bytes),
    WalRecord(NeonWalRecord),
}

/// Whether what is known suffices to reconstruct a value.
#[derive(Clone, Copy, Debug, PartialEq, Eq, Structural)]
pub enum ValueReconstructResult {
    Complete,
    /// Older versions are needed.
    Continue,
}

/// Whether a record does not build on an earlier page.
pub open spec fn initializes(rec: NeonWalRecord) -> bool {
    rec matches NeonWalRecord::Postgres { will_init, .. } && will_init
}

/// What has been gathered to reconstruct a value: records, newest first, and the image that
/// they build on.
pub struct ValueReconstructState {
    pub records: Vec<(Lsn, NeonWalRecord)>,
    pub img: Option<(Lsn, Bytes)>,
}

impl ValueReconstructState {
    /// Adds the next older version.
    pub fn absorb(&mut self, lsn: Lsn, value: Value) -> (r: ValueReconstructResult)
        ensures
            match value {
                Value::Image(img) => {
                    &&& r == ValueReconstructResult::Complete
                    &&& final(self).img == Some((lsn, img))
                    &&& final(self).records == old(self).records
                },
                Value::WalRecord(rec) => {
                    &&& r == if initializes(rec) {
                        ValueReconstructResult::Complete
                    } else {
                        ValueReconstructResult::Continue
                    }
                    &&& final(self).img == old(self).img
                    &&& final(self).records@ == old(self).records@.push((lsn, rec))
                },
            },
    {
        match value {
            Value::Image(img) => {
                self.img = Some((lsn, img));
                ValueReconstructResult::Complete
            },
            Value::WalRecord(rec) => {
                let will_init = match &rec {
                    NeonWalRecord::Postgres { will_init, rec: _ } => *will_init,
                    _ => false,
                };
                self.records.push((lsn, rec));
                if will_init {
                    ValueReconstructResult::Complete
                } else {
                    ValueReconstructResult::Continue
                }
            },
        }
    }
}

/// The reading of the versions of one key, newest first, until a value can be reconstructed.
pub struct ValueScan {
    pub reads: Vec<(Lsn, u64)>,
    pub next: usize,
    pub result: ValueReconstructResult,
}

impl ValueScan {
    /// What has been read is a part of the versions.
    pub open spec fn wf(self) -> bool {
        self.next <= self.reads@.len()
    }

    /// Starts to read the versions of a key.
    pub fn new(reads: Vec<(Lsn, u64)>) -> (r: ValueScan)
        ensures
            r.wf(),
            r.reads == reads,
            r.next == 0,
            r.result == ValueReconstructResult::Continue,
    {
        ValueScan { reads, next: 0, result: ValueReconstructResult::Continue }
    }

    /// The next version to read; none when the value can be reconstructed or no version is
    /// left.
    pub fn next_read(&mut self) -> (r: Option<(Lsn, u64)>)
        requires
            old(self).wf(),
        ensures
            final(self).wf(),
            final(self).reads == old(self).reads,
            final(self).result == old(self).result,
            if old(self).result == ValueReconstructResult::Continue && old(self).next < old(
                self
            ).reads@.len() {
                r == Some(old(self).reads@[old(self).next as int]) && final(self).next == old(
                    self
                ).next + 1
            } else {
                r is None && final(self).next == old(self).next
            },
    {
        match self.result {
            ValueReconstructResult::Complete => None,
            ValueReconstructResult::Continue => {
                if self.next < self.reads.len() {
                    let read = self.reads[self.next];
                    self.next = self.next + 1;
                    Some(read)
                } else {
                    None
                }
            },
        }
    }

    /// Takes the version that was read into account.
    pub fn value_read(&mut self, state: &mut ValueReconstructState, lsn: Lsn, value: Value)
        requires
            old(self).wf(),
        ensures
            final(self).wf(),
            final(self).reads == old(self).reads,
            final(self).next == old(self).next,
            match value {
                Value::Image(img) => {
                    &&& final(self).result == ValueReconstructResult::Complete
                    &&& final(state).img == Some((lsn, img))
                    &&& final(state).records == old(state).records
                },
                Value::WalRecord(rec) => {
                    &&& final(self).result == if initializes(rec) {
                        ValueReconstructResult::Complete
                    } else {
                        ValueReconstructResult::Continue
                    }
                    &&& final(state).img == old(state).img
                    &&& final(state).records@ == old(state).records@.push((lsn, rec))
                },
            },
    {
        self.result = state.absorb(lsn, value);
    }
}

/// The reading of planned versions.  The newest version of a key comes first, and once a key
/// is complete its older versions are passed over.
pub struct VectoredScan {
    pub reads: Vec<BlockRead>,
    pub next: usize,
    pub completed: OrderedMap<Key, ()>,
    /// The number of keys that were asked for.
    pub keyspace_size: usize,
}

impl VectoredScan {
    /// The completed keys are in order.
    pub open spec fn wf(self) -> bool {
        self.completed.wf() && self.next <= self.reads@.len()
    }

    /// The first read from `from` on whose key is not complete.
    pub open spec fn pending(self, from: int) -> int
        decreases self.reads@.len() - from,
    {
        if from < 0 || from >= self.reads@.len() {
            self.reads@.len() as int
        } else if self.completed@.dom().contains(self.reads@[from].key) {
            self.pending(from + 1)
        } else {
            from
        }
    }

    /// Starts to read what was planned.
    pub fn new(reads: Vec<BlockRead>, keyspace_size: usize) -> (r: VectoredScan)
        ensures
            r.wf(),
            r.reads == reads,
            r.next == 0,
            r.completed@ == Map::<Key, ()>::empty(),
            r.completed.entries@.len() == 0,
            r.keyspace_size == keyspace_size,
    {
        VectoredScan { reads, next: 0, completed: OrderedMap::new(), keyspace_size }
    }

    /// The next version to read; none when every key is complete or nothing is left.
    pub fn next_read(&mut self) -> (r: Option<BlockRead>)
        requires
            old(self).wf(),
        ensures
            final(self).wf(),
            final(self).reads == old(self).reads,
            final(self).completed == old(self).completed,
            final(self).keyspace_size == old(self).keyspace_size,
            ({
                let at = old(self).pending(old(self).next as int);
                if old(self).completed.entries@.len() < old(self).keyspace_size && at < old(
                    self
                ).reads@.len() {
                    r == Some(old(self).reads@[at]) && final(self).next == at + 1
                } else {
                    r is None
                }
            }),
    {
        let ghost start = *self;
        if self.completed.len() >= self.keyspace_size {
            return None;
        }
        while self.next < self.reads.len()
            invariant
                self.wf(),
                self.reads == start.reads,
                self.completed == start.completed,
                self.keyspace_size == start.keyspace_size,
                start == *old(self),
                start.completed.entries@.len() < start.keyspace_size,
                start.pending(start.next as int) == start.pending(self.next as int),
            decreases self.reads@.len() - self.next,
        {
            let read = self.reads[self.next];
            self.next = self.next + 1;
            if self.completed.get(&read.key).is_none() {
                return Some(read);
            }
        }
        None
    }

    /// Notes that a key is complete, or failed, and needs no older version.
    pub fn key_completed(&mut self, key: Key)
        requires
            old(self).wf(),
        ensures
            final(self).wf(),
            final(self).reads == old(self).reads,
            final(self).next == old(self).next,
            final(self).keyspace_size == old(self).keyspace_size,
            final(self).completed@ == old(self).completed@.insert(key, ()),
    {
        self.completed.insert(key, ());
    }
}

/// A value that was put into a layer is the first that a look-up reads, and reading the file
/// at the position that the look-up gives brings back what was written, whatever was written
/// later.
pub proof fn put_values_are_read_back(
    versions: Seq<(Lsn, u64)>,
    log: Seq<u8>,
    value: Seq<u8>,
    later: Seq<u8>,
    lsn: Lsn,
    lo: u64,
    hi: u64,
)
    requires
        lo <= lsn.0 < hi,
        log.len() <= u64::MAX,
        value.len() < 0x8000_0000,
    ensures
        ({
            let reads = versions_between(
                with_version(versions, lsn, log.len() as u64),
                lo,
                hi,
            ).reverse();
            &&& reads.len() > 0
            &&& reads[0].0 == lsn
            &&& ephemeral_file::blob_at(
                log + ephemeral_file::encode_blob(value) + later,
                reads[0].1 as int,
            ) == Some(value)
        }),
{
    let after = with_version(versions, lsn, log.len() as u64);
    assert(after.last() == (lsn, log.len() as u64));
    assert(versions_between(after, lo, hi) == versions_between(after.drop_last(), lo, hi).push(
        after.last(),
    ));
    ephemeral_file::blob_round_trip(log, value, later);
}

/// Putting a value for one log position changes no look-up of earlier ones.
pub proof fn earlier_values_stay(versions: Seq<(Lsn, u64)>, lsn: Lsn, pos: u64, lo: u64, hi: u64)
    requires
        hi <= lsn.0,
    ensures
        versions_between(with_version(versions, lsn, pos), lo, hi) == versions_between(
            versions,
            lo,
            hi,
        ),
{
    let after = with_version(versions, lsn, pos);
    if versions.len() > 0 && versions.last().0 == lsn {
        assert(after.drop_last() =~= versions.drop_last());
    } else {
        assert(after.drop_last() =~= versions);
    }
}

/// Of two versions of one key the newer one is read first.
pub proof fn newest_versions_come_first(reads: Seq<BlockRead>, i: int, j: int)
    requires
        descending(reads),
        0 <= i < reads.len(),
        0 <= j < reads.len(),
        reads[i].key == reads[j].key,
        reads[i].lsn.0 > reads[j].lsn.0,
    ensures
        i < j,
{
    if j <= i {
        assert(not_before(reads[j], reads[i]));
    }
}

/// A version is among those between two log positions exactly if it is a version and its
/// position is in between.
pub proof fn between_selects(versions: Seq<(Lsn, u64)>, lo: u64, hi: u64, v: (Lsn, u64))
    ensures
        versions_between(versions, lo, hi).contains(v) <==> versions.contains(v) && lo <= v.0.0 < hi,
    decreases versions.len(),
{
    if versions.len() > 0 {
        let front = versions.drop_last();
        between_selects(front, lo, hi, v);
        let picked = versions_between(versions, lo, hi);
        let picked_front = versions_between(front, lo, hi);
        let last = versions.last();
        assert(versions[versions.len() - 1] == last);
        if front.contains(v) {
            let i = front.index_of(v);
            assert(versions[i] == v);
        }
        if versions.contains(v) && v != last {
            let i = versions.index_of(v);
            assert(front[i] == v);
        }
        if picked_front.contains(v) {
            let i = picked_front.index_of(v);
            assert(picked[i] == v);
        }
        if lo <= last.0.0 < hi {
            assert(picked[picked.len() - 1] == last);
            if picked.contains(v) && v != last {
                let i = picked.index_of(v);
                assert(picked_front[i] == v);
            }
        }
    }
}

/// The versions of a layer are written in strictly ascending order of key and log position,
/// as a delta layer needs them.
pub proof fn write_order_ascends(entries: Seq<(Key, VersionMap)>)
    requires
        ordered_map::ascending(entries),
        forall|i: int| 0 <= i < entries.len() ==> (#[trigger] entries[i]).1.wf(),
    ensures
        forall|i: int, j: int|
            0 <= i < j < all_reads(entries).len() ==> {
                let a = #[trigger] all_reads(entries)[i];
                let b = #[trigger] all_reads(entries)[j];
                a.key.rank() < b.key.rank() || (a.key == b.key && a.lsn.0 < b.lsn.0)
            },
        forall|i: int|
            0 <= i < all_reads(entries).len() ==> entries.len() > 0 && (
            #[trigger] all_reads(entries)[i]).key.rank() <= entries.last().0.rank(),
    decreases entries.len(),
{
    if entries.len() > 0 {
        let front = entries.drop_last();
        let n = entries.len() - 1;
        assert forall|i: int| 0 <= i < front.len() implies (#[trigger] front[i]).1.wf() by {
            assert(front[i] == entries[i]);
        }
        write_order_ascends(front);
        let before = all_reads(front);
        let all = all_reads(entries);
        assert(entries[n].1.wf());
        if front.len() > 0 {
            assert(front.last() == entries[n - 1]);
            assert(entries[n - 1].0.rank() < entries[n].0.rank());
        }
        assert forall|i: int| 0 <= i < before.len() implies all[i] == before[i] && (
        #[trigger] all[i]).key.rank() < entries[n].0.rank() by {
            assert(before[i].key.rank() <= front.last().0.rank());
        }
        assert forall|i: int| before.len() <= i < all.len() implies (#[trigger] all[i]).key
            == entries[n].0 && all[i].lsn == entries[n].1.versions@[i - before.len()].0 by {}
        assert forall|i: int, j: int| 0 <= i < j < all.len() implies {
            let a = #[trigger] all[i];
            let b = #[trigger] all[j];
            a.key.rank() < b.key.rank() || (a.key == b.key && a.lsn.0 < b.lsn.0)
        } by {
            if j < before.len() {
                assert(all[i] == before[i] && all[j] == before[j]);
            } else if i >= before.len() {
                let v = entries[n].1.versions@;
                assert(v[i - before.len()].0.0 < v[j - before.len()].0.0);
            }
        }
    }
}

/// A read is among those for one key's versions exactly if its version is among them.
proof fn lemma_reads_of(key: Key, versions: Seq<(Lsn, u64)>, read: BlockRead)
    ensures
        reads_of(key, versions).contains(read) <==> read.key == key && versions.contains(
            (read.lsn, read.block_offset),
        ),
{
    let reads = reads_of(key, versions);
    if reads.contains(read) {
        let i = reads.index_of(read);
        assert(versions[i] == (read.lsn, read.block_offset));
    }
    if read.key == key && versions.contains((read.lsn, read.block_offset)) {
        let i = versions.index_of((read.lsn, read.block_offset));
        assert(reads[i] == read);
    }
}

/// An item is in two sequences behind each other exactly if it is in one of them.
proof fn lemma_joined(a: Seq<BlockRead>, b: Seq<BlockRead>, read: BlockRead)
    ensures
        (a + b).contains(read) <==> a.contains(read) || b.contains(read),
{
    if a.contains(read) {
        let i = a.index_of(read);
        assert((a + b)[i] == read);
    }
    if b.contains(read) {
        let i = b.index_of(read);
        assert((a + b)[a.len() + i] == read);
    }
    if (a + b).contains(read) {
        let i = (a + b).index_of(read);
        if i < a.len() {
            assert(a[i] == read);
        } else {
            assert(b[i - a.len()] == read);
        }
    }
}

/// A version of a key is read for a range exactly if the layer has it, the range begins at or
/// before the key and ends behind it, the version is before the end of the log positions, and
/// it is behind what is cached of the key, or at or behind the start of the layer where nothing
/// is cached.
pub proof fn range_reads_are_the_wanted_versions(
    entries: Seq<(Key, VersionMap)>,
    first: Key,
    last: Key,
    start_lsn: Lsn,
    end_lsn: Lsn,
    cached: Map<Key, Lsn>,
    read: BlockRead,
)
    requires
        cached.dom().contains(read.key) ==> cached[read.key].0 < u64::MAX,
    ensures
        range_reads(entries, first, last, start_lsn, end_lsn, cached).contains(read) <==> {
            &&& exists|i: int|
                0 <= i < entries.len() && (#[trigger] entries[i]).0 == read.key
                    && entries[i].1.versions@.contains((read.lsn, read.block_offset))
            &&& first.rank() <= read.key.rank()
            &&& read.key.rank() < last.rank()
            &&& read.lsn.0 < end_lsn.0
            &&& if cached.dom().contains(read.key) {
                cached[read.key].0 < read.lsn.0
            } else {
                start_lsn.0 <= read.lsn.0
            }
        },
    decreases entries.len(),
{
    if entries.len() > 0 {
        let front = entries.drop_last();
        range_reads_are_the_wanted_versions(
            front,
            first,
            last,
            start_lsn,
            end_lsn,
            cached,
            read,
        );
        let before = range_reads(front, first, last, start_lsn, end_lsn, cached);
        let (key, map) = entries.last();
        let v = (read.lsn, read.block_offset);
        let from = wanted_from(key, start_lsn, cached);
        let picked = versions_between(map.versions@, from, end_lsn.0);
        between_selects(map.versions@, from, end_lsn.0, v);
        lemma_reads_of(key, picked, read);
        lemma_joined(before, reads_of(key, picked), read);
        assert(entries[entries.len() - 1] == entries.last());
        if exists|i: int|
            0 <= i < front.len() && (#[trigger] front[i]).0 == read.key
                && front[i].1.versions@.contains(v) {
            let i = choose|i: int|
                0 <= i < front.len() && (#[trigger] front[i]).0 == read.key
                    && front[i].1.versions@.contains(v);
            assert(entries[i].0 == read.key && entries[i].1.versions@.contains(v));
        }
        if exists|i: int|
            0 <= i < entries.len() && (#[trigger] entries[i]).0 == read.key
                && entries[i].1.versions@.contains(v) {
            let i = choose|i: int|
                0 <= i < entries.len() && (#[trigger] entries[i]).0 == read.key
                    && entries[i].1.versions@.contains(v);
            if i < front.len() {
                assert(front[i].0 == read.key && front[i].1.versions@.contains(v));
            }
        }
    }
}

/// A version of a key is among the planned reads exactly if the layer has it, one of the
/// requested ranges begins at or before the key and ends behind it, the version is before the
/// end of the log positions, and it is behind what is cached of the key, or at or behind the
/// start of the layer where nothing is cached.
pub proof fn reads_are_the_wanted_versions(
    entries: Seq<(Key, VersionMap)>,
    ranges: Seq<(Key, Key)>,
    start_lsn: Lsn,
    end_lsn: Lsn,
    cached: Map<Key, Lsn>,
    read: BlockRead,
)
    requires
        cached.dom().contains(read.key) ==> cached[read.key].0 < u64::MAX,
    ensures
        planned_reads(entries, ranges, start_lsn, end_lsn, cached).contains(read) <==> {
            &&& exists|i: int|
                0 <= i < entries.len() && (#[trigger] entries[i]).0 == read.key
                    && entries[i].1.versions@.contains((read.lsn, read.block_offset))
            &&& exists|n: int|
                0 <= n < ranges.len() && (#[trigger] ranges[n]).0.rank() <= read.key.rank()
                    && read.key.rank() < ranges[n].1.rank()
            &&& read.lsn.0 < end_lsn.0
            &&& if cached.dom().contains(read.key) {
                cached[read.key].0 < read.lsn.0
            } else {
                start_lsn.0 <= read.lsn.0
            }
        },
    decreases ranges.len(),
{
    if ranges.len() > 0 {
        let front = ranges.drop_last();
        let (first, last) = ranges.last();
        reads_are_the_wanted_versions(entries, front, start_lsn, end_lsn, cached, read);
        range_reads_are_the_wanted_versions(
            entries,
            first,
            last,
            start_lsn,
            end_lsn,
            cached,
            read,
        );
        lemma_joined(
            planned_reads(entries, front, start_lsn, end_lsn, cached),
            range_reads(entries, first, last, start_lsn, end_lsn, cached),
            read,
        );
        assert(ranges[ranges.len() - 1] == ranges.last());
        if exists|n: int|
            0 <= n < front.len() && (#[trigger] front[n]).0.rank() <= read.key.rank()
                && read.key.rank() < front[n].1.rank() {
            let n = choose|n: int|
                0 <= n < front.len() && (#[trigger] front[n]).0.rank() <= read.key.rank()
                    && read.key.rank() < front[n].1.rank();
            assert(ranges[n].0.rank() <= read.key.rank() && read.key.rank() < ranges[n].1.rank());
        }
        if exists|n: int|
            0 <= n < ranges.len() && (#[trigger] ranges[n]).0.rank() <= read.key.rank()
                && read.key.rank() < ranges[n].1.rank() {
            let n = choose|n: int|
                0 <= n < ranges.len() && (#[trigger] ranges[n]).0.rank() <= read.key.rank()
                    && read.key.rank() < ranges[n].1.rank();
            if n < front.len() {
                assert(front[n].0.rank() <= read.key.rank() && read.key.rank()
                    < front[n].1.rank());
            }
        }
    }
}

/// The versions between two log positions come in the order of their positions, each once.
pub proof fn between_ascends(versions: Seq<(Lsn, u64)>, lo: u64, hi: u64)
    requires
        lsns_ascend(versions),
    ensures
        lsns_ascend(versions_between(versions, lo, hi)),
        forall|i: int|
            0 <= i < versions_between(versions, lo, hi).len() ==> versions.len() > 0 && (
            #[trigger] versions_between(versions, lo, hi)[i]).0.0 <= versions.last().0.0,
    decreases versions.len(),
{
    if versions.len() > 0 {
        let front = versions.drop_last();
        between_ascends(front, lo, hi);
        let before = versions_between(front, lo, hi);
        let all = versions_between(versions, lo, hi);
        assert forall|i: int| 0 <= i < before.len() implies (#[trigger] before[i]).0.0
            < versions.last().0.0 by {
            assert(front.last() == versions[versions.len() - 2]);
        }
        assert forall|i: int| 0 <= i < before.len() implies #[trigger] all[i] == before[i] by {}
    }
}

/// The reads for one range come in strictly ascending order of key and log position, so that
/// no version is read twice for it.
pub proof fn a_range_reads_no_version_twice(
    entries: Seq<(Key, VersionMap)>,
    first: Key,
    last: Key,
    start_lsn: Lsn,
    end_lsn: Lsn,
    cached: Map<Key, Lsn>,
)
    requires
        ordered_map::ascending(entries),
        forall|i: int| 0 <= i < entries.len() ==> (#[trigger] entries[i]).1.wf(),
    ensures
        ({
            let reads = range_reads(entries, first, last, start_lsn, end_lsn, cached);
            &&& forall|i: int, j: int|
                0 <= i < j < reads.len() ==> {
                    let a = #[trigger] reads[i];
                    let b = #[trigger] reads[j];
                    a.key.rank() < b.key.rank() || (a.key == b.key && a.lsn.0 < b.lsn.0)
                }
            &&& forall|i: int|
                0 <= i < reads.len() ==> entries.len() > 0 && (#[trigger] reads[i]).key.rank()
                    <= entries.last().0.rank()
        }),
    decreases entries.len(),
{
    if entries.len() > 0 {
        let front = entries.drop_last();
        let n = entries.len() - 1;
        assert forall|i: int| 0 <= i < front.len() implies (#[trigger] front[i]).1.wf() by {
            assert(front[i] == entries[i]);
        }
        a_range_reads_no_version_twice(front, first, last, start_lsn, end_lsn, cached);
        let before = range_reads(front, first, last, start_lsn, end_lsn, cached);
        let all = range_reads(entries, first, last, start_lsn, end_lsn, cached);
        assert(entries[n].1.wf());
        if front.len() > 0 {
            assert(front.last() == entries[n - 1]);
            assert(entries[n - 1].0.rank() < entries[n].0.rank());
        }
        let key = entries[n].0;
        let picked = versions_between(
            entries[n].1.versions@,
            wanted_from(key, start_lsn, cached),
            end_lsn.0,
        );
        between_ascends(
            entries[n].1.versions@,
            wanted_from(key, start_lsn, cached),
            end_lsn.0,
        );
        assert forall|i: int| 0 <= i < before.len() implies all[i] == before[i] && (
        #[trigger] all[i]).key.rank() < key.rank() by {
            assert(before[i].key.rank() <= front.last().0.rank());
        }
        assert forall|i: int| before.len() <= i < all.len() implies (#[trigger] all[i]).key == key
            && all[i].lsn == picked[i - before.len()].0 by {}
        assert forall|i: int, j: int| 0 <= i < j < all.len() implies {
            let a = #[trigger] all[i];
            let b = #[trigger] all[j];
            a.key.rank() < b.key.rank() || (a.key == b.key && a.lsn.0 < b.lsn.0)
        } by {
            if j < before.len() {
                assert(all[i] == before[i] && all[j] == before[j]);
            } else if i >= before.len() {
                assert(picked[i - before.len()].0.0 < picked[j - before.len()].0.0);
            }
        }
    }
}

/// What a delta layer is written from are the versions of the layer, all of them and nothing
/// else.
pub proof fn write_order_is_complete(entries: Seq<(Key, VersionMap)>, read: BlockRead)
    ensures
        all_reads(entries).contains(read) <==> exists|i: int|
            0 <= i < entries.len() && (#[trigger] entries[i]).0 == read.key
                && entries[i].1.versions@.contains((read.lsn, read.block_offset)),
    decreases entries.len(),
{
    if entries.len() > 0 {
        let front = entries.drop_last();
        let (key, map) = entries.last();
        let v = (read.lsn, read.block_offset);
        write_order_is_complete(front, read);
        lemma_reads_of(key, map.versions@, read);
        lemma_joined(all_reads(front), reads_of(key, map.versions@), read);
        assert(entries[entries.len() - 1] == entries.last());
        if all_reads(front).contains(read) {
            let i = choose|i: int|
                0 <= i < front.len() && (#[trigger] front[i]).0 == read.key
                    && front[i].1.versions@.contains(v);
            assert(entries[i].0 == read.key && entries[i].1.versions@.contains(v));
        }
        if exists|i: int|
            0 <= i < entries.len() && (#[trigger] entries[i]).0 == read.key
                && entries[i].1.versions@.contains(v) {
            let i = choose|i: int|
                0 <= i < entries.len() && (#[trigger] entries[i]).0 == read.key
                    && entries[i].1.versions@.contains(v);
            if i < front.len() {
                assert(front[i].0 == read.key && front[i].1.versions@.contains(v));
            }
        }
    }
}

/// After a version was put, the versions of the key are those at other log positions, unchanged,
/// and the new one.
pub proof fn a_put_version_replaces_its_position(
    versions: Seq<(Lsn, u64)>,
    lsn: Lsn,
    pos: u64,
    v: (Lsn, u64),
)
    requires
        lsns_ascend(versions),
        versions.len() > 0 ==> versions.last().0.0 <= lsn.0,
    ensures
        lsns_ascend(with_version(versions, lsn, pos)),
        with_version(versions, lsn, pos).contains(v) <==> v == (lsn, pos) || (v.0.0 != lsn.0
            && versions.contains(v)),
        with_version(versions, lsn, pos).last() == (lsn, pos),
{
    let after = with_version(versions, lsn, pos);
    assert(after[after.len() - 1] == (lsn, pos));
    if versions.contains(v) {
        let i = versions.index_of(v);
        if i < after.len() - 1 {
            assert(after[i] == v);
        }
        if i < versions.len() - 1 {
            assert(versions[i].0.0 < versions[versions.len() - 1].0.0);
        }
    }
    if after.contains(v) && v != (lsn, pos) {
        let i = after.index_of(v);
        assert(versions[i] == v);
        if i < versions.len() - 1 {
            assert(versions[i].0.0 < versions[versions.len() - 1].0.0);
        }
    }
}

/// Reads of a smaller key come behind those of a greater one, and for one key those of an older
/// version behind those of a newer one.
pub proof fn descending_by_key_and_position(reads: Seq<BlockRead>)
    ensures
        descending(reads) <==> forall|i: int, j: int|
            0 <= i < j < reads.len() ==> {
                let a = #[trigger] reads[i];
                let b = #[trigger] reads[j];
                &&& b.key.rank() <= a.key.rank()
                &&& a.key.rank() == b.key.rank() ==> b.lsn.0 <= a.lsn.0
                &&& a.key.rank() == b.key.rank() && a.lsn.0 == b.lsn.0 ==> b.block_offset
                    <= a.block_offset
            },
{
    if descending(reads) {
        assert forall|i: int, j: int| 0 <= i < j < reads.len() implies {
            let a = #[trigger] reads[i];
            let b = #[trigger] reads[j];
            &&& b.key.rank() <= a.key.rank()
            &&& a.key.rank() == b.key.rank() ==> b.lsn.0 <= a.lsn.0
            &&& a.key.rank() == b.key.rank() && a.lsn.0 == b.lsn.0 ==> b.block_offset
                <= a.block_offset
        } by {
            assert(not_before(reads[i], reads[j]));
        }
    }
}

/// The next read that is made is the first whose key is not complete: all before it are of
/// complete keys.
pub proof fn complete_keys_are_passed_over(scan: VectoredScan, from: int, i: int)
    requires
        0 <= from <= scan.reads@.len(),
    ensures
        from <= scan.pending(from) <= scan.reads@.len(),
        from <= i < scan.pending(from) ==> scan.completed@.dom().contains(scan.reads@[i].key),
        scan.pending(from) < scan.reads@.len() ==> !scan.completed@.dom().contains(
            scan.reads@[scan.pending(from)].key,
        ),
    decreases scan.reads@.len() - from,
{
    if from < scan.reads@.len() && scan.completed@.dom().contains(scan.reads@[from].key) {
        complete_keys_are_passed_over(scan, from + 1, i);
    }
}

/// Only a record of Postgres itself can make older versions needless, and only where it says
/// that it initializes the page.
pub proof fn only_postgres_records_initialize(rec: NeonWalRecord)
    ensures
        rec matches NeonWalRecord::Postgres { will_init, .. } ==> initializes(rec) == will_init,
        !(rec is Postgres) ==> !initializes(rec),
{
}

/// A key has the versions that were put for it, and none where nothing was.
pub proof fn versions_are_kept_by_key(index: Map<Key, VersionMap>, key: Key, map: VersionMap)
    ensures
        versions_of(index.insert(key, map), key) == map.versions@,
        versions_of(index.remove(key), key).len() == 0,
        forall|other: Key|
            other != key ==> #[trigger] versions_of(index.insert(key, map), other) == versions_of(
                index,
                other,
            ),
{
}

/// A layer is named by the positions where it begins and ends, sixteen hexadecimal digits each.
pub proof fn layers_are_named_by_their_range(start: u64, end: u64)
    ensures
        layer_name(start, end) == "inmem-"@ + text::hex(start as nat, 16) + "-"@ + text::hex(
            end as nat,
            16,
        ),
        text::hex(start as nat, 16).len() == 16,
{
    text::fitting_is_below_the_power(start as nat, 16);
    reveal(vstd::arithmetic::power::pow);
    reveal_with_fuel(vstd::arithmetic::power::pow, 17);
    text::hex_len(start as nat, 16);
}

} // verus!
