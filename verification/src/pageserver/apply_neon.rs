//! Replay of the WAL records that need no Postgres process.
use bytes::Bytes;
use bytes::BytesMut;
use vstd::bytes::*;
use vstd::prelude::*;

use crate::base::buffers;
use crate::base::codec;
use crate::pageserver::aux_files;
use crate::pageserver::aux_files::AuxFilesDirectory;
use crate::pageserver::key;
use crate::pageserver::key::Key;
use crate::pageserver::key::SlruKind;
use crate::pageserver::pg_constants as pg;

verus! {

/// A member of a multixact: a transaction and how it holds the row.
#[derive(Clone, Copy, Debug, PartialEq, Eq, Structural)]
pub struct MultiXactMember {
    pub xid: u32,
    pub status: u32,
}

/// A change to one stored value.
pub enum NeonWalRecord {
    /// A record of Postgres itself, which only Postgres can replay.
    Postgres { will_init: bool, rec: Bytes },
    /// Clear bits of up to two heap blocks in the visibility map.
    ClearVisibilityMapFlags {
        new_heap_blkno: Option<u32>,
        old_heap_blkno: Option<u32>,
        flags: u8,
    },
    /// Mark transactions as committed on a commit-log page.
    ClogSetCommitted { xids: Vec<u32>, timestamp: i64 },
    /// Mark transactions as aborted on a commit-log page.
    ClogSetAborted { xids: Vec<u32> },
    /// Store the member offset of a multixact.
    MultixactOffsetCreate { mid: u32, moff: u32 },
    /// Store members of a multixact.
    MultixactMembersCreate { moff: u32, members: Vec<MultiXactMember> },
    /// Store or remove an auxiliary file.
    AuxFile { file_path: String, content: Option<Bytes> },
}

/// Why a record was not applied.
#[derive(Clone, Copy, Debug, PartialEq, Eq, Structural)]
pub enum ApplyError {
    /// The record has to be replayed by Postgres.
    PostgresRecord,
    /// The key is not one of the record's kind.
    InvalidRecord,
    /// The page holds no directory of auxiliary files.
    InvalidDirectory,
}

impl ApplyError {
    pub open spec fn message_text(self) -> Seq<char> {
        match self {
            ApplyError::PostgresRecord => "tried to pass postgres wal record to neon WAL redo"@,
            ApplyError::InvalidRecord => "invalid record"@,
            ApplyError::InvalidDirectory => "deserialize error"@,
        }
    }

    /// The error in words.
    pub fn message(&self) -> (r: &'static str)
        ensures
            r@ == self.message_text(),
    {
        match self {
            ApplyError::PostgresRecord => "tried to pass postgres wal record to neon WAL redo",
            ApplyError::InvalidRecord => "invalid record",
            ApplyError::InvalidDirectory => "deserialize error",
        }
    }
}

/// Whether the record is one of Postgres itself.
pub open spec fn is_postgres(rec: NeonWalRecord) -> bool {
    rec is Postgres
}

/// Whether the record can be applied here; otherwise it goes to a Postgres process.
pub fn can_apply_in_neon(rec: &NeonWalRecord) -> (r: bool)
    ensures
        r == !is_postgres(*rec),
        r <==> !(*rec is Postgres),
{
    match rec {
        NeonWalRecord::Postgres { will_init: _, rec: _ } => false,
        _ => true,
    }
}

/// The page after the bits `flags` of a heap block have been cleared.
pub open spec fn clear_visibility(page: Seq<u8>, heap_blkno: Option<u32>, flags: u8) -> Seq<u8> {
    match heap_blkno {
        None => page,
        Some(h) => {
            let at = pg::MAXALIGN_SIZE_OF_PAGE_HEADER_DATA + pg::heapblk_to_mapbyte(h);
            page.update(at, page[at] & !(flags << pg::heapblk_to_offset(h)))
        },
    }
}

/// The commit-log page after transaction `xid` has got `status`.
pub open spec fn set_status(page: Seq<u8>, xid: u32, status: u8) -> Seq<u8> {
    let at = pg::clog_byte(xid) as int;
    let shift = pg::clog_shift(xid);
    page.update(at, (page[at] & !(pg::CLOG_XACT_BITMASK << shift)) | (status << shift))
}

/// The commit-log page after the transactions of `xids` have got `status`.
pub open spec fn set_statuses(page: Seq<u8>, xids: Seq<u32>, status: u8) -> Seq<u8>
    decreases xids.len(),
{
    if xids.len() == 0 {
        page
    } else {
        set_status(set_statuses(page, xids.drop_last(), status), xids.last(), status)
    }
}

/// The commit-log page with the time of its latest commit behind it.  A page of another
/// size than a plain or an already stamped one is left as it is.
pub open spec fn stamp(page: Seq<u8>, timestamp: i64) -> Seq<u8> {
    if page.len() == pg::BLCKSZ || page.len() == pg::BLCKSZ + 8 {
        page.take(pg::BLCKSZ as int) + codec::be_u64(timestamp as u64)
    } else {
        page
    }
}

/// The page with the little-endian number `value` at `at`.
pub open spec fn put_u32(page: Seq<u8>, at: int, value: u32) -> Seq<u8> {
    page.take(at) + spec_u32_to_le_bytes(value) + page.skip(at + 4)
}

/// The little-endian number at `at`.
pub open spec fn get_u32(page: Seq<u8>, at: int) -> u32 {
    spec_u32_from_le_bytes(page.subrange(at, at + 4))
}

/// Where the member offset of multixact `mid` stands on its page.
pub open spec fn offset_entry(mid: u32) -> int {
    (mid % pg::MULTIXACT_OFFSETS_PER_PAGE) * 4
}

/// The flags of a group with those of member `offset` replaced by `status`.
pub open spec fn with_flags(flags: u32, offset: u32, status: u32) -> u32 {
    let shift = pg::mx_offset_to_flags_bitshift(offset);
    (flags & !(0xffu32 << shift)) | (status << shift)
}

/// The members page after `member` has been stored at `offset`.
pub open spec fn set_member(page: Seq<u8>, offset: u32, member: MultiXactMember) -> Seq<u8> {
    let flags_at = pg::mx_offset_to_flags_offset(offset) as int;
    let flags = with_flags(get_u32(page, flags_at), offset, member.status);
    put_u32(
        put_u32(page, flags_at, flags),
        pg::mx_offset_to_member_offset(offset) as int,
        member.xid,
    )
}

/// The members page after `members` have been stored from `moff` on.
pub open spec fn set_members(page: Seq<u8>, moff: u32, members: Seq<MultiXactMember>) -> Seq<u8>
    decreases members.len(),
{
    if members.len() == 0 {
        page
    } else {
        set_member(
            set_members(page, moff, members.drop_last()),
            (moff + members.len() - 1) as u32,
            members.last(),
        )
    }
}

/// Whether `(segno, blknum)` is where page `pageno` of a simple-LRU area stands.
pub open spec fn is_slru_page(pageno: u32, segno: u32, blknum: u32) -> bool {
    segno == pageno / pg::SLRU_PAGES_PER_SEGMENT && blknum == pageno % pg::SLRU_PAGES_PER_SEGMENT
}

/// The heap block is described by visibility-map block `blknum`, and the page reaches
/// as far as its bits.
pub open spec fn visibility_fits(heap_blkno: Option<u32>, blknum: u32, page: Seq<u8>) -> bool {
    heap_blkno matches Some(h) ==> {
        &&& pg::heapblk_to_mapblock(h) == blknum
        &&& pg::MAXALIGN_SIZE_OF_PAGE_HEADER_DATA + pg::heapblk_to_mapbyte(h) < page.len()
    }
}

/// The transactions have their status on commit-log page `(segno, blknum)`, and the page
/// reaches as far as they do.
pub open spec fn clog_fits(xids: Seq<u32>, segno: u32, blknum: u32, page: Seq<u8>) -> bool {
    forall|i: int|
        0 <= i < xids.len() ==> is_slru_page(
            #[trigger] xids[i] / pg::CLOG_XACTS_PER_PAGE,
            segno,
            blknum,
        ) && pg::clog_byte(xids[i]) < page.len()
}

/// The member has its place on members page `(segno, blknum)`, and the page reaches as
/// far as it does.
pub open spec fn member_fits(offset: u32, segno: u32, blknum: u32, page: Seq<u8>) -> bool {
    &&& is_slru_page(offset / pg::MULTIXACT_MEMBERS_PER_PAGE, segno, blknum)
    &&& pg::mx_offset_to_flags_offset(offset) + 4 <= page.len()
    &&& pg::mx_offset_to_member_offset(offset) + 4 <= page.len()
}

/// The record belongs to the page that the key names, and the page is as long as the
/// change needs.  Anything else is a corrupted log.
pub open spec fn record_fits(record: NeonWalRecord, key: Key, page: Seq<u8>) -> bool {
    match record {
        NeonWalRecord::Postgres { .. } => true,
        NeonWalRecord::ClearVisibilityMapFlags { new_heap_blkno, old_heap_blkno, .. } => {
            key::rel_block_of(key) matches Some((rel, blknum)) ==> {
                &&& rel.forknum == pg::VISIBILITYMAP_FORKNUM
                &&& visibility_fits(new_heap_blkno, blknum, page)
                &&& visibility_fits(old_heap_blkno, blknum, page)
            }
        },
        NeonWalRecord::ClogSetCommitted { xids, .. } => {
            key::slru_block_of(key) matches Some((kind, segno, blknum)) ==> kind == SlruKind::Clog
                && clog_fits(xids@, segno, blknum, page)
        },
        NeonWalRecord::ClogSetAborted { xids } => {
            key::slru_block_of(key) matches Some((kind, segno, blknum)) ==> kind == SlruKind::Clog
                && clog_fits(xids@, segno, blknum, page)
        },
        NeonWalRecord::MultixactOffsetCreate { mid, .. } => {
            key::slru_block_of(key) matches Some((kind, segno, blknum)) ==> {
                &&& kind == SlruKind::MultiXactOffsets
                &&& is_slru_page(mid / pg::MULTIXACT_OFFSETS_PER_PAGE, segno, blknum)
                &&& offset_entry(mid) + 4 <= page.len()
            }
        },
        NeonWalRecord::MultixactMembersCreate { moff, members } => {
            key::slru_block_of(key) matches Some((kind, segno, blknum)) ==> {
                &&& kind == SlruKind::MultiXactMembers
                &&& moff + members@.len() <= u32::MAX + 1
                &&& forall|offset: u32|
                    moff <= offset < moff + members@.len() ==> #[trigger] member_fits(
                        offset,
                        segno,
                        blknum,
                        page,
                    )
            }
        },
        NeonWalRecord::AuxFile { .. } => true,
    }
}

/// The bytes of an optional content.
pub open spec fn content_bytes(content: Option<Bytes>) -> Option<Seq<u8>> {
    match content {
        Some(c) => Some(buffers::shared_bytes(c)),
        None => None,
    }
}

/// What applying the record to a page gives: the changed page, or the reason why there is
/// none.
pub open spec fn redo(record: NeonWalRecord, key: Key, page: Seq<u8>) -> Result<Seq<u8>, ApplyError> {
    match record {
        NeonWalRecord::Postgres { .. } => Err(ApplyError::PostgresRecord),
        NeonWalRecord::ClearVisibilityMapFlags { new_heap_blkno, old_heap_blkno, flags } => {
            if key::rel_block_of(key) is None {
                Err(ApplyError::InvalidRecord)
            } else {
                Ok(
                    clear_visibility(
                        clear_visibility(page, new_heap_blkno, flags),
                        old_heap_blkno,
                        flags,
                    ),
                )
            }
        },
        NeonWalRecord::ClogSetCommitted { xids, timestamp } => {
            if key::slru_block_of(key) is None {
                Err(ApplyError::InvalidRecord)
            } else {
                Ok(
                    stamp(
                        set_statuses(page, xids@, pg::TRANSACTION_STATUS_COMMITTED),
                        timestamp,
                    ),
                )
            }
        },
        NeonWalRecord::ClogSetAborted { xids } => {
            if key::slru_block_of(key) is None {
                Err(ApplyError::InvalidRecord)
            } else {
                Ok(set_statuses(page, xids@, pg::TRANSACTION_STATUS_ABORTED))
            }
        },
        NeonWalRecord::MultixactOffsetCreate { mid, moff } => {
            if key::slru_block_of(key) is None {
                Err(ApplyError::InvalidRecord)
            } else {
                Ok(put_u32(page, offset_entry(mid), moff))
            }
        },
        NeonWalRecord::MultixactMembersCreate { moff, members } => {
            if key::slru_block_of(key) is None {
                Err(ApplyError::InvalidRecord)
            } else {
                Ok(set_members(page, moff, members@))
            }
        },
        NeonWalRecord::AuxFile { file_path, content } => {
            match aux_files::decode_directory(page) {
                None => Err(ApplyError::InvalidDirectory),
                Some(files) => Ok(
                    aux_files::encode_directory(
                        aux_files::upsert_files(files, file_path@, content_bytes(content)),
                    ),
                ),
            }
        },
    }
}

/// The number of bytes does not change with a transaction's status.
proof fn lemma_set_statuses_len(page: Seq<u8>, xids: Seq<u32>, status: u8)
    requires
        forall|i: int| 0 <= i < xids.len() ==> pg::clog_byte(#[trigger] xids[i]) < page.len(),
    ensures
        set_statuses(page, xids, status).len() == page.len(),
    decreases xids.len(),
{
    if xids.len() > 0 {
        assert forall|i: int| 0 <= i < xids.drop_last().len() implies pg::clog_byte(
            #[trigger] xids.drop_last()[i],
        ) < page.len() by {
            assert(xids.drop_last()[i] == xids[i]);
        }
        lemma_set_statuses_len(page, xids.drop_last(), status);
        assert(xids.last() == xids[xids.len() - 1]);
    }
}

/// Clears the bits `flags` of a heap block.
fn clear_visibility_flags(page: &mut BytesMut, heap_blkno: Option<u32>, flags: u8)
    requires
        heap_blkno matches Some(h) ==> pg::MAXALIGN_SIZE_OF_PAGE_HEADER_DATA
            + pg::heapblk_to_mapbyte(h) < buffers::buffer_bytes(*old(page)).len(),
    ensures
        buffers::buffer_bytes(*final(page)) == clear_visibility(
            buffers::buffer_bytes(*old(page)),
            heap_blkno,
            flags,
        ),
{
    if let Some(h) = heap_blkno {
        let map_byte = pg::heapblk_to_mapbyte(h) as usize;
        let map_offset = pg::heapblk_to_offset(h);
        let at = pg::MAXALIGN_SIZE_OF_PAGE_HEADER_DATA + map_byte;
        let byte = buffers::buffer_as_slice(page)[at];
        buffers::buffer_set(page, at, byte & !(flags << map_offset));
    }
}

/// Gives transaction `xid` a status on its commit-log page.
pub fn transaction_id_set_status(xid: u32, status: u8, page: &mut BytesMut)
    requires
        pg::clog_byte(xid) < buffers::buffer_bytes(*old(page)).len(),
    ensures
        buffers::buffer_bytes(*final(page)) == set_status(
            buffers::buffer_bytes(*old(page)),
            xid,
            status,
        ),
{
    let at = pg::clog_byte(xid) as usize;
    let shift = pg::clog_shift(xid);
    let byte = buffers::buffer_as_slice(page)[at];
    buffers::buffer_set(page, at, (byte & !(pg::CLOG_XACT_BITMASK << shift)) | (status << shift));
}

/// Gives every transaction of `xids` a status on the commit-log page.
fn set_all_statuses(page: &mut BytesMut, xids: &Vec<u32>, status: u8)
    requires
        forall|i: int|
            0 <= i < xids@.len() ==> pg::clog_byte(#[trigger] xids@[i]) < buffers::buffer_bytes(
                *old(page),
            ).len(),
    ensures
        buffers::buffer_bytes(*final(page)) == set_statuses(
            buffers::buffer_bytes(*old(page)),
            xids@,
            status,
        ),
{
    let ghost start = buffers::buffer_bytes(*page);
    let mut i: usize = 0;
    assert(xids@.take(0).len() == 0);
    while i < xids.len()
        invariant
            i <= xids@.len(),
            forall|j: int|
                0 <= j < xids@.len() ==> pg::clog_byte(#[trigger] xids@[j]) < start.len(),
            buffers::buffer_bytes(*page) == set_statuses(start, xids@.take(i as int), status),
        decreases xids@.len() - i,
    {
        proof {
            lemma_set_statuses_len(start, xids@.take(i as int), status);
            assert(xids@.take(i + 1).drop_last() =~= xids@.take(i as int));
        }
        transaction_id_set_status(xids[i], status, page);
        i += 1;
    }
    assert(xids@.take(i as int) =~= xids@);
}

/// Puts the time of the latest commit behind a commit-log page.
fn stamp_page(page: &mut BytesMut, timestamp: i64)
    ensures
        buffers::buffer_bytes(*final(page)) == stamp(buffers::buffer_bytes(*old(page)), timestamp),
{
    let ghost start = buffers::buffer_bytes(*page);
    let size = pg::BLCKSZ as usize;
    if buffers::buffer_len(page) == size + 8 {
        buffers::buffer_truncate(page, size);
    }
    if buffers::buffer_len(page) == size {
        assert(start.take(size as int) =~= buffers::buffer_bytes(*page));
        let bytes = codec::u64_to_be_bytes(timestamp as u64);
        buffers::buffer_extend(page, bytes.as_slice());
    }
}

/// A write of four bytes inside the page keeps its length.
proof fn lemma_put_u32_len(page: Seq<u8>, at: int, value: u32)
    requires
        0 <= at,
        at + 4 <= page.len(),
    ensures
        put_u32(page, at, value).len() == page.len(),
{
    lemma_auto_spec_u32_to_from_le_bytes();
}

/// Storing members keeps the length of the page.
proof fn lemma_set_members_len(page: Seq<u8>, moff: u32, members: Seq<MultiXactMember>)
    requires
        moff + members.len() <= u32::MAX + 1,
        forall|offset: u32|
            moff <= offset < moff + members.len() ==> #[trigger] pg::mx_offset_to_flags_offset(
                offset,
            ) + 4 <= page.len() && pg::mx_offset_to_member_offset(offset) + 4 <= page.len(),
    ensures
        set_members(page, moff, members).len() == page.len(),
    decreases members.len(),
{
    if members.len() > 0 {
        let front = set_members(page, moff, members.drop_last());
        let offset = (moff + members.len() - 1) as u32;
        lemma_set_members_len(page, moff, members.drop_last());
        let flags_at = pg::mx_offset_to_flags_offset(offset) as int;
        let flags = with_flags(get_u32(front, flags_at), offset, members.last().status);
        lemma_put_u32_len(front, flags_at, flags);
        lemma_put_u32_len(
            put_u32(front, flags_at, flags),
            pg::mx_offset_to_member_offset(offset) as int,
            members.last().xid,
        );
    }
}

/// Stores `members` from `moff` on.
fn set_all_members(page: &mut BytesMut, moff: u32, members: &Vec<MultiXactMember>)
    requires
        moff + members@.len() <= u32::MAX + 1,
        forall|offset: u32|
            moff <= offset < moff + members@.len() ==> #[trigger] pg::mx_offset_to_flags_offset(
                offset,
            ) + 4 <= buffers::buffer_bytes(*old(page)).len() && pg::mx_offset_to_member_offset(
                offset,
            ) + 4 <= buffers::buffer_bytes(*old(page)).len(),
    ensures
        buffers::buffer_bytes(*final(page)) == set_members(
            buffers::buffer_bytes(*old(page)),
            moff,
            members@,
        ),
{
    let ghost start = buffers::buffer_bytes(*page);
    let mut i: usize = 0;
    assert(members@.take(0).len() == 0);
    while i < members.len()
        invariant
            i <= members@.len(),
            moff + members@.len() <= u32::MAX + 1,
            forall|offset: u32|
                moff <= offset < moff + members@.len() ==> #[trigger] pg::mx_offset_to_flags_offset(
                    offset,
                ) + 4 <= start.len() && pg::mx_offset_to_member_offset(offset) + 4 <= start.len(),
            buffers::buffer_bytes(*page) == set_members(start, moff, members@.take(i as int)),
        decreases members@.len() - i,
    {
        let member = members[i];
        let offset = moff + i as u32;
        let memberoff = pg::mx_offset_to_member_offset(offset);
        let flagsoff = pg::mx_offset_to_flags_offset(offset);
        let bshift = pg::mx_offset_to_flags_bitshift(offset);
        proof {
            lemma_set_members_len(start, moff, members@.take(i as int));
            assert(members@.take(i + 1).drop_last() =~= members@.take(i as int));
        }
        let flags = buffers::buffer_read_u32_le(page, flagsoff);
        let flagsval = (flags & !(0xffu32 << bshift)) | (member.status << bshift);
        proof {
            lemma_put_u32_len(buffers::buffer_bytes(*page), flagsoff as int, flagsval);
        }
        buffers::buffer_write_u32_le(page, flagsoff, flagsval);
        buffers::buffer_write_u32_le(page, memberoff, member.xid);
        i += 1;
    }
    assert(members@.take(i as int) =~= members@);
}

/// Whether visibility-map block `blknum` and a page of `len` bytes hold the bits of the
/// heap block.
fn check_visibility(heap_blkno: Option<u32>, blknum: u32, page: &BytesMut) -> (r: bool)
    ensures
        r == visibility_fits(heap_blkno, blknum, buffers::buffer_bytes(*page)),
{
    match heap_blkno {
        None => true,
        Some(h) => pg::heapblk_to_mapblock(h) == blknum && pg::MAXALIGN_SIZE_OF_PAGE_HEADER_DATA
            + (pg::heapblk_to_mapbyte(h) as usize) < buffers::buffer_len(page),
    }
}

/// Whether commit-log page `(segno, blknum)` holds the statuses of all the transactions.
fn check_clog(xids: &Vec<u32>, segno: u32, blknum: u32, page: &BytesMut) -> (r: bool)
    ensures
        r == clog_fits(xids@, segno, blknum, buffers::buffer_bytes(*page)),
{
    let len = buffers::buffer_len(page);
    let mut i: usize = 0;
    while i < xids.len()
        invariant
            i <= xids@.len(),
            len == buffers::buffer_bytes(*page).len(),
            forall|j: int|
                0 <= j < i ==> is_slru_page(
                    #[trigger] xids@[j] / pg::CLOG_XACTS_PER_PAGE,
                    segno,
                    blknum,
                ) && pg::clog_byte(xids@[j]) < len,
        decreases xids@.len() - i,
    {
        let xid = xids[i];
        let pageno = xid / pg::CLOG_XACTS_PER_PAGE;
        if segno != pageno / pg::SLRU_PAGES_PER_SEGMENT || blknum != pageno
            % pg::SLRU_PAGES_PER_SEGMENT || pg::clog_byte(xid) as usize >= len {
            assert(!(is_slru_page(xids@[i as int] / pg::CLOG_XACTS_PER_PAGE, segno, blknum)
                && pg::clog_byte(xids@[i as int]) < len));
            return false;
        }
        i += 1;
    }
    true
}

/// Whether members page `(segno, blknum)` holds the `n` members from `moff` on.
fn check_members(moff: u32, n: usize, segno: u32, blknum: u32, page: &BytesMut) -> (r: bool)
    requires
        moff + n <= u32::MAX + 1,
    ensures
        r == (forall|offset: u32|
            moff <= offset < moff + n ==> #[trigger] member_fits(
                offset,
                segno,
                blknum,
                buffers::buffer_bytes(*page),
            )),
{
    let len = buffers::buffer_len(page);
    let mut i: usize = 0;
    while i < n
        invariant
            i <= n,
            moff + n <= u32::MAX + 1,
            len == buffers::buffer_bytes(*page).len(),
            forall|offset: u32|
                moff <= offset < moff + i ==> #[trigger] member_fits(
                    offset,
                    segno,
                    blknum,
                    buffers::buffer_bytes(*page),
                ),
        decreases n - i,
    {
        let offset = moff + i as u32;
        let pageno = offset / pg::MULTIXACT_MEMBERS_PER_PAGE;
        if segno != pageno / pg::SLRU_PAGES_PER_SEGMENT || blknum != pageno
            % pg::SLRU_PAGES_PER_SEGMENT || pg::mx_offset_to_flags_offset(offset) + 4 > len
            || pg::mx_offset_to_member_offset(offset) + 4 > len {
            assert(!member_fits(offset, segno, blknum, buffers::buffer_bytes(*page)));
            return false;
        }
        assert(member_fits(offset, segno, blknum, buffers::buffer_bytes(*page)));
        i += 1;
    }
    true
}

/// Whether the record belongs to the page that the key names, and the page is as long as
/// the change needs.
pub fn check_record(record: &NeonWalRecord, key: Key, page: &BytesMut) -> (r: bool)
    ensures
        r == record_fits(*record, key, buffers::buffer_bytes(*page)),
{
    match record {
        NeonWalRecord::Postgres { will_init: _, rec: _ } => true,
        NeonWalRecord::ClearVisibilityMapFlags { new_heap_blkno, old_heap_blkno, flags: _ } => {
            match key::key_to_rel_block(key) {
                None => true,
                Some((rel, blknum)) => rel.forknum == pg::VISIBILITYMAP_FORKNUM && check_visibility(
                    *new_heap_blkno,
                    blknum,
                    page,
                ) && check_visibility(*old_heap_blkno, blknum, page),
            }
        },
        NeonWalRecord::ClogSetCommitted { xids, timestamp: _ } => {
            match key::key_to_slru_block(key) {
                None => true,
                Some((kind, segno, blknum)) => kind == SlruKind::Clog && check_clog(
                    xids,
                    segno,
                    blknum,
                    page,
                ),
            }
        },
        NeonWalRecord::ClogSetAborted { xids } => {
            match key::key_to_slru_block(key) {
                None => true,
                Some((kind, segno, blknum)) => kind == SlruKind::Clog && check_clog(
                    xids,
                    segno,
                    blknum,
                    page,
                ),
            }
        },
        NeonWalRecord::MultixactOffsetCreate { mid, moff: _ } => {
            let pageno = *mid / pg::MULTIXACT_OFFSETS_PER_PAGE;
            let at = ((*mid % pg::MULTIXACT_OFFSETS_PER_PAGE) * 4) as usize;
            match key::key_to_slru_block(key) {
                None => true,
                Some((kind, segno, blknum)) => kind == SlruKind::MultiXactOffsets && segno == pageno
                    / pg::SLRU_PAGES_PER_SEGMENT && blknum == pageno % pg::SLRU_PAGES_PER_SEGMENT
                    && at + 4 <= buffers::buffer_len(page),
            }
        },
        NeonWalRecord::MultixactMembersCreate { moff, members } => {
            match key::key_to_slru_block(key) {
                None => true,
                Some((kind, segno, blknum)) => kind == SlruKind::MultiXactMembers
                    && members.len() as u64 <= (u32::MAX - *moff) as u64 + 1 && check_members(
                    *moff,
                    members.len(),
                    segno,
                    blknum,
                    page,
                ),
            }
        },
        NeonWalRecord::AuxFile { file_path: _, content: _ } => true,
    }
}

/// Applies a record to a page.  The page changes only where the record is applied.
pub fn apply_in_neon(record: &NeonWalRecord, key: Key, page: &mut BytesMut) -> (r: Result<
    (),
    ApplyError,
>)
    requires
        record_fits(*record, key, buffers::buffer_bytes(*old(page))),
    ensures
        match redo(*record, key, buffers::buffer_bytes(*old(page))) {
            Ok(bytes) => r is Ok && buffers::buffer_bytes(*final(page)) == bytes,
            Err(e) => r == Err::<(), ApplyError>(e) && buffers::buffer_bytes(*final(page))
                == buffers::buffer_bytes(*old(page)),
        },
{
    match record {
        NeonWalRecord::Postgres { will_init: _, rec: _ } => {
            return Err(ApplyError::PostgresRecord);
        },
        NeonWalRecord::ClearVisibilityMapFlags { new_heap_blkno, old_heap_blkno, flags } => {
            if key::key_to_rel_block(key).is_none() {
                return Err(ApplyError::InvalidRecord);
            }
            clear_visibility_flags(page, *new_heap_blkno, *flags);
            clear_visibility_flags(page, *old_heap_blkno, *flags);
        },
        NeonWalRecord::ClogSetCommitted { xids, timestamp } => {
            if key::key_to_slru_block(key).is_none() {
                return Err(ApplyError::InvalidRecord);
            }
            set_all_statuses(page, xids, pg::TRANSACTION_STATUS_COMMITTED);
            stamp_page(page, *timestamp);
        },
        NeonWalRecord::ClogSetAborted { xids } => {
            if key::key_to_slru_block(key).is_none() {
                return Err(ApplyError::InvalidRecord);
            }
            set_all_statuses(page, xids, pg::TRANSACTION_STATUS_ABORTED);
        },
        NeonWalRecord::MultixactOffsetCreate { mid, moff } => {
            if key::key_to_slru_block(key).is_none() {
                return Err(ApplyError::InvalidRecord);
            }
            let entryno = *mid % pg::MULTIXACT_OFFSETS_PER_PAGE;
            let offset = (entryno * 4) as usize;
            buffers::buffer_write_u32_le(page, offset, *moff);
        },
        NeonWalRecord::MultixactMembersCreate { moff, members } => {
            if key::key_to_slru_block(key).is_none() {
                return Err(ApplyError::InvalidRecord);
            }
            assert forall|offset: u32| *moff <= offset < *moff + members@.len() implies
                #[trigger] pg::mx_offset_to_flags_offset(offset) + 4 <= buffers::buffer_bytes(
                *page,
            ).len() && pg::mx_offset_to_member_offset(offset) + 4 <= buffers::buffer_bytes(
                *page,
            ).len() by {
                let (_, segno, blknum) = key::slru_block_of(key)->0;
                assert(member_fits(offset, segno, blknum, buffers::buffer_bytes(*page)));
            }
            set_all_members(page, *moff, members);
        },
        NeonWalRecord::AuxFile { file_path, content } => {
            let mut dir = match AuxFilesDirectory::des(buffers::buffer_as_slice(page)) {
                Ok(dir) => dir,
                Err(_) => {
                    return Err(ApplyError::InvalidDirectory);
                },
            };
            let content = match content {
                Some(c) => Some(buffers::shared_clone(c)),
                None => None,
            };
            dir.upsert(file_path.clone(), content);
            let bytes = dir.ser();
            buffers::buffer_clear(page);
            buffers::buffer_extend(page, bytes.as_slice());
            assert(Seq::<u8>::empty() + bytes@ =~= bytes@);
        },
    }
    Ok(())
}

/// The visibility-map bits of a heap block.
pub open spec fn visibility_bits(page: Seq<u8>, heap_blkno: u32) -> u8 {
    (page[pg::MAXALIGN_SIZE_OF_PAGE_HEADER_DATA + pg::heapblk_to_mapbyte(heap_blkno)]
        >> pg::heapblk_to_offset(heap_blkno)) & 3
}

/// The status of a transaction on its commit-log page.
pub open spec fn clog_status(page: Seq<u8>, xid: u32) -> u8 {
    (page[pg::clog_byte(xid) as int] >> pg::clog_shift(xid)) & pg::CLOG_XACT_BITMASK
}

/// The transaction id of a multixact member on its page.
pub open spec fn member_xid(page: Seq<u8>, offset: u32) -> u32 {
    get_u32(page, pg::mx_offset_to_member_offset(offset) as int)
}

/// The status of a multixact member on its page.
pub open spec fn member_status(page: Seq<u8>, offset: u32) -> u32 {
    (get_u32(page, pg::mx_offset_to_flags_offset(offset) as int)
        >> pg::mx_offset_to_flags_bitshift(offset)) & 0xff
}

/// Clearing bits of a heap block clears those bits and leaves the bits of every other
/// heap block on the page as they were.
pub proof fn visibility_clear_is_local(page: Seq<u8>, cleared: u32, flags: u8, heap_blkno: u32)
    requires
        flags <= 3,
        pg::heapblk_to_mapblock(cleared) == pg::heapblk_to_mapblock(heap_blkno),
        pg::MAXALIGN_SIZE_OF_PAGE_HEADER_DATA + pg::heapblk_to_mapbyte(cleared) < page.len(),
        pg::MAXALIGN_SIZE_OF_PAGE_HEADER_DATA + pg::heapblk_to_mapbyte(heap_blkno) < page.len(),
    ensures
        visibility_bits(clear_visibility(page, Some(cleared), flags), heap_blkno) == if cleared
            == heap_blkno {
            visibility_bits(page, heap_blkno) & !flags
        } else {
            visibility_bits(page, heap_blkno)
        },
{
    let at = pg::MAXALIGN_SIZE_OF_PAGE_HEADER_DATA + pg::heapblk_to_mapbyte(cleared);
    let v = page[at];
    let a = pg::heapblk_to_offset(cleared);
    let b = pg::heapblk_to_offset(heap_blkno);
    assert(a == 0 || a == 2 || a == 4 || a == 6);
    assert(b == 0 || b == 2 || b == 4 || b == 6);
    assert(((v & !(flags << a)) >> a) & 3 == ((v >> a) & 3) & !flags) by (bit_vector)
        requires
            flags <= 3,
            a == 0 || a == 2 || a == 4 || a == 6,
    ;
    if a != b {
        assert(((v & !(flags << a)) >> b) & 3 == (v >> b) & 3) by (bit_vector)
            requires
                flags <= 3,
                a == 0 || a == 2 || a == 4 || a == 6,
                b == 0 || b == 2 || b == 4 || b == 6,
                a != b,
        ;
    }
}

/// Clearing the same bits a second time changes nothing.
pub proof fn visibility_clear_is_idempotent(page: Seq<u8>, cleared: u32, flags: u8)
    requires
        pg::MAXALIGN_SIZE_OF_PAGE_HEADER_DATA + pg::heapblk_to_mapbyte(cleared) < page.len(),
    ensures
        clear_visibility(clear_visibility(page, Some(cleared), flags), Some(cleared), flags)
            == clear_visibility(page, Some(cleared), flags),
{
    let at = pg::MAXALIGN_SIZE_OF_PAGE_HEADER_DATA + pg::heapblk_to_mapbyte(cleared);
    let v = page[at];
    let m = flags << pg::heapblk_to_offset(cleared);
    assert((v & !m) & !m == v & !m) by (bit_vector);
    assert(clear_visibility(clear_visibility(page, Some(cleared), flags), Some(cleared), flags)
        =~= clear_visibility(page, Some(cleared), flags));
}

/// Two transactions of one page share a byte and a place in it only if they are the same.
proof fn lemma_clog_place(a: u32, b: u32)
    requires
        a / pg::CLOG_XACTS_PER_PAGE == b / pg::CLOG_XACTS_PER_PAGE,
        pg::clog_byte(a) == pg::clog_byte(b),
        pg::clog_shift(a) == pg::clog_shift(b),
    ensures
        a == b,
{
    assert((a % 32768) % 4 == a % 4) by (bit_vector);
    assert((b % 32768) % 4 == b % 4) by (bit_vector);
}

/// A status in its byte, and the other statuses of that byte.
proof fn lemma_status_bits(v: u8, status: u8, a: u32, b: u32)
    requires
        status <= 3,
        a == 0 || a == 2 || a == 4 || a == 6,
        b == 0 || b == 2 || b == 4 || b == 6,
    ensures
        (((v & !(3u8 << a)) | (status << a)) >> b) & 3 == if a == b {
            status
        } else {
            (v >> b) & 3
        },
{
    if a == b {
        assert((((v & !(3u8 << a)) | (status << a)) >> a) & 3 == status) by (bit_vector)
            requires
                status <= 3,
                a == 0 || a == 2 || a == 4 || a == 6,
        ;
    } else {
        assert((((v & !(3u8 << a)) | (status << a)) >> b) & 3 == (v >> b) & 3) by (bit_vector)
            requires
                status <= 3,
                a == 0 || a == 2 || a == 4 || a == 6,
                b == 0 || b == 2 || b == 4 || b == 6,
                a != b,
        ;
    }
}

/// A transaction gets its status and no other transaction of the page changes.
proof fn lemma_set_status(page: Seq<u8>, changed: u32, status: u8, xid: u32)
    requires
        status <= 3,
        changed / pg::CLOG_XACTS_PER_PAGE == xid / pg::CLOG_XACTS_PER_PAGE,
        pg::clog_byte(changed) < page.len(),
        pg::clog_byte(xid) < page.len(),
    ensures
        clog_status(set_status(page, changed, status), xid) == if changed == xid {
            status
        } else {
            clog_status(page, xid)
        },
{
    let v = page[pg::clog_byte(changed) as int];
    let a = pg::clog_shift(changed);
    let b = pg::clog_shift(xid);
    if pg::clog_byte(changed) == pg::clog_byte(xid) {
        if a == b {
            lemma_clog_place(changed, xid);
        }
        lemma_status_bits(v, status, a, b);
    }
}

/// After statuses have been set, each of the transactions has its new status and every
/// other transaction of the page the one it had.
pub proof fn statuses_read_back(page: Seq<u8>, xids: Seq<u32>, status: u8, xid: u32)
    requires
        status <= 3,
        pg::clog_byte(xid) < page.len(),
        forall|i: int|
            0 <= i < xids.len() ==> #[trigger] xids[i] / pg::CLOG_XACTS_PER_PAGE == xid
                / pg::CLOG_XACTS_PER_PAGE && pg::clog_byte(xids[i]) < page.len(),
    ensures
        clog_status(set_statuses(page, xids, status), xid) == if xids.contains(xid) {
            status
        } else {
            clog_status(page, xid)
        },
    decreases xids.len(),
{
    if xids.len() > 0 {
        let front = xids.drop_last();
        assert forall|i: int| 0 <= i < front.len() implies #[trigger] front[i]
            / pg::CLOG_XACTS_PER_PAGE == xid / pg::CLOG_XACTS_PER_PAGE && pg::clog_byte(front[i])
            < page.len() by {
            assert(front[i] == xids[i]);
        }
        statuses_read_back(page, front, status, xid);
        lemma_set_statuses_len(page, front, status);
        let last = xids[xids.len() - 1];
        assert(last / pg::CLOG_XACTS_PER_PAGE == xid / pg::CLOG_XACTS_PER_PAGE);
        lemma_set_status(set_statuses(page, front, status), last, status, xid);
        assert(xids =~= front.push(last));
        if xids.contains(xid) && last != xid {
            let k = xids.index_of(xid);
            assert(front[k] == xid);
        }
        if front.contains(xid) {
            let k = front.index_of(xid);
            assert(xids[k] == xid);
        }
    }
}

/// The time stamp behind a commit-log page disturbs no status on it.
pub proof fn stamp_keeps_statuses(page: Seq<u8>, timestamp: i64, xid: u32)
    requires
        pg::clog_byte(xid) < page.len(),
    ensures
        clog_status(stamp(page, timestamp), xid) == clog_status(page, xid),
{
}

/// What was written is read, and four bytes elsewhere are as before.
proof fn lemma_put_get_u32(page: Seq<u8>, at: int, value: u32, from: int)
    requires
        0 <= at,
        at + 4 <= page.len(),
        0 <= from,
        from + 4 <= page.len(),
        from == at || from + 4 <= at || at + 4 <= from,
    ensures
        get_u32(put_u32(page, at, value), from) == if from == at {
            value
        } else {
            get_u32(page, from)
        },
{
    lemma_auto_spec_u32_to_from_le_bytes();
    let after = put_u32(page, at, value);
    if from == at {
        assert(after.subrange(at, at + 4) =~= spec_u32_to_le_bytes(value));
    } else {
        assert(after.subrange(from, from + 4) =~= page.subrange(from, from + 4));
    }
}

/// The offset stored for a multixact is read back, and those of the other multixacts of
/// the page stay.
pub proof fn offset_reads_back(page: Seq<u8>, mid: u32, moff: u32, other: u32)
    requires
        mid / pg::MULTIXACT_OFFSETS_PER_PAGE == other / pg::MULTIXACT_OFFSETS_PER_PAGE,
        offset_entry(mid) + 4 <= page.len(),
        offset_entry(other) + 4 <= page.len(),
    ensures
        get_u32(put_u32(page, offset_entry(mid), moff), offset_entry(other)) == if mid == other {
            moff
        } else {
            get_u32(page, offset_entry(other))
        },
{
    lemma_put_get_u32(page, offset_entry(mid), moff, offset_entry(other));
}

/// Flags of one member in a group's flag word.
proof fn lemma_with_flags(flags: u32, a: u32, status: u32, b: u32)
    requires
        status <= 0xff,
    ensures
        (with_flags(flags, a, status) >> pg::mx_offset_to_flags_bitshift(b)) & 0xff == if a % 4 == b
            % 4 {
            status
        } else {
            (flags >> pg::mx_offset_to_flags_bitshift(b)) & 0xff
        },
{
    let x = pg::mx_offset_to_flags_bitshift(a);
    let y = pg::mx_offset_to_flags_bitshift(b);
    assert(x == 0 || x == 8 || x == 16 || x == 24);
    assert(y == 0 || y == 8 || y == 16 || y == 24);
    if x == y {
        assert((((flags & !(0xffu32 << x)) | (status << x)) >> x) & 0xff == status) by (bit_vector)
            requires
                status <= 0xff,
                x == 0 || x == 8 || x == 16 || x == 24,
        ;
    } else {
        assert((((flags & !(0xffu32 << x)) | (status << x)) >> y) & 0xff == (flags >> y) & 0xff)
            by (bit_vector)
            requires
                status <= 0xff,
                x == 0 || x == 8 || x == 16 || x == 24,
                y == 0 || y == 8 || y == 16 || y == 24,
                x != y,
        ;
    }
}

/// Two members of one page share a group and a place in it only if they are the same.
proof fn lemma_member_place(a: u32, b: u32)
    requires
        a / pg::MULTIXACT_MEMBERS_PER_PAGE == b / pg::MULTIXACT_MEMBERS_PER_PAGE,
        pg::mx_offset_to_flags_offset(a) == pg::mx_offset_to_flags_offset(b),
        a % 4 == b % 4,
    ensures
        a == b,
{
}

/// A member gets its transaction and status and no other member of the page changes.
proof fn lemma_set_member(page: Seq<u8>, stored: u32, member: MultiXactMember, offset: u32)
    requires
        member.status <= 0xff,
        stored / pg::MULTIXACT_MEMBERS_PER_PAGE == offset / pg::MULTIXACT_MEMBERS_PER_PAGE,
        pg::mx_offset_to_flags_offset(stored) + 4 <= page.len(),
        pg::mx_offset_to_member_offset(stored) + 4 <= page.len(),
        pg::mx_offset_to_flags_offset(offset) + 4 <= page.len(),
        pg::mx_offset_to_member_offset(offset) + 4 <= page.len(),
    ensures
        member_xid(set_member(page, stored, member), offset) == if stored == offset {
            member.xid
        } else {
            member_xid(page, offset)
        },
        member_status(set_member(page, stored, member), offset) == if stored == offset {
            member.status
        } else {
            member_status(page, offset)
        },
{
    let f1 = pg::mx_offset_to_flags_offset(stored) as int;
    let m1 = pg::mx_offset_to_member_offset(stored) as int;
    let f2 = pg::mx_offset_to_flags_offset(offset) as int;
    let m2 = pg::mx_offset_to_member_offset(offset) as int;
    let flags = get_u32(page, f1);
    let changed = with_flags(flags, stored, member.status);
    let mid = put_u32(page, f1, changed);
    lemma_put_u32_len(page, f1, changed);
    lemma_with_flags(flags, stored, member.status, offset);
    if f1 == f2 && stored % 4 == offset % 4 {
        lemma_member_place(stored, offset);
    }
    lemma_put_get_u32(page, f1, changed, f2);
    lemma_put_get_u32(page, f1, changed, m2);
    lemma_put_get_u32(mid, m1, member.xid, f2);
    lemma_put_get_u32(mid, m1, member.xid, m2);
}

/// After members have been stored, each reads back as it was given, and every other
/// member of the page as it was.
pub proof fn members_read_back(
    page: Seq<u8>,
    moff: u32,
    members: Seq<MultiXactMember>,
    segno: u32,
    blknum: u32,
    offset: u32,
)
    requires
        moff + members.len() <= u32::MAX + 1,
        member_fits(offset, segno, blknum, page),
        forall|o: u32|
            moff <= o < moff + members.len() ==> #[trigger] member_fits(o, segno, blknum, page),
        forall|i: int| 0 <= i < members.len() ==> (#[trigger] members[i]).status <= 0xff,
    ensures
        member_xid(set_members(page, moff, members), offset) == if moff <= offset < moff
            + members.len() {
            members[offset - moff].xid
        } else {
            member_xid(page, offset)
        },
        member_status(set_members(page, moff, members), offset) == if moff <= offset < moff
            + members.len() {
            members[offset - moff].status
        } else {
            member_status(page, offset)
        },
    decreases members.len(),
{
    if members.len() > 0 {
        let front = members.drop_last();
        let stored = (moff + members.len() - 1) as u32;
        assert(member_fits(stored, segno, blknum, page));
        assert(members[members.len() - 1] == members.last());
        assert forall|i: int| 0 <= i < front.len() implies (#[trigger] front[i]).status <= 0xff by {
            assert(front[i] == members[i]);
        }
        members_read_back(page, moff, front, segno, blknum, offset);
        assert forall|o: u32| moff <= o < moff + front.len() implies
            #[trigger] pg::mx_offset_to_flags_offset(o) + 4 <= page.len()
            && pg::mx_offset_to_member_offset(o) + 4 <= page.len() by {
            assert(member_fits(o, segno, blknum, page));
        }
        lemma_set_members_len(page, moff, front);
        lemma_set_member(set_members(page, moff, front), stored, members.last(), offset);
    }
}

/// A page to which an auxiliary-file record was applied reads as the directory that has
/// the record's content under its path, or no file there, and is otherwise as before.
pub proof fn aux_file_reads_back(
    page: Seq<u8>,
    key: Key,
    file_path: String,
    content: Option<Bytes>,
    files: Seq<aux_files::FileModel>,
)
    requires
        aux_files::distinct_paths(files),
        aux_files::decode_directory(page) == Some(files),
        aux_files::encodable(
            aux_files::upsert_files(files, file_path@, content_bytes(content)),
        ),
    ensures
        redo(NeonWalRecord::AuxFile { file_path, content }, key, page) matches Ok(after)
            && aux_files::decode_directory(after) matches Some(stored)
            && aux_files::content_map(stored) == match content_bytes(content) {
            Some(bytes) => aux_files::content_map(files).insert(file_path@, bytes),
            None => aux_files::content_map(files).remove(file_path@),
        },
{
    let after = aux_files::upsert_files(files, file_path@, content_bytes(content));
    aux_files::upsert_changes_one_path(files, file_path@, content_bytes(content));
    aux_files::directory_round_trip(after);
}

/// A visibility-map record takes `flags` from the two bits of each heap block that it names,
/// the new and the old one alike, whichever of them it has, and from no other heap block of
/// the page.  Block `h` has its bits in byte `(h % 32672) / 4` behind the 24 bytes of the page
/// header, from bit `2 * (h % 4)` on.
pub proof fn visibility_record_clears_its_blocks(
    key: Key,
    page: Seq<u8>,
    new_heap_blkno: Option<u32>,
    old_heap_blkno: Option<u32>,
    flags: u8,
    h: u32,
)
    requires
        flags <= 3,
        key.field1 == 0,
        key.field5 == 2,
        h / 32672 == key.field6,
        24 + (h % 32672) / 4 < page.len(),
        new_heap_blkno matches Some(n) ==> n / 32672 == key.field6 && 24 + (n % 32672) / 4
            < page.len(),
        old_heap_blkno matches Some(o) ==> o / 32672 == key.field6 && 24 + (o % 32672) / 4
            < page.len(),
    ensures
        record_fits(
            NeonWalRecord::ClearVisibilityMapFlags { new_heap_blkno, old_heap_blkno, flags },
            key,
            page,
        ),
        redo(
            NeonWalRecord::ClearVisibilityMapFlags { new_heap_blkno, old_heap_blkno, flags },
            key,
            page,
        ) matches Ok(after) && after.len() == page.len() && (after[24 + (h % 32672) / 4] >> ((h % 4)
            * 2) as u32) & 3 == if new_heap_blkno == Some(h) || old_heap_blkno == Some(h) {
            ((page[24 + (h % 32672) / 4] >> ((h % 4) * 2) as u32) & 3) & !flags
        } else {
            (page[24 + (h % 32672) / 4] >> ((h % 4) * 2) as u32) & 3
        },
{
    let first = clear_visibility(page, new_heap_blkno, flags);
    if let Some(n) = new_heap_blkno {
        visibility_clear_is_local(page, n, flags, h);
    }
    if let Some(o) = old_heap_blkno {
        visibility_clear_is_local(first, o, flags, h);
    }
    let bits = visibility_bits(page, h);
    assert((bits & !flags) & !flags == bits & !flags) by (bit_vector);
}

/// A visibility-map record changes no byte but the one of its new and the one of its old heap
/// block, and sets no bit in either.
pub proof fn visibility_record_is_local(
    key: Key,
    page: Seq<u8>,
    new_heap_blkno: Option<u32>,
    old_heap_blkno: Option<u32>,
    flags: u8,
    i: int,
)
    requires
        key.field1 == 0,
        0 <= i < page.len(),
        new_heap_blkno matches Some(n) ==> 24 + (n % 32672) / 4 < page.len(),
        old_heap_blkno matches Some(o) ==> 24 + (o % 32672) / 4 < page.len(),
    ensures
        redo(
            NeonWalRecord::ClearVisibilityMapFlags { new_heap_blkno, old_heap_blkno, flags },
            key,
            page,
        ) matches Ok(after) && after.len() == page.len() && after[i] & !page[i] == 0 && (after[i]
            == page[i] || (new_heap_blkno matches Some(n) && i == 24 + (n % 32672) / 4) || (
        old_heap_blkno matches Some(o) && i == 24 + (o % 32672) / 4)),
{
    let v = page[i];
    let a = match new_heap_blkno {
        Some(n) => flags << pg::heapblk_to_offset(n),
        None => 0u8,
    };
    let b = match old_heap_blkno {
        Some(o) => flags << pg::heapblk_to_offset(o),
        None => 0u8,
    };
    assert(v & !v == 0 && (v & !a) & !v == 0 && (v & !b) & !v == 0 && ((v & !a) & !b) & !v == 0)
        by (bit_vector);
}

/// Records that need a relation page are refused for every other key, those that need a page
/// of a simple-LRU area likewise, and those of Postgres itself always; nothing else is refused
/// for its key.
pub proof fn keys_decide_refusals(record: NeonWalRecord, key: Key, page: Seq<u8>)
    ensures
        (redo(record, key, page) == Err::<Seq<u8>, ApplyError>(ApplyError::PostgresRecord))
            == record is Postgres,
        (redo(record, key, page) == Err::<Seq<u8>, ApplyError>(ApplyError::InvalidRecord)) == ((
        record is ClearVisibilityMapFlags && key.field1 != 0) || ((record is ClogSetCommitted
            || record is ClogSetAborted || record is MultixactOffsetCreate
            || record is MultixactMembersCreate) && (key.field1 != 1 || key.field2 > 2))),
        redo(record, key, page) == Err::<Seq<u8>, ApplyError>(ApplyError::InvalidDirectory)
            ==> record is AuxFile,
{
}

/// The status of transaction `x` stands in byte `(x % 32768) / 4` of its commit-log page, from
/// bit `2 * (x % 4)` on.  Once a record of committed transactions was applied, each of them
/// has the status 1 there, once one of aborted transactions was, the status 2, and every other
/// transaction of the page keeps its status.
pub proof fn clog_record_sets_statuses(
    key: Key,
    page: Seq<u8>,
    xids: Vec<u32>,
    timestamp: i64,
    x: u32,
)
    requires
        key.field1 == 1,
        key.field2 == 0,
        x / 32768 / 32 == key.field4,
        x / 32768 % 32 == key.field6,
        (x % 32768) / 4 < page.len(),
        forall|i: int|
            0 <= i < xids@.len() ==> #[trigger] xids@[i] / 32768 / 32 == key.field4 && xids@[i]
                / 32768 % 32 == key.field6 && (xids@[i] % 32768) / 4 < page.len(),
    ensures
        record_fits(NeonWalRecord::ClogSetCommitted { xids, timestamp }, key, page),
        record_fits(NeonWalRecord::ClogSetAborted { xids }, key, page),
        redo(NeonWalRecord::ClogSetCommitted { xids, timestamp }, key, page) matches Ok(after)
            && (after[((x % 32768) / 4) as int] >> ((x % 4) * 2) as u32) & 3 == if xids@.contains(
            x,
        ) {
            1
        } else {
            (page[((x % 32768) / 4) as int] >> ((x % 4) * 2) as u32) & 3
        },
        redo(NeonWalRecord::ClogSetAborted { xids }, key, page) matches Ok(after) && after.len()
            == page.len() && (after[((x % 32768) / 4) as int] >> ((x % 4) * 2) as u32) & 3
            == if xids@.contains(x) {
            2
        } else {
            (page[((x % 32768) / 4) as int] >> ((x % 4) * 2) as u32) & 3
        },
{
    assert forall|i: int| 0 <= i < xids@.len() implies #[trigger] xids@[i]
        / pg::CLOG_XACTS_PER_PAGE == x / pg::CLOG_XACTS_PER_PAGE && pg::clog_byte(xids@[i])
        < page.len() by {
        assert(xids@[i] / 32768 / 32 == key.field4);
    }
    statuses_read_back(page, xids@, 1, x);
    statuses_read_back(page, xids@, 2, x);
    lemma_set_statuses_len(page, xids@, 1);
    lemma_set_statuses_len(page, xids@, 2);
    stamp_keeps_statuses(set_statuses(page, xids@, 1), timestamp, x);
}

/// The time of the latest commit follows a commit-log page of 8192 bytes as eight more, most
/// significant first, and takes the place of an earlier one; where the page has any other
/// length, it keeps that length.
pub proof fn commit_record_stamps_the_page(
    key: Key,
    page: Seq<u8>,
    xids: Vec<u32>,
    timestamp: i64,
)
    requires
        key.field1 == 1,
        key.field2 == 0,
        forall|i: int| 0 <= i < xids@.len() ==> (#[trigger] xids@[i] % 32768) / 4 < page.len(),
    ensures
        redo(NeonWalRecord::ClogSetCommitted { xids, timestamp }, key, page) matches Ok(after)
            && redo(NeonWalRecord::ClogSetAborted { xids }, key, page) matches Ok(aborted)
            && aborted.len() == page.len() && if page.len() == 8192 || page.len() == 8200 {
            &&& after.len() == 8200
            &&& after[8192] * 0x100_0000_0000_0000 + after[8193] * 0x1_0000_0000_0000 + after[8194]
                * 0x100_0000_0000 + after[8195] * 0x1_0000_0000 + after[8196] * 0x100_0000
                + after[8197] * 0x1_0000 + after[8198] * 0x100 + after[8199] == timestamp as u64
        } else {
            after.len() == page.len()
        },
{
    lemma_set_statuses_len(page, xids@, 1);
    lemma_set_statuses_len(page, xids@, 2);
    codec::be_u64_is_positional(timestamp as u64);
}

/// A commit-log record leaves every byte alone in which none of its transactions has its
/// status.
pub proof fn clog_record_is_local(
    key: Key,
    page: Seq<u8>,
    xids: Vec<u32>,
    timestamp: i64,
    i: int,
)
    requires
        key.field1 == 1,
        key.field2 == 0,
        0 <= i < page.len(),
        i < 8192,
        forall|k: int|
            0 <= k < xids@.len() ==> (#[trigger] xids@[k] % 32768) / 4 < page.len() && (xids@[k]
                % 32768) / 4 != i,
    ensures
        redo(NeonWalRecord::ClogSetCommitted { xids, timestamp }, key, page) matches Ok(after)
            && after[i] == page[i],
        redo(NeonWalRecord::ClogSetAborted { xids }, key, page) matches Ok(after) && after[i]
            == page[i],
{
    lemma_set_statuses_local(page, xids@, 1, i);
    lemma_set_statuses_local(page, xids@, 2, i);
}

/// Setting statuses leaves the other bytes alone.
proof fn lemma_set_statuses_local(page: Seq<u8>, xids: Seq<u32>, status: u8, i: int)
    requires
        0 <= i < page.len(),
        forall|k: int|
            0 <= k < xids.len() ==> (#[trigger] xids[k] % 32768) / 4 < page.len() && (xids[k]
                % 32768) / 4 != i,
    ensures
        set_statuses(page, xids, status).len() == page.len(),
        set_statuses(page, xids, status)[i] == page[i],
    decreases xids.len(),
{
    if xids.len() > 0 {
        let front = xids.drop_last();
        assert forall|k: int| 0 <= k < front.len() implies (#[trigger] front[k] % 32768) / 4
            < page.len() && (front[k] % 32768) / 4 != i by {
            assert(front[k] == xids[k]);
        }
        lemma_set_statuses_local(page, front, status, i);
        assert(xids[xids.len() - 1] == xids.last());
    }
}

/// The member offset of multixact `m` is the little-endian number at byte `4 * (m % 2048)` of
/// its page.  The record of a new multixact stores its offset there and changes no other byte.
pub proof fn offset_record_stores_the_offset(
    key: Key,
    page: Seq<u8>,
    mid: u32,
    moff: u32,
    i: int,
)
    requires
        key.field1 == 1,
        key.field2 == 2,
        mid / 2048 / 32 == key.field4,
        mid / 2048 % 32 == key.field6,
        (mid % 2048) * 4 + 4 <= page.len(),
        0 <= i < page.len(),
    ensures
        record_fits(NeonWalRecord::MultixactOffsetCreate { mid, moff }, key, page),
        redo(NeonWalRecord::MultixactOffsetCreate { mid, moff }, key, page) matches Ok(after)
            && after.len() == page.len() && {
            let at = (mid % 2048) * 4;
            &&& spec_u32_from_le_bytes(after.subrange(at, at + 4)) == moff
            &&& i < at || at + 4 <= i ==> after[i] == page[i]
        },
{
    lemma_put_u32_len(page, offset_entry(mid), moff);
    lemma_put_get_u32(page, offset_entry(mid), moff, offset_entry(mid));
    lemma_auto_spec_u32_to_from_le_bytes();
}

/// Members of multixacts stand on their page in groups of four: four bytes of flags, one for
/// each member, and then the four transaction ids.  The group of member `o` starts at byte
/// `20 * ((o / 4) % 409)`.  The record of new members stores the first of them at `moff` and
/// each next one behind it, transaction id and flags, and no other member of the page changes.
pub proof fn members_record_stores_the_members(
    key: Key,
    page: Seq<u8>,
    moff: u32,
    members: Vec<MultiXactMember>,
    o: u32,
)
    requires
        key.field1 == 1,
        key.field2 == 1,
        page.len() == 8192,
        moff + members@.len() <= 0x1_0000_0000,
        o / 1636 / 32 == key.field4,
        o / 1636 % 32 == key.field6,
        forall|offset: u32|
            moff <= offset < moff + members@.len() ==> #[trigger] (offset / 1636) / 32
                == key.field4 && (offset / 1636) % 32 == key.field6,
        forall|i: int| 0 <= i < members@.len() ==> (#[trigger] members@[i]).status <= 0xff,
    ensures
        record_fits(NeonWalRecord::MultixactMembersCreate { moff, members }, key, page),
        redo(NeonWalRecord::MultixactMembersCreate { moff, members }, key, page) matches Ok(after)
            && after.len() == page.len() && {
            let group = ((o / 4) % 409) * 20;
            let place = group + 4 + (o % 4) * 4;
            let xid = spec_u32_from_le_bytes(after.subrange(place, place + 4));
            let status = (spec_u32_from_le_bytes(after.subrange(group, group + 4)) >> ((o % 4)
                * 8) as u32) & 0xff;
            if moff <= o < moff + members@.len() {
                xid == members@[o - moff].xid && status == members@[o - moff].status
            } else {
                xid == spec_u32_from_le_bytes(page.subrange(place, place + 4)) && status == (
                spec_u32_from_le_bytes(page.subrange(group, group + 4)) >> ((o % 4) * 8) as u32)
                    & 0xff
            }
        },
{
    let segno = key.field4;
    let blknum = key.field6;
    assert(member_fits(o, segno, blknum, page));
    assert forall|offset: u32| moff <= offset < moff + members@.len() implies
        #[trigger] member_fits(offset, segno, blknum, page) by {
        assert((offset / 1636) / 32 == key.field4);
    }
    assert forall|offset: u32| moff <= offset < moff + members@.len() implies
        #[trigger] pg::mx_offset_to_flags_offset(offset) + 4 <= page.len()
        && pg::mx_offset_to_member_offset(offset) + 4 <= page.len() by {
        assert(member_fits(offset, segno, blknum, page));
    }
    members_read_back(page, moff, members@, segno, blknum, o);
    lemma_set_members_len(page, moff, members@);
}

/// A record fits exactly the pages that it is about.  One of the visibility map fits the map fork
/// where each block that it names has its byte on the page; one of the commit log, of multixact
/// offsets or of members the page of its own area that has the place of everything in it.
/// Records of Postgres and of auxiliary files fit every page, and a key of another kind rules
/// nothing out, as the record is refused for it.
pub proof fn records_fit_the_pages_that_they_are_about(key: Key, page: Seq<u8>, record: NeonWalRecord)
    ensures
        record_fits(record, key, page) <==> match record {
            NeonWalRecord::Postgres { .. } => true,
            NeonWalRecord::AuxFile { .. } => true,
            NeonWalRecord::ClearVisibilityMapFlags { new_heap_blkno, old_heap_blkno, .. } => {
                key.field1 == 0 ==> {
                    &&& key.field5 == 2
                    &&& new_heap_blkno matches Some(n) ==> n / 32672 == key.field6 && 24 + (n
                        % 32672) / 4 < page.len()
                    &&& old_heap_blkno matches Some(o) ==> o / 32672 == key.field6 && 24 + (o
                        % 32672) / 4 < page.len()
                }
            },
            NeonWalRecord::ClogSetCommitted { xids, .. } => {
                key.field1 == 1 && key.field2 <= 2 ==> key.field2 == 0 && forall|i: int|
                    0 <= i < xids@.len() ==> #[trigger] xids@[i] / 32768 / 32 == key.field4
                        && xids@[i] / 32768 % 32 == key.field6 && (xids@[i] % 32768) / 4
                        < page.len()
            },
            NeonWalRecord::ClogSetAborted { xids } => {
                key.field1 == 1 && key.field2 <= 2 ==> key.field2 == 0 && forall|i: int|
                    0 <= i < xids@.len() ==> #[trigger] xids@[i] / 32768 / 32 == key.field4
                        && xids@[i] / 32768 % 32 == key.field6 && (xids@[i] % 32768) / 4
                        < page.len()
            },
            NeonWalRecord::MultixactOffsetCreate { mid, .. } => {
                key.field1 == 1 && key.field2 <= 2 ==> key.field2 == 2 && mid / 2048 / 32
                    == key.field4 && mid / 2048 % 32 == key.field6 && (mid % 2048) * 4 + 4
                    <= page.len()
            },
            NeonWalRecord::MultixactMembersCreate { moff, members } => {
                key.field1 == 1 && key.field2 <= 2 ==> key.field2 == 1 && moff + members@.len()
                    <= 0x1_0000_0000 && forall|o: u32|
                    moff <= o < moff + members@.len() ==> #[trigger] (o / 1636) / 32 == key.field4
                        && (o / 1636) % 32 == key.field6 && ((o / 4) % 409) * 20 + 8 + (o % 4) * 4
                        <= page.len()
            },
        },
{
    match record {
        NeonWalRecord::ClogSetCommitted { xids, .. } => {
            lemma_clog_fits(xids@, key, page);
        },
        NeonWalRecord::ClogSetAborted { xids } => {
            lemma_clog_fits(xids@, key, page);
        },
        NeonWalRecord::MultixactMembersCreate { moff, members } => {
            let segno = key.field4;
            let blknum = key.field6;
            assert forall|o: u32| #[trigger]
                member_fits(o, segno, blknum, page) == ((o / 1636) / 32 == key.field4 && (o / 1636)
                    % 32 == key.field6 && ((o / 4) % 409) * 20 + 8 + (o % 4) * 4 <= page.len()) by {}
            if forall|o: u32|
                moff <= o < moff + members@.len() ==> #[trigger] (o / 1636) / 32 == key.field4 && (o
                    / 1636) % 32 == key.field6 && ((o / 4) % 409) * 20 + 8 + (o % 4) * 4
                    <= page.len() {
                assert forall|o: u32| moff <= o < moff + members@.len() implies
                    #[trigger] member_fits(o, segno, blknum, page) by {
                    assert((o / 1636) / 32 == key.field4);
                }
            }
            if forall|o: u32|
                moff <= o < moff + members@.len() ==> #[trigger] member_fits(
                    o,
                    segno,
                    blknum,
                    page,
                ) {
                assert forall|o: u32| moff <= o < moff + members@.len() implies #[trigger] (o / 1636)
                    / 32 == key.field4 && (o / 1636) % 32 == key.field6 && ((o / 4) % 409) * 20 + 8
                    + (o % 4) * 4 <= page.len() by {
                    assert(member_fits(o, segno, blknum, page));
                }
            }
        },
        _ => {},
    }
}

/// The transactions of a commit-log page by their numbers.
proof fn lemma_clog_fits(xids: Seq<u32>, key: Key, page: Seq<u8>)
    ensures
        clog_fits(xids, key.field4, key.field6, page) <==> forall|i: int|
            0 <= i < xids.len() ==> #[trigger] xids[i] / 32768 / 32 == key.field4 && xids[i] / 32768
                % 32 == key.field6 && (xids[i] % 32768) / 4 < page.len(),
{
    if forall|i: int|
        0 <= i < xids.len() ==> #[trigger] xids[i] / 32768 / 32 == key.field4 && xids[i] / 32768
            % 32 == key.field6 && (xids[i] % 32768) / 4 < page.len() {
        assert forall|i: int| 0 <= i < xids.len() implies is_slru_page(
            #[trigger] xids[i] / pg::CLOG_XACTS_PER_PAGE,
            key.field4,
            key.field6,
        ) && pg::clog_byte(xids[i]) < page.len() by {
            assert(xids[i] / 32768 / 32 == key.field4);
        }
    }
    if clog_fits(xids, key.field4, key.field6, page) {
        assert forall|i: int| 0 <= i < xids.len() implies #[trigger] xids[i] / 32768 / 32
            == key.field4 && xids[i] / 32768 % 32 == key.field6 && (xids[i] % 32768) / 4
            < page.len() by {
            assert(is_slru_page(
                xids[i] / pg::CLOG_XACTS_PER_PAGE,
                key.field4,
                key.field6,
            ));
        }
    }
}

} // verus!
