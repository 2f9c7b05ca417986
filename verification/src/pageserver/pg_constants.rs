//! Page geometry of Postgres: where visibility-map bits, commit-log statuses and
//! multixact entries stand on their pages.
use vstd::prelude::*;

verus! {

/// Size of a Postgres page.
pub const BLCKSZ: u32 = 8192;

/// Aligned size of the header of a relation page.
pub const MAXALIGN_SIZE_OF_PAGE_HEADER_DATA: usize = 24;

/// The fork of a relation that holds its visibility map.
pub const VISIBILITYMAP_FORKNUM: u8 = 2;

/// Visibility-map bits kept for one heap block.
pub const BITS_PER_HEAPBLOCK: u32 = 2;

/// Heap blocks described by one byte of the visibility map.
pub const HEAPBLOCKS_PER_BYTE: u32 = 4;

/// Heap blocks described by one page of the visibility map.
pub const HEAPBLOCKS_PER_PAGE: u32 = 32672;

/// Transaction statuses in one byte of the commit log.
pub const CLOG_XACTS_PER_BYTE: u32 = 4;

/// Transaction statuses on one page of the commit log.
pub const CLOG_XACTS_PER_PAGE: u32 = 32768;

/// Bits of one transaction status.
pub const CLOG_BITS_PER_XACT: u32 = 2;

/// The status bits of the first transaction in a byte.
pub const CLOG_XACT_BITMASK: u8 = 3;

/// The status of a committed transaction.
pub const TRANSACTION_STATUS_COMMITTED: u8 = 1;

/// The status of an aborted transaction.
pub const TRANSACTION_STATUS_ABORTED: u8 = 2;

/// Pages in one segment file of a simple-LRU area.
pub const SLRU_PAGES_PER_SEGMENT: u32 = 32;

/// Multixact offsets on one page.
pub const MULTIXACT_OFFSETS_PER_PAGE: u32 = 2048;

/// Flag bits of one multixact member.
pub const MXACT_MEMBER_BITS_PER_XACT: u32 = 8;

/// Flag bytes in front of a group of members.
pub const MULTIXACT_FLAGBYTES_PER_GROUP: u32 = 4;

/// Members in one group.
pub const MULTIXACT_MEMBERS_PER_MEMBERGROUP: u32 = 4;

/// Bytes of one group: its flag bytes and its members' transaction ids.
pub const MULTIXACT_MEMBERGROUP_SIZE: u32 = 20;

/// Whole groups on one page.
pub const MULTIXACT_MEMBERGROUPS_PER_PAGE: u32 = 409;

/// Members on one page.
pub const MULTIXACT_MEMBERS_PER_PAGE: u32 = 1636;

/// The constants fit together as the page layouts demand.
pub proof fn page_geometry()
    ensures
        HEAPBLOCKS_PER_PAGE == (BLCKSZ - MAXALIGN_SIZE_OF_PAGE_HEADER_DATA) * HEAPBLOCKS_PER_BYTE,
        HEAPBLOCKS_PER_BYTE * BITS_PER_HEAPBLOCK == 8,
        CLOG_XACTS_PER_PAGE == BLCKSZ * CLOG_XACTS_PER_BYTE,
        CLOG_XACTS_PER_BYTE * CLOG_BITS_PER_XACT == 8,
        MULTIXACT_OFFSETS_PER_PAGE * 4 == BLCKSZ,
        MULTIXACT_MEMBERGROUP_SIZE == MULTIXACT_FLAGBYTES_PER_GROUP + 4
            * MULTIXACT_MEMBERS_PER_MEMBERGROUP,
        MULTIXACT_MEMBERGROUPS_PER_PAGE == BLCKSZ / MULTIXACT_MEMBERGROUP_SIZE,
        MULTIXACT_MEMBERS_PER_PAGE == MULTIXACT_MEMBERGROUPS_PER_PAGE
            * MULTIXACT_MEMBERS_PER_MEMBERGROUP,
{
}

/// The page of the visibility map that describes heap block `x`.
#[verifier::allow_in_spec]
pub fn heapblk_to_mapblock(x: u32) -> u32
    returns
        (x / HEAPBLOCKS_PER_PAGE),
{
    x / HEAPBLOCKS_PER_PAGE
}

/// The byte, counted behind the page header, that describes heap block `x`.
#[verifier::allow_in_spec]
pub fn heapblk_to_mapbyte(x: u32) -> u32
    returns
        ((x % HEAPBLOCKS_PER_PAGE) / HEAPBLOCKS_PER_BYTE),
{
    (x % HEAPBLOCKS_PER_PAGE) / HEAPBLOCKS_PER_BYTE
}

/// The first of the bits of that byte that describe heap block `x`.
#[verifier::allow_in_spec]
pub fn heapblk_to_offset(x: u32) -> u32
    returns
        ((x % HEAPBLOCKS_PER_BYTE) * BITS_PER_HEAPBLOCK) as u32,
{
    (x % HEAPBLOCKS_PER_BYTE) * BITS_PER_HEAPBLOCK
}

/// The byte of its commit-log page that holds the status of transaction `xid`.
#[verifier::allow_in_spec]
pub fn clog_byte(xid: u32) -> u32
    returns
        ((xid % CLOG_XACTS_PER_PAGE) / CLOG_XACTS_PER_BYTE),
{
    (xid % CLOG_XACTS_PER_PAGE) / CLOG_XACTS_PER_BYTE
}

/// The first of the bits of that byte that hold the status of transaction `xid`.
#[verifier::allow_in_spec]
pub fn clog_shift(xid: u32) -> u32
    returns
        ((xid % CLOG_XACTS_PER_BYTE) * CLOG_BITS_PER_XACT) as u32,
{
    (xid % CLOG_XACTS_PER_BYTE) * CLOG_BITS_PER_XACT
}

/// Where on its page the flags of the group of member `offset` stand.
#[verifier::allow_in_spec]
pub fn mx_offset_to_flags_offset(offset: u32) -> usize
    returns
        ((((offset / MULTIXACT_MEMBERS_PER_MEMBERGROUP) % MULTIXACT_MEMBERGROUPS_PER_PAGE)
            * MULTIXACT_MEMBERGROUP_SIZE) as usize),
{
    (((offset / MULTIXACT_MEMBERS_PER_MEMBERGROUP) % MULTIXACT_MEMBERGROUPS_PER_PAGE)
        * MULTIXACT_MEMBERGROUP_SIZE) as usize
}

/// The first of the bits of those flags that belong to member `offset`.
#[verifier::allow_in_spec]
pub fn mx_offset_to_flags_bitshift(offset: u32) -> u32
    returns
        ((offset % MULTIXACT_MEMBERS_PER_MEMBERGROUP) * MXACT_MEMBER_BITS_PER_XACT) as u32,
{
    (offset % MULTIXACT_MEMBERS_PER_MEMBERGROUP) * MXACT_MEMBER_BITS_PER_XACT
}

/// Where on its page the transaction id of member `offset` stands.
#[verifier::allow_in_spec]
pub fn mx_offset_to_member_offset(offset: u32) -> usize
    returns
        ((mx_offset_to_flags_offset(offset) + MULTIXACT_FLAGBYTES_PER_GROUP + (offset
            % MULTIXACT_MEMBERS_PER_MEMBERGROUP) * 4) as usize),
{
    mx_offset_to_flags_offset(offset) + (MULTIXACT_FLAGBYTES_PER_GROUP + (offset
        % MULTIXACT_MEMBERS_PER_MEMBERGROUP) * 4) as usize
}

} // verus!
