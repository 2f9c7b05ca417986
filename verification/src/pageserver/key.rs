//! Keys of the page server's key space.
use vstd::prelude::*;

use crate::base::ordered_map::MapKey;

verus! {

/// The key under which a page or another value is stored.
#[derive(Clone, Copy, Debug, PartialEq, Eq, Structural, Hash)]
pub struct Key {
    pub field1: u8,
    pub field2: u32,
    pub field3: u32,
    pub field4: u32,
    pub field5: u8,
    pub field6: u32,
}

impl MapKey for Key {
    /// Keys are ordered field by field.
    open spec fn rank(self) -> int {
        ((((self.field1 * 0x1_0000_0000 + self.field2) * 0x1_0000_0000 + self.field3)
            * 0x1_0000_0000 + self.field4) * 0x100 + self.field5) * 0x1_0000_0000 + self.field6
    }

    proof fn rank_is_unique(a: Self, b: Self) {
    }

    fn precedes(&self, other: &Self) -> bool {
        if self.field1 != other.field1 {
            self.field1 < other.field1
        } else if self.field2 != other.field2 {
            self.field2 < other.field2
        } else if self.field3 != other.field3 {
            self.field3 < other.field3
        } else if self.field4 != other.field4 {
            self.field4 < other.field4
        } else if self.field5 != other.field5 {
            self.field5 < other.field5
        } else {
            self.field6 < other.field6
        }
    }
}

/// A fork of a relation.
#[derive(Clone, Copy, Debug, PartialEq, Eq, Structural, Hash)]
pub struct RelTag {
    pub forknum: u8,
    pub spcnode: u32,
    pub dbnode: u32,
    pub relnode: u32,
}

/// The simple-LRU areas that are stored page by page.
#[derive(Clone, Copy, Debug, PartialEq, Eq, Structural, Hash)]
pub enum SlruKind {
    Clog,
    MultiXactMembers,
    MultiXactOffsets,
}

/// The relation fork and block that `key` stands for, where it is a relation page.
pub open spec fn rel_block_of(key: Key) -> Option<(RelTag, u32)> {
    if key.field1 == 0 {
        Some(
            (
                RelTag {
                    forknum: key.field5,
                    spcnode: key.field2,
                    dbnode: key.field3,
                    relnode: key.field4,
                },
                key.field6,
            ),
        )
    } else {
        None
    }
}

/// The simple-LRU area, segment and block that `key` stands for, where it is such a page.
pub open spec fn slru_block_of(key: Key) -> Option<(SlruKind, u32, u32)> {
    if key.field1 != 1 {
        None
    } else if key.field2 == 0 {
        Some((SlruKind::Clog, key.field4, key.field6))
    } else if key.field2 == 1 {
        Some((SlruKind::MultiXactMembers, key.field4, key.field6))
    } else if key.field2 == 2 {
        Some((SlruKind::MultiXactOffsets, key.field4, key.field6))
    } else {
        None
    }
}

/// The relation fork and block of a relation page's key; `None` for any other key.
pub fn key_to_rel_block(key: Key) -> (r: Option<(RelTag, u32)>)
    ensures
        r == rel_block_of(key),
{
    if key.field1 == 0 {
        Some(
            (
                RelTag {
                    forknum: key.field5,
                    spcnode: key.field2,
                    dbnode: key.field3,
                    relnode: key.field4,
                },
                key.field6,
            ),
        )
    } else {
        None
    }
}

/// The area, segment and block of a simple-LRU page's key; `None` for any other key.
pub fn key_to_slru_block(key: Key) -> (r: Option<(SlruKind, u32, u32)>)
    ensures
        r == slru_block_of(key),
{
    if key.field1 != 1 {
        return None;
    }
    let kind = match key.field2 {
        0 => SlruKind::Clog,
        1 => SlruKind::MultiXactMembers,
        2 => SlruKind::MultiXactOffsets,
        _ => {
            return None;
        },
    };
    Some((kind, key.field4, key.field6))
}

/// Keys are ordered field by field, the first field before the second and so on.
pub proof fn keys_are_ordered_field_by_field(a: Key, b: Key)
    ensures
        a.rank() < b.rank() <==> {
            ||| a.field1 < b.field1
            ||| a.field1 == b.field1 && a.field2 < b.field2
            ||| a.field1 == b.field1 && a.field2 == b.field2 && a.field3 < b.field3
            ||| a.field1 == b.field1 && a.field2 == b.field2 && a.field3 == b.field3 && a.field4
                < b.field4
            ||| a.field1 == b.field1 && a.field2 == b.field2 && a.field3 == b.field3 && a.field4
                == b.field4 && a.field5 < b.field5
            ||| a.field1 == b.field1 && a.field2 == b.field2 && a.field3 == b.field3 && a.field4
                == b.field4 && a.field5 == b.field5 && a.field6 < b.field6
        },
{
}

/// The keys of relation pages begin with zero; table space, database, relation, fork and block
/// follow in this order, and no two pages have the same key.
pub proof fn relation_keys_name_their_pages(key: Key, other: Key)
    ensures
        rel_block_of(key) is Some <==> key.field1 == 0,
        rel_block_of(key) matches Some((rel, blknum)) ==> rel.spcnode == key.field2 && rel.dbnode
            == key.field3 && rel.relnode == key.field4 && rel.forknum == key.field5 && blknum
            == key.field6,
        rel_block_of(key) is Some && rel_block_of(key) == rel_block_of(other) ==> key == other,
{
}

/// The keys of simple-LRU pages begin with one; then comes the area, zero for the commit log,
/// one for multixact members and two for multixact offsets, in the fourth field the segment
/// and in the last one the block.
pub proof fn slru_keys_name_their_pages(key: Key)
    ensures
        slru_block_of(key) is Some <==> key.field1 == 1 && key.field2 <= 2,
        slru_block_of(key) matches Some((kind, segno, blknum)) ==> {
            &&& segno == key.field4
            &&& blknum == key.field6
            &&& kind == SlruKind::Clog <==> key.field2 == 0
            &&& kind == SlruKind::MultiXactMembers <==> key.field2 == 1
            &&& kind == SlruKind::MultiXactOffsets <==> key.field2 == 2
        },
        !(rel_block_of(key) is Some && slru_block_of(key) is Some),
{
}

} // verus!
