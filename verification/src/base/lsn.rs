//! Positions in the write-ahead log.
use vstd::prelude::*;

use crate::base::text;

verus! {

/// A position in the write-ahead log, in bytes from its beginning.
#[derive(Clone, Copy, Debug, PartialEq, Eq, Structural, Hash)]
pub struct Lsn(pub u64);

impl Lsn {
    /// The position that stands for none.
    #[verifier::allow_in_spec]
    pub fn invalid() -> Lsn
        returns
            Lsn(0),
    {
        Lsn(0)
    }

    /// The greatest position.
    #[verifier::allow_in_spec]
    pub fn max_value() -> Lsn
        returns
            Lsn(u64::MAX),
    {
        Lsn(u64::MAX)
    }

    /// The number of the segment of `segsz` bytes that the position is in.
    pub fn segment_number(self, segsz: usize) -> (r: u64)
        requires
            segsz > 0,
        ensures
            r == self.0 / (segsz as u64),
    {
        self.0 / segsz as u64
    }

    /// The position in text: its upper and its lower half, in hexadecimal.
    pub open spec fn text(self) -> Seq<char> {
        text::hex((self.0 / 0x1_0000_0000) as nat, 1) + "/"@ + text::hex(
            (self.0 % 0x1_0000_0000) as nat,
            1,
        )
    }

    /// The position in text.
    pub fn to_text(self) -> (r: String)
        ensures
            r@ == self.text(),
    {
        let mut r = text::hex_text(self.0 / 0x1_0000_0000, 1);
        let lower = text::hex_text(self.0 % 0x1_0000_0000, 1);
        r.append("/");
        r.append(lower.as_str());
        r
    }
}

/// A position is written as its upper and its lower half, apart by a slash.
pub proof fn positions_are_written_in_halves(upper: u32, lower: u32)
    ensures
        Lsn((upper * 0x1_0000_0000 + lower) as u64).text() == text::hex(upper as nat, 1) + "/"@
            + text::hex(lower as nat, 1),
{
}

} // verus!
