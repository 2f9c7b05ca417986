//! Append-only files that hold the blobs of in-memory layers.
//!
//! A blob is stored as its length followed by its bytes.  A length below 128 takes one
//! byte; any other takes four, big-endian, with the top bit set.  The last page of the
//! file, which can still change, is kept in memory; a page is written to disk when it is
//! full and never changes afterwards.
//!
//! Writing a blob alternates with writing pages: [`EphemeralFile::push`] fills the page
//! in memory and says when it has to be written, and the caller reports back with
//! [`EphemeralFile::tail_flushed`].  If the page could not be written the blob is given
//! up: the file keeps its length.
use bytes::BytesMut;
use vstd::prelude::*;

use crate::base::buffers;
use crate::base::codec;
use crate::base::text;

verus! {

/// Size of a page.
pub const PAGE_SZ: usize = 8192;

/// The length of the longest stored file: it has a page for each 32-bit number, and the last of
/// them is not full.
pub const MAX_FILE_LEN: u64 = 35184372088831;

/// The length field of a blob.
pub open spec fn blob_header(len: nat) -> Seq<u8> {
    if len < 0x80 {
        seq![len as u8]
    } else {
        let b = codec::be_u32(len as u32);
        seq![b[0] | 0x80, b[1], b[2], b[3]]
    }
}

/// A blob as it is stored.
pub open spec fn encode_blob(blob: Seq<u8>) -> Seq<u8> {
    blob_header(blob.len()) + blob
}

/// Size of the length field that starts with the byte `first`.
pub open spec fn header_size(first: u8) -> int {
    if first < 0x80 {
        1
    } else {
        4
    }
}

/// The length of the blob whose length field `log` holds at `pos`.
pub open spec fn stored_len(log: Seq<u8>, pos: int) -> int {
    if log[pos] < 0x80 {
        log[pos] as int
    } else {
        codec::be_u32_value(seq![log[pos] & 0x7f, log[pos + 1], log[pos + 2], log[pos + 3]]) as int
    }
}

/// The blob that starts at `pos`; `None` where `log` does not hold one there.
pub open spec fn blob_at(log: Seq<u8>, pos: int) -> Option<Seq<u8>> {
    if !(0 <= pos < log.len()) || log.len() < pos + header_size(log[pos]) {
        None
    } else {
        let start = pos + header_size(log[pos]);
        let end = start + stored_len(log, pos);
        if end > log.len() {
            None
        } else {
            Some(log.subrange(start, end))
        }
    }
}

/// The contents of a file on disk after `page` has been written at `at`.
pub open spec fn write_at(disk: Seq<u8>, at: int, page: Seq<u8>) -> Seq<u8> {
    disk.take(at) + page + if disk.len() > at + page.len() {
        disk.skip(at + page.len())
    } else {
        Seq::empty()
    }
}

/// An append-only file.
pub struct EphemeralFile {
    /// The number of bytes of complete blobs.
    pub len: u64,
    /// The last page.
    pub mutable_tail: BytesMut,
    /// What has been written to disk.
    pub disk: Ghost<Seq<u8>>,
}

/// Where a block of the file is to be read from.
#[derive(Clone, Copy, Debug, PartialEq, Eq, Structural)]
pub enum BlockSource {
    /// From disk, at this offset.
    Flushed { offset: u64 },
    /// From the page in memory.
    MutableTail,
}

/// What writing a blob needs next.
#[derive(Clone, Copy, Debug, PartialEq, Eq, Structural)]
pub enum WriteStep {
    /// The page in memory is full and has to be written to disk as block `blknum`.
    FlushTail { blknum: u32 },
    /// The blob is complete; it starts at `pos`.
    Done { pos: u64 },
}

/// A blob that is being written.
pub struct BlobWriter {
    /// The block in memory.
    pub blknum: u32,
    /// Where in that block the next byte goes.
    pub off: usize,
    /// The length field.
    pub header: Vec<u8>,
    /// How many bytes of the length field and the blob have been taken over.
    pub done: u64,
    /// The bytes of the file before the blob.
    pub before: Ghost<Seq<u8>>,
}

impl EphemeralFile {
    /// The bytes of the complete blobs.
    pub open spec fn log(self) -> Seq<u8> {
        let off = self.len % PAGE_SZ as u64;
        self.disk@.take(self.len - off) + buffers::buffer_bytes(self.mutable_tail).take(off as int)
    }

    /// All pages but the last are on disk; the last is in memory.
    pub open spec fn wf(self) -> bool {
        &&& buffers::buffer_bytes(self.mutable_tail).len() == PAGE_SZ
        &&& self.len - self.len % PAGE_SZ as u64 <= self.disk@.len()
        &&& self.len <= MAX_FILE_LEN
    }

    /// What stands in the file when the bytes taken over so far are counted.
    pub open spec fn written(self, w: BlobWriter) -> Seq<u8> {
        self.disk@.take(w.blknum * PAGE_SZ) + buffers::buffer_bytes(self.mutable_tail).take(
            w.off as int,
        )
    }

    /// The writer has taken over the first bytes of the blob `src`.
    pub open spec fn writing(self, w: BlobWriter, src: Seq<u8>) -> bool {
        &&& buffers::buffer_bytes(self.mutable_tail).len() == PAGE_SZ
        &&& self.len == w.before@.len()
        &&& w.off <= PAGE_SZ
        &&& w.blknum * PAGE_SZ <= self.disk@.len()
        &&& w.header@ == blob_header(src.len())
        &&& w.done <= encode_blob(src).len()
        &&& self.written(w) == w.before@ + encode_blob(src).take(w.done as int)
        &&& self.len + encode_blob(src).len() <= MAX_FILE_LEN
    }

    /// An empty file.
    pub fn create() -> (r: EphemeralFile)
        ensures
            r.wf(),
            r.len == 0,
            r.log() == Seq::<u8>::empty(),
    {
        let r = EphemeralFile {
            len: 0,
            mutable_tail: buffers::buffer_zeroed(PAGE_SZ),
            disk: Ghost(Seq::empty()),
        };
        assert(r.log() =~= Seq::<u8>::empty());
        r
    }

    /// The number of bytes of complete blobs.
    pub fn len(&self) -> (r: u64)
        requires
            self.wf(),
        ensures
            r == self.len,
            r == self.log().len(),
    {
        self.len
    }

    /// Where block `blknum` is to be read from.
    pub fn read_blk(&self, blknum: u32) -> (r: BlockSource)
        requires
            self.wf(),
            blknum <= self.len / PAGE_SZ as u64,
        ensures
            match r {
                BlockSource::Flushed { offset } => {
                    &&& offset == blknum * PAGE_SZ
                    &&& offset + PAGE_SZ <= self.len
                    &&& self.disk@.subrange(offset as int, offset + PAGE_SZ)
                        == self.log().subrange(offset as int, offset + PAGE_SZ)
                },
                BlockSource::MutableTail => {
                    &&& blknum == self.len / PAGE_SZ as u64
                    &&& buffers::buffer_bytes(self.mutable_tail).take(self.len - blknum * PAGE_SZ)
                        == self.log().skip(blknum * PAGE_SZ)
                },
            },
    {
        let ghost off = self.len % PAGE_SZ as u64;
        if (blknum as u64) < self.len / PAGE_SZ as u64 {
            let offset = blknum as u64 * PAGE_SZ as u64;
            assert(offset == blknum * 8192);
            assert(offset + 8192 <= self.len - self.len % 8192);
            assert(self.disk@.subrange(offset as int, offset + PAGE_SZ) =~= self.log().subrange(
                offset as int,
                offset + PAGE_SZ,
            ));
            BlockSource::Flushed { offset }
        } else {
            assert(self.len - blknum * 8192 == self.len % 8192);
            assert(buffers::buffer_bytes(self.mutable_tail).take(self.len - blknum * PAGE_SZ)
                =~= self.log().skip(blknum * PAGE_SZ));
            BlockSource::MutableTail
        }
    }

    /// The bytes of the page in memory.
    pub fn tail(&self) -> (r: &[u8])
        ensures
            r@ == buffers::buffer_bytes(self.mutable_tail),
    {
        buffers::buffer_as_slice(&self.mutable_tail)
    }

    /// Starts to write a blob.
    pub fn start_blob(&self, src: &[u8]) -> (w: BlobWriter)
        requires
            self.wf(),
            self.len + encode_blob(src@).len() <= MAX_FILE_LEN,
        ensures
            self.writing(w, src@),
            w.before@ == self.log(),
            w.done == 0,
            w.off < PAGE_SZ,
    {
        let blknum = (self.len / PAGE_SZ as u64) as u32;
        let off = (self.len % PAGE_SZ as u64) as usize;
        let header = if src.len() < 0x80 {
            let mut header: Vec<u8> = Vec::new();
            header.push(src.len() as u8);
            assert(header@ =~= blob_header(src@.len()));
            header
        } else {
            let mut header = codec::u32_to_be_bytes(src.len() as u32);
            let first = header[0];
            header.set(0, first | 0x80);
            assert(header@ =~= blob_header(src@.len()));
            header
        };
        let w = BlobWriter { blknum, off, header, done: 0, before: Ghost(self.log()) };
        assert(self.written(w) =~= self.log() + encode_blob(src@).take(0));
        w
    }

    /// Takes bytes of the blob over until the page in memory is full or the blob is
    /// complete.  With the last byte the file grows by the blob.
    pub fn push(&mut self, w: &mut BlobWriter, src: &[u8]) -> (r: WriteStep)
        requires
            old(self).writing(*old(w), src@),
            old(w).off < PAGE_SZ,
        ensures
            final(self).disk@ == old(self).disk@,
            final(w).before@ == old(w).before@,
            match r {
                WriteStep::FlushTail { blknum } => {
                    &&& final(self).writing(*final(w), src@)
                    &&& final(w).off == PAGE_SZ
                    &&& final(w).done > old(w).done
                    &&& blknum == final(w).blknum
                    &&& final(self).len == old(self).len
                },
                WriteStep::Done { pos } => {
                    &&& pos == old(self).len
                    &&& final(self).wf()
                    &&& final(self).log() == old(w).before@ + encode_blob(src@)
                    &&& final(self).len == old(self).len + encode_blob(src@).len()
                },
            },
    {
        let ghost data = encode_blob(src@);
        let hdr = w.header.len() as u64;
        let total = hdr + src.len() as u64;
        let start_done = w.done;
        while w.done < total
            invariant
                self.writing(*w, src@),
                w.off < PAGE_SZ,
                data == encode_blob(src@),
                hdr == w.header@.len(),
                total == data.len(),
                self.disk@ == old(self).disk@,
                self.len == old(self).len,
                w.before@ == old(w).before@,
                start_done == old(w).done,
                w.done >= start_done,
            decreases total - w.done,
        {
            let byte = if w.done < hdr {
                w.header[w.done as usize]
            } else {
                src[(w.done - hdr) as usize]
            };
            assert(byte == data[w.done as int]);
            let ghost before_self = *self;
            let ghost before_w = *w;
            buffers::buffer_set(&mut self.mutable_tail, w.off, byte);
            w.off = w.off + 1;
            w.done = w.done + 1;
            proof {
                assert(self.written(*w) =~= before_self.written(before_w).push(byte));
                assert(data.take(w.done as int) =~= data.take(before_w.done as int).push(byte));
                assert(self.written(*w) =~= w.before@ + data.take(w.done as int));
            }
            if w.off == PAGE_SZ {
                return WriteStep::FlushTail { blknum: w.blknum };
            }
        }
        let pos = self.len;
        assert(data.take(w.done as int) =~= data);
        assert(self.written(*w).len() == pos + data.len());
        self.len = self.len + total;
        proof {
            assert(self.len == w.blknum * 8192 + w.off);
            assert(self.len % 8192 == w.off);
            assert(self.log() =~= self.written(*w));
        }
        WriteStep::Done { pos }
    }

    /// The full page has been written to disk; a fresh one takes its place.
    pub fn tail_flushed(&mut self, w: &mut BlobWriter, src: &[u8])
        requires
            old(self).writing(*old(w), src@),
            old(w).off == PAGE_SZ,
        ensures
            final(self).writing(*final(w), src@),
            final(self).disk@ == write_at(
                old(self).disk@,
                old(w).blknum * PAGE_SZ,
                buffers::buffer_bytes(old(self).mutable_tail),
            ),
            final(self).len == old(self).len,
            final(w).off == 0,
            final(w).done == old(w).done,
            final(w).before@ == old(w).before@,
            buffers::buffer_bytes(final(self).mutable_tail) == Seq::new(
                PAGE_SZ as nat,
                |i: int| 0u8,
            ),
    {
        let ghost page = buffers::buffer_bytes(self.mutable_tail);
        let ghost at = w.blknum * PAGE_SZ;
        proof {
            assert(self.written(*w).len() == at + PAGE_SZ);
            assert(at + PAGE_SZ <= MAX_FILE_LEN);
        }
        let ghost old_written = self.written(*w);
        self.disk = Ghost(write_at(self.disk@, at, page));
        self.mutable_tail = buffers::buffer_zeroed(PAGE_SZ);
        w.blknum = w.blknum + 1;
        w.off = 0;
        proof {
            assert(w.blknum * PAGE_SZ == at + PAGE_SZ);
            assert(self.written(*w) =~= old_written);
        }
    }
}

/// Reads the blob that starts at `pos` in the bytes of a file.
pub fn read_blob(log: &[u8], pos: usize) -> (r: Option<Vec<u8>>)
    ensures
        match r {
            Some(blob) => blob_at(log@, pos as int) == Some(blob@),
            None => blob_at(log@, pos as int) is None,
        },
{
    if pos >= log.len() {
        return None;
    }
    let (start, len) = if log[pos] < 0x80 {
        (pos + 1, log[pos] as usize)
    } else {
        if log.len() - pos < 4 {
            return None;
        }
        let mut field: Vec<u8> = Vec::new();
        field.push(log[pos] & 0x7f);
        field.push(log[pos + 1]);
        field.push(log[pos + 2]);
        field.push(log[pos + 3]);
        assert(field@.subrange(0, 4) =~= seq![
            log@[pos as int] & 0x7f,
            log@[pos + 1],
            log@[pos + 2],
            log@[pos + 3],
        ]);
        (pos + 4, codec::u32_from_be_bytes(field.as_slice(), 0) as usize)
    };
    if log.len() - start < len {
        return None;
    }
    Some(vstd::slice::slice_to_vec(vstd::slice::slice_subrange(log, start, start + len)))
}

/// The name of the `n`th ephemeral file.
pub open spec fn ephemeral_name(n: nat) -> Seq<char> {
    "ephemeral-"@ + text::decimal(n)
}

/// The name of the `n`th ephemeral file.
pub fn ephemeral_file_name(n: u64) -> (r: String)
    ensures
        r@ == ephemeral_name(n as nat),
{
    let mut r = String::from_str("ephemeral-");
    r.append(text::decimal_text(n).as_str());
    r
}

/// Whether a file name is that of an ephemeral file: the prefix and a 32-bit number.
pub open spec fn is_ephemeral_name(name: Seq<char>) -> bool {
    &&& name.len() >= "ephemeral-"@.len()
    &&& name.take("ephemeral-"@.len() as int) == "ephemeral-"@
    &&& text::unsigned_value(name.skip("ephemeral-"@.len() as int), u32::MAX as nat) is Some
}

/// Does the given filename look like an ephemeral file?
pub fn is_ephemeral_file(filename: &str) -> (r: bool)
    ensures
        r == is_ephemeral_name(filename@),
{
    let prefix = "ephemeral-";
    let n = prefix.unicode_len();
    if filename.unicode_len() < n {
        return false;
    }
    let head = filename.substring_char(0, n);
    if !text::same_text(head, prefix) {
        return false;
    }
    let rest = filename.substring_char(n, filename.unicode_len());
    assert(rest@ =~= filename@.skip(n as int));
    assert(head@ =~= filename@.take(n as int));
    text::parse_unsigned(rest, u32::MAX as u64).is_some()
}

/// The length field of a short enough blob gives its length back.
proof fn lemma_header(log: Seq<u8>, pos: int, n: nat)
    requires
        n < 0x8000_0000,
        0 <= pos,
        pos + blob_header(n).len() <= log.len(),
        forall|i: int| 0 <= i < blob_header(n).len() ==> log[pos + i] == blob_header(n)[i],
    ensures
        header_size(log[pos]) == blob_header(n).len(),
        stored_len(log, pos) == n,
{
    let h = blob_header(n);
    assert(log[pos + 0] == h[0]);
    if n >= 0x80 {
        let x = n as u32;
        let b = codec::be_u32(x);
        let first = b[0];
        assert(log[pos + 1] == h[1] && log[pos + 2] == h[2] && log[pos + 3] == h[3]);
        assert(first == (x >> 24) as u8);
        assert((x >> 24) as u8 & 0x80 == 0) by (bit_vector)
            requires
                x < 0x8000_0000,
        ;
        assert(first | 0x80 >= 0x80) by (bit_vector);
        assert(((first | 0x80) & 0x7f) == first) by (bit_vector)
            requires
                first & 0x80 == 0,
        ;
        codec::be_u32_round_trip(x);
        assert(seq![log[pos] & 0x7f, log[pos + 1], log[pos + 2], log[pos + 3]] =~= b);
    }
}

/// A blob is read back at the position where it was written, whatever has been written
/// before and after it.  Its length must fit the 31 bits of the length field.
pub proof fn blob_round_trip(before: Seq<u8>, blob: Seq<u8>, after: Seq<u8>)
    requires
        blob.len() < 0x8000_0000,
    ensures
        blob_at(before + encode_blob(blob) + after, before.len() as int) == Some(blob),
{
    let log = before + encode_blob(blob) + after;
    let pos = before.len() as int;
    let h = blob_header(blob.len());
    assert forall|i: int| 0 <= i < h.len() implies log[pos + i] == h[i] by {}
    lemma_header(log, pos, blob.len());
    assert(log.subrange(pos + h.len(), pos + h.len() + blob.len()) =~= blob);
}

/// Appending to a file changes no blob that is there.
pub proof fn append_keeps_blobs(log: Seq<u8>, more: Seq<u8>, pos: int)
    requires
        blob_at(log, pos) is Some,
    ensures
        blob_at(log + more, pos) == blob_at(log, pos),
{
    let whole = log + more;
    assert(whole[pos] == log[pos]);
    let start = pos + header_size(log[pos]);
    let end = start + stored_len(log, pos);
    assert(whole.subrange(start, end) =~= log.subrange(start, end));
}

/// Blobs as they are stored one behind the other.
pub open spec fn encode_blobs(blobs: Seq<Seq<u8>>) -> Seq<u8>
    decreases blobs.len(),
{
    if blobs.len() == 0 {
        Seq::empty()
    } else {
        encode_blobs(blobs.drop_last()) + encode_blob(blobs.last())
    }
}

/// Where the `j`th of some blobs begins that are written behind `before`.
pub open spec fn blob_position(before: Seq<u8>, blobs: Seq<Seq<u8>>, j: int) -> int {
    (before.len() + encode_blobs(blobs.take(j)).len()) as int
}

/// However many blobs are written one after the other, each is read back from where it begins.
pub proof fn written_blobs_are_read_back(before: Seq<u8>, blobs: Seq<Seq<u8>>, j: int)
    requires
        0 <= j < blobs.len(),
        blobs[j].len() < 0x8000_0000,
    ensures
        blob_at(before + encode_blobs(blobs), blob_position(before, blobs, j)) == Some(blobs[j]),
    decreases blobs.len(),
{
    let front = blobs.drop_last();
    let last = encode_blob(blobs.last());
    assert(before + encode_blobs(blobs) =~= before + encode_blobs(front) + last);
    if j == blobs.len() - 1 {
        assert(blobs.take(j) =~= front);
        blob_round_trip(before + encode_blobs(front), blobs.last(), Seq::empty());
        assert(before + encode_blobs(front) + last + Seq::<u8>::empty() =~= before + encode_blobs(
            blobs,
        ));
    } else {
        assert(front.take(j) =~= blobs.take(j));
        written_blobs_are_read_back(before, front, j);
        append_keeps_blobs(
            before + encode_blobs(front),
            last,
            blob_position(before, blobs, j),
        );
    }
}

/// The names that files are given are recognised as long as their number has 32 bits.
pub proof fn created_names_are_recognised(n: nat)
    ensures
        is_ephemeral_name(ephemeral_name(n)) == (n <= u32::MAX),
{
    let prefix = "ephemeral-"@;
    let name = ephemeral_name(n);
    text::decimal_round_trip(n);
    assert(name.take(prefix.len() as int) =~= prefix);
    assert(name.skip(prefix.len() as int) =~= text::decimal(n));
    assert(text::unsigned_value(text::decimal(n), u32::MAX as nat) is Some == (n <= u32::MAX));
}

/// As long as no page has been written for it, a blob that is given up leaves the complete
/// blobs of the file as they were.
pub proof fn given_up_blob_leaves_no_trace(file: EphemeralFile, w: BlobWriter, src: Seq<u8>)
    requires
        file.wf(),
        file.writing(w, src),
        w.blknum == file.len / PAGE_SZ as u64,
    ensures
        file.log() == w.before@,
{
    let off = file.len % 8192;
    let all = file.written(w);
    assert(w.blknum * 8192 == file.len - off);
    assert(all.len() == w.before@.len() + w.done);
    assert(file.log() =~= all.take(file.len as int));
    assert(all.take(file.len as int) =~= w.before@);
}

/// A blob of fewer than 128 bytes has one byte in front of it, its length; a longer one has
/// four, the length with the most significant byte first and the top bit set.
pub proof fn lengths_take_one_or_four_bytes(blob: Seq<u8>)
    requires
        blob.len() < 0x8000_0000,
    ensures
        ({
            let stored = encode_blob(blob);
            if blob.len() < 128 {
                stored.len() == blob.len() + 1 && stored[0] == blob.len() && stored.skip(1) == blob
            } else {
                &&& stored.len() == blob.len() + 4
                &&& (stored[0] - 128) * 0x100_0000 + stored[1] * 0x1_0000 + stored[2] * 0x100
                    + stored[3] == blob.len()
                &&& stored.skip(4) == blob
            }
        }),
{
    let x = blob.len() as u32;
    if blob.len() >= 128 {
        let first = (x >> 24) as u8;
        codec::be_u32_is_positional(x);
        assert((x >> 24) as u8 | 0x80 == (x >> 24) as u8 + 128) by (bit_vector)
            requires
                x < 0x8000_0000,
        ;
        assert(encode_blob(blob).skip(4) =~= blob);
    } else {
        assert(encode_blob(blob).skip(1) =~= blob);
    }
}

/// A blob is read where its length field and as many bytes as it says are there, and is those
/// bytes.
pub proof fn blobs_are_read_by_their_length(log: Seq<u8>, pos: int)
    requires
        0 <= pos,
    ensures
        pos >= log.len() ==> blob_at(log, pos) is None,
        pos < log.len() && log[pos] < 128 ==> blob_at(log, pos) == if pos + 1 + log[pos]
            <= log.len() {
            Some(log.subrange(pos + 1, pos + 1 + log[pos]))
        } else {
            None
        },
        pos < log.len() && log[pos] >= 128 && log.len() < pos + 4 ==> blob_at(log, pos) is None,
        pos + 4 <= log.len() && log[pos] >= 128 ==> {
            let n = (log[pos] - 128) * 0x100_0000 + log[pos + 1] * 0x1_0000 + log[pos + 2] * 0x100
                + log[pos + 3];
            blob_at(log, pos) == if pos + 4 + n <= log.len() {
                Some(log.subrange(pos + 4, pos + 4 + n))
            } else {
                None
            }
        },
{
    if pos + 4 <= log.len() && log[pos] >= 128 {
        let a = log[pos];
        let b = log[pos + 1];
        let c = log[pos + 2];
        let d = log[pos + 3];
        assert(((a & 0x7f) as u32) << 24 | (b as u32) << 16 | (c as u32) << 8 | (d as u32) == (a
            - 128) * 0x100_0000 + b * 0x1_0000 + c * 0x100 + d) by (bit_vector)
            requires
                a >= 128,
        ;
    }
}

/// Writing a page puts its bytes where it is written and leaves every other byte.
pub proof fn pages_are_written_in_place(disk: Seq<u8>, at: int, page: Seq<u8>, i: int)
    requires
        0 <= at <= disk.len(),
        0 <= i,
    ensures
        at <= i < at + page.len() ==> write_at(disk, at, page)[i] == page[i - at],
        i < at || at + page.len() <= i < disk.len() ==> write_at(disk, at, page)[i] == disk[i],
        write_at(disk, at, page).len() == if disk.len() > at + page.len() {
            disk.len() as int
        } else {
            at + page.len()
        },
{
}

/// The file ends where a 32-bit page number ends, and its length is the number of bytes of the
/// complete blobs: the full pages are those on disk, the rest is the page in memory.
pub proof fn the_log_is_disk_and_tail(file: EphemeralFile, i: int)
    requires
        file.wf(),
        0 <= i < file.len,
    ensures
        file.len < 0x1_0000_0000 * 8192,
        file.log().len() == file.len,
        file.log()[i] == if i / 8192 < file.len / 8192 {
            file.disk@[i]
        } else {
            buffers::buffer_bytes(file.mutable_tail)[i % 8192]
        },
{
}

/// A name is that of an ephemeral file exactly if it is the prefix and a number of 32 bits.
pub proof fn ephemeral_names_end_in_a_number(name: Seq<char>, rest: Seq<char>, n: nat)
    ensures
        ephemeral_name(n) == "ephemeral-"@ + text::decimal(n),
        is_ephemeral_name("ephemeral-"@ + rest) <==> text::unsigned_value(rest, 0xffff_ffff)
            is Some,
        is_ephemeral_name(name) ==> exists|tail: Seq<char>|
            name == #[trigger] ("ephemeral-"@ + tail),
{
    let prefix = "ephemeral-"@;
    assert((prefix + rest).take(prefix.len() as int) =~= prefix);
    assert((prefix + rest).skip(prefix.len() as int) =~= rest);
    if is_ephemeral_name(name) {
        let tail = name.skip(prefix.len() as int);
        assert(name =~= prefix + tail);
    }
}

} // verus!
