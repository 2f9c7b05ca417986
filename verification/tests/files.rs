use neon_core::base::codec::{u32_from_be_bytes, u32_to_be_bytes, u64_from_be_bytes, u64_to_be_bytes};
use neon_core::base::lsn::Lsn;
use neon_core::base::text::{decimal_text, hex_text, parse_signed, parse_unsigned};
use neon_core::pageserver::ephemeral_file::{
    ephemeral_file_name, is_ephemeral_file, read_blob, BlockSource, EphemeralFile, WriteStep,
};
use neon_core::base::ordered_map::OrderedMap;
use neon_core::pageserver::inmemory_layer::{
    InMemoryLayer, InMemoryLayerInfo, Value, ValueReconstructResult, ValueReconstructState,
    ValueScan, VectoredScan, VersionMap,
};
use neon_core::pageserver::apply_neon::NeonWalRecord;
use neon_core::pageserver::key::Key;

/// A file with its pages on disk.
struct Stored {
    file: EphemeralFile,
    disk: Vec<u8>,
}

impl Stored {
    fn new() -> Stored {
        Stored {
            file: EphemeralFile::create(),
            disk: Vec::new(),
        }
    }

    fn write_blob(&mut self, blob: &[u8]) -> u64 {
        let mut w = self.file.start_blob(blob);
        loop {
            match self.file.push(&mut w, blob) {
                WriteStep::FlushTail { blknum } => {
                    let at = blknum as usize * 8192;
                    self.disk.truncate(at);
                    self.disk.extend_from_slice(self.file.tail());
                    self.file.tail_flushed(&mut w, blob);
                }
                WriteStep::Done { pos } => return pos,
            }
        }
    }

    fn log(&self) -> Vec<u8> {
        let mut log = Vec::new();
        let last = (self.file.len() / 8192) as u32;
        for blknum in 0..=last {
            match self.file.read_blk(blknum) {
                BlockSource::Flushed { offset } => {
                    log.extend_from_slice(&self.disk[offset as usize..offset as usize + 8192])
                }
                BlockSource::MutableTail => log.extend_from_slice(self.file.tail()),
            }
        }
        log.truncate(self.file.len() as usize);
        log
    }

    fn read(&self, pos: u64) -> Vec<u8> {
        read_blob(&self.log(), pos as usize).unwrap()
    }
}

fn random_buf(len: usize, seed: u64) -> Vec<u8> {
    let mut x = seed;
    (0..len)
        .map(|_| {
            x = x.wrapping_mul(6364136223846793005).wrapping_add(1442695040888963407);
            (x >> 33) as u8
        })
        .collect()
}

#[test]
fn test_ephemeral_blobs() {
    let mut file = Stored::new();

    let pos_foo = file.write_blob(b"foo");
    assert_eq!(b"foo".to_vec(), file.read(pos_foo));
    let pos_bar = file.write_blob(b"bar");
    assert_eq!(b"foo".to_vec(), file.read(pos_foo));
    assert_eq!(b"bar".to_vec(), file.read(pos_bar));

    let mut blobs = Vec::new();
    for i in 0..10000 {
        let data = Vec::from(format!("blob{}", i).as_bytes());
        let pos = file.write_blob(&data);
        blobs.push((pos, data));
    }
    // also test with a large blobs
    for i in 0..100 {
        let data = format!("blob{}", i).as_bytes().repeat(100);
        let pos = file.write_blob(&data);
        blobs.push((pos, data));
    }

    let log = file.log();
    for (pos, expected) in blobs {
        assert_eq!(read_blob(&log, pos as usize).unwrap(), expected);
    }

    // Test a large blob that spans multiple pages
    let large_data = random_buf(20000, 7);
    let pos_large = file.write_blob(&large_data);
    assert_eq!(file.read(pos_large), large_data);
}

#[test]
fn blob_lengths_are_stored() {
    let mut f = Stored::new();
    f.write_blob(&[9; 127]);
    f.write_blob(&[9; 128]);
    let log = f.log();
    assert_eq!(log[0], 127);
    assert_eq!(&log[128..132], &[0x80, 0, 0, 128]);
    assert_eq!(f.file.len(), 128 + 4 + 128);
    assert_eq!(read_blob(&log, log.len()), None);
    assert_eq!(read_blob(&log[..200], 128), None);
    assert_eq!(read_blob(&[0x80, 0], 0), None);
}

#[test]
fn a_blob_that_is_given_up_is_not_seen() {
    let mut f = Stored::new();
    f.write_blob(b"kept");
    let before = f.log();
    let big = vec![1u8; 9000];
    let mut w = f.file.start_blob(&big);
    assert_eq!(f.file.push(&mut w, &big), WriteStep::FlushTail { blknum: 0 });
    // The page could not be written: the file keeps its length and its blobs.
    assert_eq!(f.file.len(), before.len() as u64);
    assert_eq!(f.log(), before);
    f.write_blob(b"next");
    assert_eq!(f.read(5), b"next".to_vec());
}

#[test]
fn file_names() {
    assert_eq!(ephemeral_file_name(17), "ephemeral-17");
    assert!(is_ephemeral_file("ephemeral-17"));
    assert!(is_ephemeral_file("ephemeral-4294967295"));
    assert!(!is_ephemeral_file("ephemeral-4294967296"));
    assert!(!is_ephemeral_file("ephemeral-"));
    assert!(!is_ephemeral_file("ephemeral-1x"));
    assert!(!is_ephemeral_file("ephemera-1"));
    assert!(!is_ephemeral_file(""));
}

#[test]
fn numbers_in_text_and_bytes() {
    assert_eq!(decimal_text(0), "0");
    assert_eq!(decimal_text(u64::MAX), "18446744073709551615");
    assert_eq!(hex_text(0xabc, 8), "00000ABC");
    assert_eq!(hex_text(0x123456789, 8), "123456789");
    assert_eq!(parse_unsigned("+12", 20), Some(12));
    assert_eq!(parse_unsigned("21", 20), None);
    assert_eq!(parse_signed("-9223372036854775808"), Some(i64::MIN));
    assert_eq!(parse_signed("-"), None);
    assert_eq!(parse_signed("+-1"), None);
    assert_eq!(u64_from_be_bytes(&u64_to_be_bytes(0x0102030405060708), 0), 0x0102030405060708);
    assert_eq!(u32_from_be_bytes(&u32_to_be_bytes(0xfffefdfc), 0), 0xfffefdfc);
}

fn key(n: u32) -> Key {
    Key {
        field1: 0,
        field2: 0,
        field3: 0,
        field4: 0,
        field5: 0,
        field6: n,
    }
}

#[test]
fn versions_are_kept_in_order() {
    let mut v = VersionMap::new();
    assert_eq!(v.append_or_update_last(Lsn(5), 50).ok(), Some(None));
    assert_eq!(v.append_or_update_last(Lsn(5), 51).ok(), Some(Some(50)));
    assert_eq!(v.append_or_update_last(Lsn(7), 70).ok(), Some(None));
    assert!(v.append_or_update_last(Lsn(6), 60).is_err());
    assert_eq!(v.slice_range(Lsn(5), Lsn(7)), vec![(Lsn(5), 51)]);
    assert_eq!(v.slice_range(Lsn(6), Lsn(100)), vec![(Lsn(7), 70)]);
}

#[test]
fn layers_in_memory() {
    let mut l = InMemoryLayer::create(Lsn(0x10));
    assert_eq!(l.info(), InMemoryLayerInfo::Open { lsn_start: Lsn(0x10) });
    assert!(l.is_writable());
    assert_eq!(l.size(), 0);
    assert_eq!(l.end_lsn_or_max(), Lsn(u64::MAX));
    assert!(!l.put_value(key(2), Lsn(0x11), 100));
    l.put_value(key(1), Lsn(0x12), 200);
    l.put_value(key(2), Lsn(0x14), 300);
    assert!(!l.check_all_before(Lsn(0x14)));
    assert!(l.check_all_before(Lsn(0x15)));
    let newest_first = l.versions_to_read(key(2), Lsn(0x10), Lsn(0x20)).ok().unwrap();
    assert_eq!(newest_first, vec![(Lsn(0x14), 300), (Lsn(0x11), 100)]);
    assert!(l.versions_to_read(key(2), Lsn(0xf), Lsn(0x20)).is_err());
    l.freeze(Lsn(0x20));
    assert!(!l.is_writable());
    assert_eq!(l.get_lsn_range(), (Lsn(0x10), Lsn(0x20)));
    assert_eq!(
        l.info(),
        InMemoryLayerInfo::Frozen {
            lsn_start: Lsn(0x10),
            lsn_end: Lsn(0x20)
        }
    );
    assert_eq!(l.name(), "inmem-0000000000000010-0000000000000020");
    let order: Vec<(u32, u64)> = l.write_order().iter().map(|b| (b.key.field6, b.block_offset)).collect();
    assert_eq!(order, vec![(1, 200), (2, 100), (2, 300)]);
    let reads = l.plan_reads(&vec![(key(0), key(10))], Lsn(0x20), &OrderedMap::new());
    let lsns: Vec<u64> = reads.iter().map(|b| b.lsn.0).collect();
    assert_eq!(lsns, vec![0x14, 0x11, 0x12]);
    let mut scan = VectoredScan::new(reads, 2);
    assert_eq!(scan.next_read().unwrap().block_offset, 300);
    scan.key_completed(key(2));
    assert_eq!(scan.next_read().unwrap().block_offset, 200);
    assert!(scan.next_read().is_none());
}

#[test]
fn values_are_reconstructed_from_the_newest() {
    let mut s = ValueReconstructState {
        records: vec![],
        img: None,
    };
    let rec = |will_init| {
        Value::WalRecord(NeonWalRecord::Postgres {
            will_init,
            rec: bytes::Bytes::from_static(b"r"),
        })
    };
    assert_eq!(s.absorb(Lsn(9), rec(false)), ValueReconstructResult::Continue);
    assert_eq!(s.absorb(Lsn(8), rec(true)), ValueReconstructResult::Complete);
    assert_eq!(s.records.len(), 2);
    let img = Value::Image(bytes::Bytes::from_static(b"page"));
    assert_eq!(s.absorb(Lsn(7), img), ValueReconstructResult::Complete);
    assert_eq!(s.img.as_ref().unwrap().0, Lsn(7));
}

#[test]
fn a_look_up_ends_at_the_first_complete_version() {
    let mut l = InMemoryLayer::create(Lsn(1));
    for (lsn, off) in [(2, 20), (3, 30), (4, 40)] {
        l.put_value(key(1), Lsn(lsn), off);
    }
    let reads = l.versions_to_read(key(1), Lsn(1), Lsn(9)).ok().unwrap();
    let mut state = ValueReconstructState { records: vec![], img: None };
    let mut scan = ValueScan::new(reads);
    assert_eq!(scan.next_read(), Some((Lsn(4), 40)));
    let aborted = NeonWalRecord::ClogSetAborted { xids: vec![] };
    scan.value_read(&mut state, Lsn(4), Value::WalRecord(aborted));
    assert_eq!(scan.result, ValueReconstructResult::Continue);
    assert_eq!(scan.next_read(), Some((Lsn(3), 30)));
    let page = bytes::Bytes::from_static(b"page");
    scan.value_read(&mut state, Lsn(3), Value::Image(page));
    assert_eq!(scan.result, ValueReconstructResult::Complete);
    assert_eq!(scan.next_read(), None);
    assert_eq!(state.records.len(), 1);
    assert_eq!(state.img.unwrap().0, Lsn(3));
    let mut empty = ValueScan::new(vec![]);
    assert_eq!(empty.next_read(), None);
    assert_eq!(empty.result, ValueReconstructResult::Continue);
}

#[test]
fn what_was_put_is_read_back() {
    let mut stored = Stored::new();
    let mut l = InMemoryLayer::create(Lsn(1));
    let values: Vec<Vec<u8>> = vec![vec![7; 100], vec![8; 20000], vec![9; 3]];
    for (i, value) in values.iter().enumerate() {
        let off = stored.write_blob(value);
        l.put_value(key(1), Lsn(10 + i as u64), off);
    }
    let log = stored.log();
    for (i, value) in values.iter().enumerate() {
        let upto = Lsn(11 + i as u64);
        let newest = l.versions_to_read(key(1), Lsn(1), upto).ok().unwrap()[0];
        assert_eq!(newest.0, Lsn(10 + i as u64));
        assert_eq!(read_blob(&log, newest.1 as usize).as_ref(), Some(value));
    }
}
