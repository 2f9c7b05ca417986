use bytes::{Bytes, BytesMut};
use neon_core::base::lsn::Lsn;
use neon_core::pageserver::apply_neon::{
    apply_in_neon, can_apply_in_neon, check_record, transaction_id_set_status, ApplyError,
    MultiXactMember, NeonWalRecord,
};
use neon_core::pageserver::aux_files::{AuxFile, AuxFilesDirectory};
use neon_core::pageserver::key::{key_to_rel_block, key_to_slru_block, Key, SlruKind};
use neon_core::pageserver::postgres_redo::{
    apply_batch_postgres, postgres_step, PostgresAction, PostgresError, PostgresEvent,
    PostgresState,
};
use neon_core::pageserver::walredo::{
    apply_batch_neon, batch_nbytes, check_batch, postgres_target,
    PostgresRedoManager, RedoBatch, RedoError,
};

fn key(field1: u8, field2: u32, field4: u32, field5: u8, field6: u32) -> Key {
    Key {
        field1,
        field2,
        field3: 0,
        field4,
        field5,
        field6,
    }
}

fn aux_files_key() -> Key {
    Key {
        field1: 3,
        field2: 0,
        field3: 0,
        field4: 0,
        field5: 0,
        field6: 2,
    }
}

fn aux(path: &str, content: Option<&'static [u8]>) -> NeonWalRecord {
    NeonWalRecord::AuxFile {
        file_path: path.to_string(),
        content: content.map(Bytes::from_static),
    }
}

fn page() -> BytesMut {
    BytesMut::zeroed(8192)
}

#[test]
fn apply_aux_file_deltas() {
    let base_dir = AuxFilesDirectory {
        files: vec![
            AuxFile {
                path: "two".to_string(),
                content: Bytes::from_static(b"content0"),
            },
            AuxFile {
                path: "three".to_string(),
                content: Bytes::from_static(b"contentX"),
            },
        ],
    };
    let base_image = base_dir.ser();

    let deltas = vec![
        // Insert
        aux("one", Some(b"content1")),
        // Update
        aux("two", Some(b"content99")),
        // Delete
        aux("three", None),
    ];

    let mut page = BytesMut::from_iter(base_image);
    for record in deltas {
        assert!(check_record(&record, aux_files_key(), &page));
        apply_in_neon(&record, aux_files_key(), &mut page).unwrap();
    }

    let reconstructed = AuxFilesDirectory::des(&page).unwrap();
    let mut files: Vec<(String, Bytes)> = reconstructed
        .files
        .iter()
        .map(|f| (f.path.clone(), f.content.clone()))
        .collect();
    files.sort();
    assert_eq!(
        files,
        vec![
            ("one".to_string(), Bytes::from_static(b"content1")),
            ("two".to_string(), Bytes::from_static(b"content99")),
        ]
    );
    assert_eq!(
        reconstructed.get(&"one".to_string()),
        Some(Bytes::from_static(b"content1"))
    );
    assert_eq!(reconstructed.get(&"three".to_string()), None);
}

#[test]
fn directories_are_stored_big_endian() {
    let mut dir = AuxFilesDirectory::new();
    assert_eq!(dir.ser(), vec![0; 8]);
    dir.upsert("ab".to_string(), Some(Bytes::from_static(b"xyz")));
    let stored = dir.ser();
    assert_eq!(
        stored,
        [
            &[0, 0, 0, 0, 0, 0, 0, 1][..],
            &[0, 0, 0, 0, 0, 0, 0, 2],
            b"ab",
            &[0, 0, 0, 0, 0, 0, 0, 3],
            b"xyz"
        ]
        .concat()
    );
    let again = AuxFilesDirectory::des(&stored).unwrap();
    assert_eq!(again.ser(), stored);
    dir.upsert("ab".to_string(), None);
    assert!(dir.files.is_empty());
}

#[test]
fn broken_directories_are_refused() {
    for bad in [
        &[0, 0, 0][..],
        &[0, 0, 0, 0, 0, 0, 0, 1],
        &[0, 0, 0, 0, 0, 0, 0, 0, 9],
        &[0, 0, 0, 0, 0, 0, 0, 1, 0, 0, 0, 0, 0, 0, 0, 1, 0xff, 0, 0, 0, 0, 0, 0, 0, 0],
    ] {
        assert!(AuxFilesDirectory::des(bad).is_err());
    }
    let mut page = BytesMut::from(&[1u8][..]);
    assert_eq!(
        apply_in_neon(&aux("a", None), aux_files_key(), &mut page),
        Err(ApplyError::InvalidDirectory)
    );
}

#[test]
fn records_of_postgres_are_left_to_postgres() {
    let rec = NeonWalRecord::Postgres {
        will_init: false,
        rec: Bytes::from_static(b"x"),
    };
    assert!(!can_apply_in_neon(&rec));
    assert!(can_apply_in_neon(&aux("a", None)));
    let mut p = page();
    let e = apply_in_neon(&rec, aux_files_key(), &mut p).unwrap_err();
    assert_eq!(e.message(), "tried to pass postgres wal record to neon WAL redo");
}

#[test]
fn visibility_bits_are_cleared() {
    let vm = key(0, 1663, 1259, 2, 0);
    let mut p = page();
    for b in p.iter_mut() {
        *b = 0xff;
    }
    let rec = NeonWalRecord::ClearVisibilityMapFlags {
        new_heap_blkno: Some(5),
        old_heap_blkno: Some(0),
        flags: 3,
    };
    assert!(check_record(&rec, vm, &p));
    apply_in_neon(&rec, vm, &mut p).unwrap();
    // Heap block 5 is the second of byte 1, heap block 0 the first of byte 0.
    assert_eq!(p[24], 0b1111_1100);
    assert_eq!(p[25], 0b1111_0011);
    assert_eq!(p[26], 0xff);
    assert_eq!(p[23], 0xff);
    // On another page of the map the record does not fit.
    assert!(!check_record(&rec, key(0, 1663, 1259, 2, 1), &p));
    assert!(!check_record(&rec, key(0, 1663, 1259, 0, 0), &p));
    assert_eq!(
        apply_in_neon(&rec, key(1, 0, 0, 0, 0), &mut p),
        Err(ApplyError::InvalidRecord)
    );
}

#[test]
fn statuses_are_set_and_stamped() {
    let clog = key(1, 0, 0, 0, 0);
    let mut p = page();
    let rec = NeonWalRecord::ClogSetCommitted {
        xids: vec![4, 6],
        timestamp: 0x0102030405060708,
    };
    assert!(check_record(&rec, clog, &p));
    apply_in_neon(&rec, clog, &mut p).unwrap();
    assert_eq!(p[1], 0b0001_0001);
    assert_eq!(p.len(), 8200);
    assert_eq!(&p[8192..], &[1, 2, 3, 4, 5, 6, 7, 8]);
    let rec = NeonWalRecord::ClogSetAborted { xids: vec![4, 5] };
    apply_in_neon(&rec, clog, &mut p).unwrap();
    assert_eq!(p[1], 0b0001_1010);
    assert_eq!(p.len(), 8200);
    let rec = NeonWalRecord::ClogSetCommitted {
        xids: vec![],
        timestamp: -1,
    };
    apply_in_neon(&rec, clog, &mut p).unwrap();
    assert_eq!(p.len(), 8200);
    assert_eq!(&p[8192..], &[0xff; 8]);
    // A page of another size gets no stamp.
    let mut short = BytesMut::zeroed(100);
    apply_in_neon(&rec, clog, &mut short).unwrap();
    assert_eq!(short.len(), 100);
    // The second page of the area is for other transactions.
    let rec = NeonWalRecord::ClogSetAborted { xids: vec![32768] };
    assert!(!check_record(&rec, clog, &p));
    assert!(check_record(&rec, key(1, 0, 0, 0, 1), &p));
    let mut p = page();
    transaction_id_set_status(7, 2, &mut p);
    assert_eq!(p[1], 0b1000_0000);
}

#[test]
fn multixacts_are_stored() {
    let mut p = page();
    let rec = NeonWalRecord::MultixactOffsetCreate { mid: 3, moff: 0x01020304 };
    let offsets = key(1, 2, 0, 0, 0);
    assert!(check_record(&rec, offsets, &p));
    apply_in_neon(&rec, offsets, &mut p).unwrap();
    assert_eq!(&p[12..16], &[4, 3, 2, 1]);

    let mut p = page();
    let members = key(1, 1, 0, 0, 0);
    let rec = NeonWalRecord::MultixactMembersCreate {
        moff: 3,
        members: vec![
            MultiXactMember { xid: 100, status: 5 },
            MultiXactMember { xid: 200, status: 1 },
        ],
    };
    assert!(check_record(&rec, members, &p));
    apply_in_neon(&rec, members, &mut p).unwrap();
    // Member 3 is the last of the first group, member 4 the first of the second.
    assert_eq!(&p[0..4], &[0, 0, 0, 5]);
    assert_eq!(&p[16..20], &[100, 0, 0, 0]);
    assert_eq!(&p[20..24], &[1, 0, 0, 0]);
    assert_eq!(&p[24..28], &[200, 0, 0, 0]);
    assert!(!check_record(&rec, offsets, &p));
}

#[test]
fn keys_stand_for_pages() {
    let (rel, blk) = key_to_rel_block(key(0, 1663, 1259, 2, 7)).unwrap();
    assert_eq!((rel.spcnode, rel.relnode, rel.forknum, blk), (1663, 1259, 2, 7));
    assert!(key_to_rel_block(key(1, 0, 0, 0, 0)).is_none());
    assert_eq!(key_to_slru_block(key(1, 2, 4, 0, 9)), Some((SlruKind::MultiXactOffsets, 4, 9)));
    assert_eq!(key_to_slru_block(key(1, 3, 4, 0, 9)), None);
    assert_eq!(key_to_slru_block(key(0, 0, 4, 0, 9)), None);
}

fn pg(bytes: &'static [u8]) -> NeonWalRecord {
    NeonWalRecord::Postgres {
        will_init: false,
        rec: Bytes::from_static(bytes),
    }
}

#[test]
fn requests_go_by_runs() {
    let m = PostgresRedoManager::new();
    let k = aux_files_key();
    assert_eq!(
        m.request_redo(k, Lsn(9), None, vec![]).err(),
        Some(RedoError::NoRecords)
    );
    let records = vec![
        (Lsn(1), aux("a", Some(b"1"))),
        (Lsn(2), aux("b", Some(b"2"))),
        (Lsn(3), pg(b"abc")),
        (Lsn(4), aux("a", None)),
    ];
    let img = Bytes::from(AuxFilesDirectory::new().ser());
    let mut r = m.request_redo(k, Lsn(9), Some((Lsn(0), img)), records).ok().unwrap();
    let b = r.next_batch().unwrap();
    assert_eq!(b, RedoBatch { neon: true, start: 0, end: 2 });
    assert!(check_batch(k, r.img.as_ref().unwrap(), &r.records, b.start, b.end));
    let img = apply_batch_neon(k, r.img.as_ref(), &r.records, b.start, b.end).ok().unwrap();
    assert_eq!(AuxFilesDirectory::des(&img).ok().unwrap().files.len(), 2);
    r.batch_done(img.clone());
    let b = r.next_batch().unwrap();
    assert_eq!(b, RedoBatch { neon: false, start: 2, end: 3 });
    assert_eq!(batch_nbytes(&r.records, b.start, b.end), 3);
    r.batch_done(img);
    assert_eq!(r.next_batch(), Some(RedoBatch { neon: true, start: 3, end: 4 }));
    let img = apply_batch_neon(k, r.img.as_ref(), &r.records, 3, 4).ok().unwrap();
    r.batch_done(img);
    assert_eq!(r.next_batch(), None);
    let last = r.finish().unwrap();
    assert_eq!(AuxFilesDirectory::des(&last).ok().unwrap().files.len(), 1);
}

#[test]
fn own_records_need_an_image() {
    let records = vec![(Lsn(1), aux("a", None))];
    let e = apply_batch_neon(aux_files_key(), None, &records, 0, 1).err().unwrap();
    assert_eq!(e, RedoError::NoBaseImage);
    assert_eq!(e.message(), "invalid neon WAL redo request with no base image");
    let m = PostgresRedoManager::new();
    let r = m.request_redo(aux_files_key(), Lsn(2), None, records).ok().unwrap();
    assert_eq!(r.base_img_lsn, Lsn(0));
    assert!(r.finish().is_none());
}

#[test]
fn failed_attempts_are_retried_once() {
    assert!(postgres_target(key(0, 1, 2, 0, 3)).is_ok());
    assert!(postgres_target(key(1, 0, 2, 0, 3)).is_err());

    let mut m = PostgresRedoManager::new();
    let (s, a) = apply_batch_postgres::<&str>(&mut m, key(0, 1, 2, 0, 3), 7);
    assert_eq!(m.last_redo_at, Some(7));
    assert!(matches!(a, PostgresAction::Launch));
    let (s, a) = postgres_step(&mut m, s, PostgresEvent::<&str>::Launched { pid: 5 });
    assert_eq!(m.redo_process, Some(5));
    assert!(matches!(a, PostgresAction::Apply { pid: 5, blknum: 3, .. }));
    let (s, a) = postgres_step(&mut m, s, PostgresEvent::Applied(Err("one")));
    assert_eq!(m.redo_process, None);
    assert!(matches!(a, PostgresAction::Launch));
    let (s, a) = postgres_step(&mut m, s, PostgresEvent::<&str>::Launched { pid: 6 });
    assert!(matches!(a, PostgresAction::Apply { pid: 6, .. }));
    let (s, a) = postgres_step(&mut m, s, PostgresEvent::Applied(Err("two")));
    assert_eq!(s, PostgresState::Ended);
    assert_eq!(m.redo_process, None);
    assert!(matches!(a, PostgresAction::Return(Err(PostgresError::Process("two")))));
}

#[test]
fn a_process_in_rotation_is_used() {
    let mut m = PostgresRedoManager::new();
    m.process_launched(9);
    let (s, a) = apply_batch_postgres::<&str>(&mut m, key(0, 1, 2, 0, 3), 1);
    assert!(matches!(a, PostgresAction::Apply { pid: 9, .. }));
    // Another request was faster to replace the process that fails.
    m.process_failed(9);
    m.process_launched(10);
    let (s, a) = postgres_step(&mut m, s, PostgresEvent::Applied(Err("gone")));
    assert_eq!(m.redo_process, Some(10));
    assert!(matches!(a, PostgresAction::Apply { pid: 10, .. }));
    let image = Bytes::from_static(b"page");
    let (_, a) = postgres_step(&mut m, s, PostgresEvent::<&str>::Applied(Ok(image)));
    assert!(matches!(a, PostgresAction::Return(Ok(i)) if &i[..] == b"page"));
    assert_eq!(m.redo_process, Some(10));

    let mut m = PostgresRedoManager::new();
    let (s, a) = apply_batch_postgres::<&str>(&mut m, key(1, 0, 2, 0, 3), 4);
    assert_eq!((s, m.last_redo_at), (PostgresState::Ended, Some(4)));
    assert!(matches!(a, PostgresAction::Return(Err(PostgresError::Request(_)))));
    let (s, _) = apply_batch_postgres::<&str>(&mut m, key(0, 1, 2, 0, 3), 4);
    let (s, a) = postgres_step(&mut m, s, PostgresEvent::LaunchFailed("no"));
    assert_eq!(s, PostgresState::Ended);
    assert!(matches!(a, PostgresAction::Return(Err(PostgresError::Launch("no")))));
}

#[test]
fn the_process_is_kept_while_in_use() {
    let mut m = PostgresRedoManager::new();
    assert_eq!(m.status(5).pid, None);
    assert_eq!(m.status(5).last_redo_age, None);
    m.maybe_quiesce(100, 0);
    m.note_request(10);
    assert_eq!(m.process_launched(77), 77);
    assert_eq!(m.process_launched(88), 77);
    m.process_failed(88);
    assert_eq!(m.status(15).pid, Some(77));
    assert_eq!(m.status(15).last_redo_age, Some(5));
    m.maybe_quiesce(19, 10);
    assert_eq!(m.redo_process, Some(77));
    m.maybe_quiesce(20, 10);
    assert_eq!(m.redo_process, None);
    m.process_launched(99);
    m.process_failed(99);
    assert_eq!(m.redo_process, None);
}
