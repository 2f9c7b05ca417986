//! WAL redo: reconstructing a page image from a base image and the records that follow it.
//!
//! Records that the library can apply itself and records that only Postgres can apply
//! come in runs.  A [`RedoRequest`] takes the runs one after the other: the caller
//! applies each run, with [`apply_batch_neon`] or with a Postgres process, and hands the
//! new image back.  A [`PostgresRedoManager`] keeps track of the Postgres process; how a run
//! goes through it is in [`postgres_redo`](crate::pageserver::postgres_redo).
use bytes::Bytes;
use vstd::prelude::*;

use crate::base::buffers;
use crate::base::lsn::Lsn;
use crate::pageserver::apply_neon;
use crate::pageserver::apply_neon::ApplyError;
use crate::pageserver::apply_neon::NeonWalRecord;
use crate::pageserver::key;
use crate::pageserver::key::Key;
use crate::pageserver::key::RelTag;

verus! {

/// How often a batch is tried again after a Postgres process has failed on it.
pub const MAX_RETRY_ATTEMPTS: u32 = 1;

/// Why no image was reconstructed.
#[derive(Clone, Copy, Debug, PartialEq, Eq, Structural)]
pub enum RedoError {
    /// The request came without a record.
    NoRecords,
    /// Records that the library applies came without an image to apply them to.
    NoBaseImage,
    /// A record was not applied.
    Apply(ApplyError),
}

impl RedoError {
    pub open spec fn message_text(self) -> Seq<char> {
        match self {
            RedoError::NoRecords => "invalid WAL redo request with no records"@,
            RedoError::NoBaseImage => "invalid neon WAL redo request with no base image"@,
            RedoError::Apply(e) => e.message_text(),
        }
    }

    /// The error in words.
    pub fn message(&self) -> (r: &'static str)
        ensures
            r@ == self.message_text(),
    {
        match self {
            RedoError::NoRecords => "invalid WAL redo request with no records",
            RedoError::NoBaseImage => "invalid neon WAL redo request with no base image",
            RedoError::Apply(e) => e.message(),
        }
    }
}

/// A run of records that are all applied in the same way: those from `start` up to, not
/// including, `end`.
#[derive(Clone, Copy, Debug, PartialEq, Eq, Structural)]
pub struct RedoBatch {
    /// Whether the library applies them; otherwise Postgres does.
    pub neon: bool,
    pub start: usize,
    pub end: usize,
}

/// Where the run of records that starts at `start` ends: before the first record behind
/// it that is applied in the other way, or with the last record.
pub open spec fn run_end(records: Seq<(Lsn, NeonWalRecord)>, start: int) -> int
    decreases records.len() - start,
{
    if start + 1 >= records.len() {
        records.len() as int
    } else if apply_neon::is_postgres(records[start + 1].1) != apply_neon::is_postgres(
        records[start].1,
    ) {
        start + 1
    } else {
        run_end(records, start + 1)
    }
}

/// The page after the records from `start` up to `end`, or why one of them, the first
/// that fails, was not applied.
pub open spec fn redo_all(
    records: Seq<(Lsn, NeonWalRecord)>,
    start: int,
    end: int,
    key: Key,
    page: Seq<u8>,
) -> Result<Seq<u8>, ApplyError>
    decreases end - start,
{
    if start >= end {
        Ok(page)
    } else {
        match apply_neon::redo(records[start].1, key, page) {
            Err(e) => Err(e),
            Ok(next) => redo_all(records, start + 1, end, key, next),
        }
    }
}

/// Each record fits the page that the records before it have made.
pub open spec fn all_fit(
    records: Seq<(Lsn, NeonWalRecord)>,
    start: int,
    end: int,
    key: Key,
    page: Seq<u8>,
) -> bool
    decreases end - start,
{
    start >= end || {
        &&& apply_neon::record_fits(records[start].1, key, page)
        &&& apply_neon::redo(records[start].1, key, page) matches Ok(next) ==> all_fit(
            records,
            start + 1,
            end,
            key,
            next,
        )
    }
}

/// The total size of the Postgres records from `start` up to `end`.
pub open spec fn postgres_bytes(
    records: Seq<(Lsn, NeonWalRecord)>,
    start: int,
    end: int,
) -> int
    decreases end - start,
{
    if start >= end {
        0
    } else {
        postgres_bytes(records, start, end - 1) + match records[end - 1].1 {
            NeonWalRecord::Postgres { rec, .. } => buffers::shared_bytes(rec).len() as int,
            _ => 0,
        }
    }
}

/// A request to reconstruct a page, and how far it has come.
pub struct RedoRequest {
    pub key: Key,
    pub lsn: Lsn,
    /// The position of the base image.
    pub base_img_lsn: Lsn,
    pub records: Vec<(Lsn, NeonWalRecord)>,
    /// The image after the records before `next`.
    pub img: Option<Bytes>,
    /// The first record that has not been applied.
    pub next: usize,
}

impl RedoRequest {
    /// `next` is where a run of records starts, or the end of the records.
    pub open spec fn wf(self) -> bool {
        &&& 0 < self.records@.len()
        &&& self.next <= self.records@.len()
        &&& self.next == self.records@.len() ==> self.img is Some
    }

    /// The run of records to apply next; `None` when all have been applied.
    pub fn next_batch(&self) -> (r: Option<RedoBatch>)
        requires
            self.wf(),
        ensures
            r == if self.next < self.records@.len() {
                Some(
                    (RedoBatch {
                        neon: !apply_neon::is_postgres(self.records@[self.next as int].1),
                        start: self.next,
                        end: run_end(self.records@, self.next as int) as usize,
                    }),
                )
            } else {
                None
            },
            r matches Some(batch) ==> batch.start < batch.end <= self.records@.len() && batch.end
                == run_end(self.records@, self.next as int),
    {
        if self.next >= self.records.len() {
            return None;
        }
        let start = self.next;
        let neon = apply_neon::can_apply_in_neon(&self.records[start].1);
        let mut end = start + 1;
        while end < self.records.len()
            invariant_except_break
                start < end <= self.records@.len(),
                neon == !apply_neon::is_postgres(self.records@[end - 1].1),
                run_end(self.records@, start as int) == run_end(self.records@, end - 1),
            ensures
                start < end <= self.records@.len(),
                run_end(self.records@, start as int) == end,
            decreases self.records@.len() - end,
        {
            if apply_neon::can_apply_in_neon(&self.records[end].1) != neon {
                break;
            }
            end += 1;
        }
        Some(RedoBatch { neon, start, end })
    }

    /// Takes the image that applying the next run has given.
    pub fn batch_done(&mut self, img: Bytes)
        requires
            old(self).wf(),
            old(self).next < old(self).records@.len(),
        ensures
            final(self).wf(),
            final(self).img == Some(img),
            final(self).next == run_end(old(self).records@, old(self).next as int),
            final(self).key == old(self).key,
            final(self).lsn == old(self).lsn,
            final(self).base_img_lsn == old(self).base_img_lsn,
            final(self).records == old(self).records,
    {
        let end = match self.next_batch() {
            Some(batch) => batch.end,
            None => self.next,
        };
        self.img = Some(img);
        self.next = end;
    }

    /// The reconstructed image, once all records have been applied.
    pub fn finish(self) -> (r: Option<Bytes>)
        requires
            self.wf(),
        ensures
            r == if self.next == self.records@.len() {
                self.img
            } else {
                None
            },
    {
        if self.next == self.records.len() {
            self.img
        } else {
            None
        }
    }
}

/// Whether each record from `start` up to `end` fits the page that those before it make.
pub fn check_batch(
    key: Key,
    base_img: &Bytes,
    records: &Vec<(Lsn, NeonWalRecord)>,
    start: usize,
    end: usize,
) -> (r: bool)
    requires
        start <= end <= records@.len(),
    ensures
        r == all_fit(records@, start as int, end as int, key, buffers::shared_bytes(*base_img)),
{
    let ghost first = buffers::shared_bytes(*base_img);
    let mut page = buffers::buffer_from(buffers::shared_as_slice(base_img));
    let mut i = start;
    while i < end
        invariant
            start <= i <= end <= records@.len(),
            first == buffers::shared_bytes(*base_img),
            all_fit(records@, start as int, end as int, key, first) == all_fit(
                records@,
                i as int,
                end as int,
                key,
                buffers::buffer_bytes(page),
            ),
        decreases end - i,
    {
        if !apply_neon::check_record(&records[i].1, key, &page) {
            return false;
        }
        if apply_neon::apply_in_neon(&records[i].1, key, &mut page).is_err() {
            return true;
        }
        i += 1;
    }
    true
}

/// Applies the records from `start` up to `end` to the base image.
pub fn apply_batch_neon(
    key: Key,
    base_img: Option<&Bytes>,
    records: &Vec<(Lsn, NeonWalRecord)>,
    start: usize,
    end: usize,
) -> (r: Result<Bytes, RedoError>)
    requires
        start <= end <= records@.len(),
        base_img matches Some(img) ==> all_fit(
            records@,
            start as int,
            end as int,
            key,
            buffers::shared_bytes(*img),
        ),
    ensures
        match base_img {
            None => r == Err::<Bytes, RedoError>(RedoError::NoBaseImage),
            Some(img) => match redo_all(
                records@,
                start as int,
                end as int,
                key,
                buffers::shared_bytes(*img),
            ) {
                Ok(bytes) => r matches Ok(page) && buffers::shared_bytes(page) == bytes,
                Err(e) => r == Err::<Bytes, RedoError>(RedoError::Apply(e)),
            },
        },
{
    let fpi = match base_img {
        Some(fpi) => fpi,
        None => {
            return Err(RedoError::NoBaseImage);
        },
    };
    let ghost first = buffers::shared_bytes(*fpi);
    let mut page = buffers::buffer_new();
    buffers::buffer_extend(&mut page, buffers::shared_as_slice(fpi));
    assert(buffers::buffer_bytes(page) =~= first);
    let mut i = start;
    while i < end
        invariant
            start <= i <= end <= records@.len(),
            base_img == Some(fpi),
            first == buffers::shared_bytes(*fpi),
            all_fit(records@, i as int, end as int, key, buffers::buffer_bytes(page)),
            redo_all(records@, start as int, end as int, key, first) == redo_all(
                records@,
                i as int,
                end as int,
                key,
                buffers::buffer_bytes(page),
            ),
        decreases end - i,
    {
        match apply_neon::apply_in_neon(&records[i].1, key, &mut page) {
            Ok(()) => {},
            Err(e) => {
                return Err(RedoError::Apply(e));
            },
        }
        i += 1;
    }
    Ok(buffers::buffer_freeze(page))
}

/// The total size of the Postgres records from `start` up to `end`.
pub fn batch_nbytes(records: &Vec<(Lsn, NeonWalRecord)>, start: usize, end: usize) -> (r: usize)
    requires
        start <= end <= records@.len(),
        forall|i: int| start <= i < end ==> apply_neon::is_postgres(#[trigger] records@[i].1),
        postgres_bytes(records@, start as int, end as int) <= usize::MAX,
    ensures
        r == postgres_bytes(records@, start as int, end as int),
{
    let mut sum: usize = 0;
    let mut i = start;
    while i < end
        invariant
            start <= i <= end <= records@.len(),
            postgres_bytes(records@, start as int, end as int) <= usize::MAX,
            sum == postgres_bytes(records@, start as int, i as int),
        decreases end - i,
    {
        proof {
            lemma_postgres_bytes_grow(records@, start as int, i + 1, end as int);
        }
        match &records[i].1 {
            NeonWalRecord::Postgres { will_init: _, rec } => {
                sum += buffers::shared_as_slice(rec).len();
            },
            _ => {},
        }
        i += 1;
    }
    sum
}

/// More records are not smaller.
proof fn lemma_postgres_bytes_grow(
    records: Seq<(Lsn, NeonWalRecord)>,
    start: int,
    mid: int,
    end: int,
)
    requires
        start <= mid <= end,
    ensures
        postgres_bytes(records, start, mid) <= postgres_bytes(records, start, end),
    decreases end - mid,
{
    if mid < end {
        lemma_postgres_bytes_grow(records, start, mid, end - 1);
    }
}

/// The error for a page that is no block of a relation.
pub open spec fn invalid_target() -> RedoError {
    RedoError::Apply(ApplyError::InvalidRecord)
}

/// The relation block whose page a Postgres process reconstructs.
pub fn postgres_target(key: Key) -> (r: Result<(RelTag, u32), RedoError>)
    ensures
        r == match key::rel_block_of(key) {
            Some(target) => Ok(target),
            None => Err(invalid_target()),
        },
{
    match key::key_to_rel_block(key) {
        Some(target) => Ok(target),
        None => Err(RedoError::Apply(ApplyError::InvalidRecord)),
    }
}

/// What is known of the Postgres process that replays records.
#[derive(Clone, Copy, Debug, PartialEq, Eq, Structural)]
pub struct WalRedoManagerStatus {
    /// Nanoseconds since the latest request, where there was one.
    pub last_redo_age: Option<u128>,
    /// The process in rotation.
    pub pid: Option<u32>,
}

/// The Postgres process in rotation and the time of the latest request, in nanoseconds
/// on the caller's clock.  The process is launched by the first request that finds none.
#[derive(Clone, Copy, Debug, PartialEq, Eq, Structural)]
pub struct PostgresRedoManager {
    pub last_redo_at: Option<u128>,
    pub redo_process: Option<u32>,
}

impl PostgresRedoManager {
    /// A manager without a process.
    pub fn new() -> (r: PostgresRedoManager)
        ensures
            r.last_redo_at is None,
            r.redo_process is None,
    {
        PostgresRedoManager { last_redo_at: None, redo_process: None }
    }

    /// Requests the image of `key` at `lsn`, with some records applied.  Without a base image
    /// its position is the invalid one.
    pub fn request_redo(
        &self,
        key: Key,
        lsn: Lsn,
        base_img: Option<(Lsn, Bytes)>,
        records: Vec<(Lsn, NeonWalRecord)>,
    ) -> (r: Result<RedoRequest, RedoError>)
        ensures
            match r {
                Err(e) => records@.len() == 0 && e == RedoError::NoRecords,
                Ok(request) => {
                    &&& records@.len() > 0
                    &&& request.wf()
                    &&& request.key == key
                    &&& request.lsn == lsn
                    &&& request.records == records
                    &&& request.next == 0
                    &&& request.base_img_lsn == match base_img {
                        Some((at, _)) => at,
                        None => Lsn::invalid(),
                    }
                    &&& request.img == match base_img {
                        Some((_, img)) => Some(img),
                        None => None,
                    }
                },
            },
    {
        if records.len() == 0 {
            return Err(RedoError::NoRecords);
        }
        let (base_img_lsn, img) = match base_img {
            Some((at, img)) => (at, Some(img)),
            None => (Lsn::invalid(), None),
        };
        Ok(RedoRequest { key, lsn, base_img_lsn, records, img, next: 0 })
    }

    /// Notes the time of a request that goes to Postgres.
    pub fn note_request(&mut self, now: u128)
        ensures
            final(self).last_redo_at == Some(now),
            final(self).redo_process == old(self).redo_process,
    {
        self.last_redo_at = Some(now);
    }

    /// Puts a freshly launched process into rotation, unless another one is there
    /// already, and says which one to use.
    pub fn process_launched(&mut self, pid: u32) -> (r: u32)
        ensures
            r == match old(self).redo_process {
                Some(current) => current,
                None => pid,
            },
            final(self).redo_process == Some(r),
            final(self).last_redo_at == old(self).last_redo_at,
    {
        match self.redo_process {
            Some(current) => current,
            None => {
                self.redo_process = Some(pid);
                pid
            },
        }
    }

    /// Takes a process that has failed out of rotation, unless it has been replaced.
    pub fn process_failed(&mut self, pid: u32)
        ensures
            final(self).redo_process == if old(self).redo_process == Some(pid) {
                None
            } else {
                old(self).redo_process
            },
            final(self).last_redo_at == old(self).last_redo_at,
    {
        if let Some(current) = self.redo_process {
            if current == pid {
                self.redo_process = None;
            }
        }
    }

    /// Retires the process when no request has come for `idle_timeout`.
    pub fn maybe_quiesce(&mut self, now: u128, idle_timeout: u128)
        ensures
            final(self).redo_process == match old(self).last_redo_at {
                Some(at) if now - at >= idle_timeout || idle_timeout == 0 => None,
                _ => old(self).redo_process,
            },
            final(self).last_redo_at == old(self).last_redo_at,
    {
        if let Some(at) = self.last_redo_at {
            if now.saturating_sub(at) >= idle_timeout {
                self.redo_process = None;
            }
        }
    }

    /// The age of the latest request and the process in rotation.
    pub fn status(&self, now: u128) -> (r: WalRedoManagerStatus)
        ensures
            r.pid == self.redo_process,
            r.last_redo_age == match self.last_redo_at {
                Some(at) => Some(
                    if now >= at {
                        (now - at) as u128
                    } else {
                        0
                    },
                ),
                None => None,
            },
    {
        let last_redo_age = match self.last_redo_at {
            Some(at) => Some(now.saturating_sub(at)),
            None => None,
        };
        WalRedoManagerStatus { last_redo_age, pid: self.redo_process }
    }
}

/// A run is not empty, its records are all applied in the same way, and the record behind
/// it, if any, is applied in the other.  The runs therefore cover the records in order.
pub proof fn runs_are_maximal(records: Seq<(Lsn, NeonWalRecord)>, start: int)
    requires
        0 <= start < records.len(),
    ensures
        start < run_end(records, start) <= records.len(),
        forall|i: int|
            start <= i < run_end(records, start) ==> apply_neon::is_postgres(
                #[trigger] records[i].1,
            ) == apply_neon::is_postgres(records[start].1),
        run_end(records, start) < records.len() ==> apply_neon::is_postgres(
            records[run_end(records, start)].1,
        ) != apply_neon::is_postgres(records[start].1),
    decreases records.len() - start,
{
    if start + 1 < records.len() && apply_neon::is_postgres(records[start + 1].1)
        == apply_neon::is_postgres(records[start].1) {
        runs_are_maximal(records, start + 1);
    }
}

/// Applying two runs one after the other is applying them as one.
pub proof fn redo_is_sequential(
    records: Seq<(Lsn, NeonWalRecord)>,
    start: int,
    mid: int,
    end: int,
    key: Key,
    page: Seq<u8>,
)
    requires
        start <= mid <= end,
    ensures
        redo_all(records, start, end, key, page) == match redo_all(records, start, mid, key, page) {
            Ok(next) => redo_all(records, mid, end, key, next),
            Err(e) => Err(e),
        },
    decreases mid - start,
{
    if start < mid {
        match apply_neon::redo(records[start].1, key, page) {
            Ok(next) => {
                redo_is_sequential(records, start + 1, mid, end, key, next);
            },
            Err(_) => {},
        }
    }
}

/// Applying no record leaves the page, applying one does what the record says, and the same
/// records must fit.
pub proof fn runs_apply_record_by_record(
    records: Seq<(Lsn, NeonWalRecord)>,
    start: int,
    key: Key,
    page: Seq<u8>,
)
    ensures
        redo_all(records, start, start, key, page) == Ok::<Seq<u8>, ApplyError>(page),
        redo_all(records, start, start + 1, key, page) == apply_neon::redo(
            records[start].1,
            key,
            page,
        ),
        all_fit(records, start, start, key, page),
        all_fit(records, start, start + 1, key, page) == apply_neon::record_fits(
            records[start].1,
            key,
            page,
        ),
{
    reveal_with_fuel(redo_all, 2);
    reveal_with_fuel(all_fit, 2);
}

/// Records fit one behind the other: those up to a point on the page, and those behind it on
/// the page that the first ones make.
pub proof fn fitting_is_sequential(
    records: Seq<(Lsn, NeonWalRecord)>,
    start: int,
    mid: int,
    end: int,
    key: Key,
    page: Seq<u8>,
)
    requires
        start <= mid <= end,
    ensures
        all_fit(records, start, end, key, page) <==> all_fit(records, start, mid, key, page) && (
        redo_all(records, start, mid, key, page) matches Ok(next) ==> all_fit(
            records,
            mid,
            end,
            key,
            next,
        )),
    decreases mid - start,
{
    if start < mid {
        if let Ok(next) = apply_neon::redo(records[start].1, key, page) {
            fitting_is_sequential(records, start + 1, mid, end, key, next);
        }
    }
}

/// The bytes of a run of Postgres records are those of its records together.
pub proof fn run_bytes_add_up(
    records: Seq<(Lsn, NeonWalRecord)>,
    start: int,
    mid: int,
    end: int,
)
    requires
        start <= mid <= end,
    ensures
        postgres_bytes(records, start, end) == postgres_bytes(records, start, mid)
            + postgres_bytes(records, mid, end),
        postgres_bytes(records, start, start + 1) == match records[start].1 {
            NeonWalRecord::Postgres { rec, .. } => buffers::shared_bytes(rec).len() as int,
            _ => 0,
        },
        postgres_bytes(records, start, start) == 0,
    decreases end - mid,
{
    reveal_with_fuel(postgres_bytes, 2);
    if mid < end {
        run_bytes_add_up(records, start, mid, end - 1);
    }
}

/// What is said where no image was reconstructed.
pub proof fn redo_error_words()
    ensures
        RedoError::NoRecords.message_text() == "invalid WAL redo request with no records"@,
        RedoError::NoBaseImage.message_text()
            == "invalid neon WAL redo request with no base image"@,
        RedoError::Apply(ApplyError::PostgresRecord).message_text()
            == "tried to pass postgres wal record to neon WAL redo"@,
        RedoError::Apply(ApplyError::InvalidRecord).message_text() == "invalid record"@,
        RedoError::Apply(ApplyError::InvalidDirectory).message_text() == "deserialize error"@,
{
}

} // verus!
