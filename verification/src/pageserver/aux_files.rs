//! The directory of auxiliary files: small files that Postgres keeps outside its
//! relations, stored together as one value.
//!
//! A directory is stored as the number of files followed by, for each file, its path
//! and its content.  Numbers are eight bytes, big-endian; paths and contents are
//! preceded by their length.
use bytes::Bytes;
use vstd::prelude::*;
use vstd::utf8::*;

use crate::base::buffers;
use crate::base::codec;

verus! {

/// A file: its path and its bytes.
pub struct AuxFile {
    pub path: String,
    pub content: Bytes,
}

/// The files of a directory, each path once.
pub struct AuxFilesDirectory {
    pub files: Vec<AuxFile>,
}

/// A file as a mathematical value.
pub type FileModel = (Seq<char>, Seq<u8>);

/// No two files share a path.
pub open spec fn distinct_paths(files: Seq<FileModel>) -> bool {
    forall|i: int, j: int| 0 <= i < j < files.len() ==> files[i].0 != files[j].0
}

/// Whether a file with this path is there.
pub open spec fn has_path(files: Seq<FileModel>, path: Seq<char>) -> bool {
    exists|i: int| 0 <= i < files.len() && files[i].0 == path
}

/// Where the file with this path stands.
pub open spec fn position_of(files: Seq<FileModel>, path: Seq<char>) -> int {
    choose|i: int| 0 <= i < files.len() && files[i].0 == path
}

/// The content under each path.
pub open spec fn content_map(files: Seq<FileModel>) -> Map<Seq<char>, Seq<u8>> {
    Map::new(|p: Seq<char>| has_path(files, p), |p: Seq<char>| files[position_of(files, p)].1)
}

/// The files after `content` has been put under `path`, or the file at `path` removed.
/// A file that is replaced keeps its place; a new one comes last.
pub open spec fn upsert_files(
    files: Seq<FileModel>,
    path: Seq<char>,
    content: Option<Seq<u8>>,
) -> Seq<FileModel> {
    if has_path(files, path) {
        match content {
            Some(bytes) => files.update(position_of(files, path), (path, bytes)),
            None => files.remove(position_of(files, path)),
        }
    } else {
        match content {
            Some(bytes) => files.push((path, bytes)),
            None => files,
        }
    }
}

/// The directory that a list of files makes: of several files with one path the last
/// one counts.
pub open spec fn collect_files(list: Seq<FileModel>) -> Seq<FileModel>
    decreases list.len(),
{
    if list.len() == 0 {
        list
    } else {
        upsert_files(collect_files(list.drop_last()), list.last().0, Some(list.last().1))
    }
}

/// A run of bytes preceded by its length.
pub open spec fn encode_run(run: Seq<u8>) -> Seq<u8> {
    codec::be_u64(run.len() as u64) + run
}

/// A file as it is stored.
pub open spec fn encode_file(file: FileModel) -> Seq<u8> {
    encode_run(encode_utf8(file.0)) + encode_run(file.1)
}

/// Files as they are stored, one behind the other.
pub open spec fn encode_files(files: Seq<FileModel>) -> Seq<u8>
    decreases files.len(),
{
    if files.len() == 0 {
        Seq::empty()
    } else {
        encode_file(files[0]) + encode_files(files.skip(1))
    }
}

/// A directory as it is stored.
pub open spec fn encode_directory(files: Seq<FileModel>) -> Seq<u8> {
    codec::be_u64(files.len() as u64) + encode_files(files)
}

/// The run that `b` begins with and what follows it.
pub open spec fn decode_run(b: Seq<u8>) -> Option<(Seq<u8>, Seq<u8>)> {
    if b.len() < 8 || b.len() - 8 < codec::be_u64_value(b) {
        None
    } else {
        let n = codec::be_u64_value(b) as int;
        Some((b.subrange(8, 8 + n), b.skip(8 + n)))
    }
}

/// The file that `b` begins with and what follows it.
pub open spec fn decode_file(b: Seq<u8>) -> Option<(FileModel, Seq<u8>)> {
    match decode_run(b) {
        None => None,
        Some((path, rest)) => if !valid_utf8(path) {
            None
        } else {
            match decode_run(rest) {
                None => None,
                Some((content, tail)) => Some(((decode_utf8(path), content), tail)),
            }
        },
    }
}

/// The `n` files that `b` consists of.
pub open spec fn decode_files(b: Seq<u8>, n: nat) -> Option<Seq<FileModel>>
    decreases n,
{
    if n == 0 {
        if b.len() == 0 {
            Some(Seq::empty())
        } else {
            None
        }
    } else {
        match decode_file(b) {
            None => None,
            Some((file, rest)) => match decode_files(rest, (n - 1) as nat) {
                None => None,
                Some(more) => Some(seq![file] + more),
            },
        }
    }
}

/// The directory that `b` stores; `None` where `b` is no stored directory.
pub open spec fn decode_directory(b: Seq<u8>) -> Option<Seq<FileModel>> {
    if b.len() < 8 {
        None
    } else {
        match decode_files(b.skip(8), codec::be_u64_value(b) as nat) {
            None => None,
            Some(list) => Some(collect_files(list)),
        }
    }
}

/// The bytes are no stored directory.
#[derive(Clone, Copy, Debug, PartialEq, Eq, Structural)]
pub struct DeserializeError;

/// `String::from_utf8` of std: the text that the bytes encode, where they are UTF-8.
#[verifier::external_body]
fn string_from_utf8(bytes: Vec<u8>) -> (r: Option<String>)
    ensures
        r is Some <==> valid_utf8(bytes@),
        r matches Some(s) ==> s@ == decode_utf8(bytes@),
{
    String::from_utf8(bytes).ok()
}

impl AuxFilesDirectory {
    /// The files in the order in which they are stored.
    pub open spec fn entries(self) -> Seq<FileModel> {
        Seq::new(
            self.files@.len(),
            |i: int| (self.files@[i].path@, buffers::shared_bytes(self.files@[i].content)),
        )
    }

    /// Each path occurs once.
    pub open spec fn wf(self) -> bool {
        distinct_paths(self.entries())
    }

    /// An empty directory.
    pub fn new() -> (r: AuxFilesDirectory)
        ensures
            r.wf(),
            r.entries() == Seq::<FileModel>::empty(),
    {
        let r = AuxFilesDirectory { files: Vec::new() };
        assert(r.entries() =~= Seq::<FileModel>::empty());
        r
    }

    /// The index of the file with this path.
    fn find(&self, path: &String) -> (r: Option<usize>)
        requires
            self.wf(),
        ensures
            match r {
                Some(i) => i < self.files@.len() && self.entries()[i as int].0 == path@ && has_path(
                    self.entries(),
                    path@,
                ) && position_of(self.entries(), path@) == i,
                None => !has_path(self.entries(), path@),
            },
    {
        let mut i: usize = 0;
        while i < self.files.len()
            invariant
                self.wf(),
                i <= self.files@.len(),
                forall|j: int| 0 <= j < i ==> self.entries()[j].0 != path@,
            decreases self.files@.len() - i,
        {
            if self.files[i].path == *path {
                assert(self.entries()[i as int].0 == path@);
                return Some(i);
            }
            assert(self.entries()[i as int].0 != path@);
            i += 1;
        }
        None
    }

    /// The content of the file with this path.
    pub fn get(&self, path: &String) -> (r: Option<Bytes>)
        requires
            self.wf(),
        ensures
            r is Some <==> content_map(self.entries()).dom().contains(path@),
            r matches Some(c) ==> buffers::shared_bytes(c) == content_map(self.entries())[path@],
    {
        match self.find(path) {
            Some(i) => Some(buffers::shared_clone(&self.files[i].content)),
            None => None,
        }
    }

    /// Puts `content` under `path`, or removes the file at `path` where there is none.
    pub fn upsert(&mut self, path: String, content: Option<Bytes>)
        requires
            old(self).wf(),
        ensures
            final(self).wf(),
            final(self).entries() == upsert_files(
                old(self).entries(),
                path@,
                match content {
                    Some(c) => Some(buffers::shared_bytes(c)),
                    None => None,
                },
            ),
    {
        let ghost before = self.entries();
        let ghost p = path@;
        match self.find(&path) {
            Some(i) => {
                match content {
                    Some(c) => {
                        self.files.set(i, AuxFile { path, content: c });
                        assert(self.entries() =~= before.update(i as int, (p, buffers::shared_bytes(c))));
                    },
                    None => {
                        self.files.remove(i);
                        assert(self.entries() =~= before.remove(i as int));
                    },
                }
            },
            None => {
                match content {
                    Some(c) => {
                        self.files.push(AuxFile { path, content: c });
                        assert(self.entries() =~= before.push((p, buffers::shared_bytes(c))));
                    },
                    None => {},
                }
            },
        }
    }

    /// The stored form of the directory.
    pub fn ser(&self) -> (r: Vec<u8>)
        requires
            self.wf(),
        ensures
            r@ == encode_directory(self.entries()),
    {
        let ghost all = self.entries();
        let mut out: Vec<u8> = codec::u64_to_be_bytes(self.files.len() as u64);
        let mut i: usize = 0;
        assert(all.skip(0) =~= all);
        while i < self.files.len()
            invariant
                i <= self.files@.len(),
                all == self.entries(),
                out@ + encode_files(all.skip(i as int)) == encode_directory(all),
            decreases self.files@.len() - i,
        {
            let path = self.files[i].path.as_str().as_bytes();
            let content = buffers::shared_as_slice(&self.files[i].content);
            let ghost before = out@;
            let mut path_len = codec::u64_to_be_bytes(path.len() as u64);
            let mut content_len = codec::u64_to_be_bytes(content.len() as u64);
            out.append(&mut path_len);
            out.extend_from_slice(path);
            out.append(&mut content_len);
            out.extend_from_slice(content);
            proof {
                let rest = all.skip(i as int);
                assert(rest[0] == all[i as int]);
                assert(rest.skip(1) =~= all.skip(i + 1));
                assert(out@ =~= before + encode_file(all[i as int]));
                assert(out@ + encode_files(all.skip(i + 1)) =~= before + (encode_file(rest[0])
                    + encode_files(rest.skip(1))));
            }
            i += 1;
        }
        assert(all.skip(i as int).len() == 0);
        assert(out@ + encode_files(all.skip(i as int)) =~= out@);
        out
    }

    /// Reads a stored directory.
    pub fn des(b: &[u8]) -> (r: Result<AuxFilesDirectory, DeserializeError>)
        ensures
            r is Ok <==> decode_directory(b@) is Some,
            r matches Ok(dir) ==> dir.wf() && dir.entries() == decode_directory(b@)->0,
    {
        if b.len() < 8 {
            return Err(DeserializeError);
        }
        let n = codec::u64_from_be_bytes(b, 0);
        assert(b@.subrange(0, 8)[0] == b@[0]);
        assert(n == codec::be_u64_value(b@));
        let mut pos: usize = 8;
        let mut i: u64 = 0;
        let mut dir = AuxFilesDirectory::new();
        let ghost mut done: Seq<FileModel> = Seq::empty();
        proof {
            let whole = decode_files(b@.skip(8), n as nat);
            if whole is Some {
                assert(done + whole->0 =~= whole->0);
            }
        }
        while i < n
            invariant
                i <= n,
                8 <= pos <= b@.len(),
                b@.len() >= 8,
                n == codec::be_u64_value(b@),
                dir.wf(),
                dir.entries() == collect_files(done),
                decode_files(b@.skip(8), n as nat) == match decode_files(
                    b@.skip(pos as int),
                    (n - i) as nat,
                ) {
                    None => None::<Seq<FileModel>>,
                    Some(more) => Some(done + more),
                },
            decreases n - i,
        {
            let ghost here = b@.skip(pos as int);
            let path_end = match Self::run_end(b, pos) {
                Some(end) => end,
                None => {
                    return Err(DeserializeError);
                },
            };
            let path_slice = vstd::slice::slice_subrange(b, pos + 8, path_end);
            let path = match string_from_utf8(vstd::slice::slice_to_vec(path_slice)) {
                Some(path) => path,
                None => {
                    return Err(DeserializeError);
                },
            };
            let content_end = match Self::run_end(b, path_end) {
                Some(end) => end,
                None => {
                    return Err(DeserializeError);
                },
            };
            let content = vstd::slice::slice_subrange(b, path_end + 8, content_end);
            let ghost file = (path@, content@);
            assert(decode_file(here) == Some((file, b@.skip(content_end as int))));
            dir.upsert(path, Some(buffers::shared_copy(content)));
            proof {
                let ghost before = done;
                done = done.push(file);
                assert(done.drop_last() =~= before);
                let tail = decode_files(b@.skip(content_end as int), (n - i - 1) as nat);
                if tail is Some {
                    assert(before + (seq![file] + tail->0) =~= done + tail->0);
                }
            }
            pos = content_end;
            i += 1;
        }
        if pos != b.len() {
            assert(b@.skip(pos as int).len() != 0);
            return Err(DeserializeError);
        }
        assert(b@.skip(pos as int).len() == 0);
        assert(done + Seq::<FileModel>::empty() =~= done);
        Ok(dir)
    }

    /// Where the run that starts at `pos` ends.
    fn run_end(b: &[u8], pos: usize) -> (r: Option<usize>)
        requires
            pos <= b@.len(),
        ensures
            match r {
                None => decode_run(b@.skip(pos as int)) is None,
                Some(end) => pos + 8 <= end <= b@.len() && decode_run(b@.skip(pos as int)) == Some(
                    (b@.subrange(pos + 8, end as int), b@.skip(end as int)),
                ),
            },
    {
        if b.len() - pos < 8 {
            return None;
        }
        let len = codec::u64_from_be_bytes(b, pos);
        let ghost here = b@.skip(pos as int);
        assert(codec::be_u64_value(here) == len) by {
            let s = b@.subrange(pos as int, pos + 8);
            assert(forall|k: int| 0 <= k < 8 ==> here[k] == s[k]);
        }
        if len > (b.len() - pos - 8) as u64 {
            return None;
        }
        let end = pos + 8 + len as usize;
        assert(here.subrange(8, 8 + len as int) =~= b@.subrange(pos + 8, end as int));
        assert(here.skip(8 + len as int) =~= b@.skip(end as int));
        Some(end)
    }
}

/// Every file fits its length prefix.
pub open spec fn encodable(files: Seq<FileModel>) -> bool {
    &&& files.len() <= u64::MAX
    &&& forall|i: int|
        0 <= i < files.len() ==> encode_utf8(#[trigger] files[i].0).len() <= u64::MAX
            && files[i].1.len() <= u64::MAX
}

/// A stored run is read back, whatever follows it.
proof fn lemma_run_round_trip(run: Seq<u8>, rest: Seq<u8>)
    requires
        run.len() <= u64::MAX,
    ensures
        decode_run(encode_run(run) + rest) == Some((run, rest)),
{
    let n = run.len() as u64;
    let b = encode_run(run) + rest;
    codec::be_u64_round_trip(n);
    assert(forall|k: int| 0 <= k < 8 ==> b[k] == codec::be_u64(n)[k]);
    assert(codec::be_u64_value(b) == n);
    assert(b.subrange(8, 8 + n as int) =~= run);
    assert(b.skip(8 + n as int) =~= rest);
}

/// A stored file is read back, whatever follows it.
proof fn lemma_file_round_trip(file: FileModel, more: Seq<u8>)
    requires
        encode_utf8(file.0).len() <= u64::MAX,
        file.1.len() <= u64::MAX,
    ensures
        decode_file(encode_file(file) + more) == Some((file, more)),
{
    let path = encode_utf8(file.0);
    let after_path = encode_run(file.1) + more;
    assert(encode_file(file) + more =~= encode_run(path) + after_path);
    lemma_run_round_trip(path, after_path);
    lemma_run_round_trip(file.1, more);
    encode_utf8_valid_utf8(file.0);
    encode_utf8_decode_utf8(file.0);
}

/// Stored files are read back.
proof fn lemma_files_round_trip(files: Seq<FileModel>)
    requires
        encodable(files),
    ensures
        decode_files(encode_files(files), files.len()) == Some(files),
    decreases files.len(),
{
    if files.len() == 0 {
        assert(files =~= Seq::<FileModel>::empty());
    } else {
        let file = files[0];
        assert(files[0].0 == file.0);
        lemma_file_round_trip(file, encode_files(files.skip(1)));
        assert forall|i: int| 0 <= i < files.skip(1).len() implies encode_utf8(
            #[trigger] files.skip(1)[i].0,
        ).len() <= u64::MAX && files.skip(1)[i].1.len() <= u64::MAX by {
            assert(files.skip(1)[i] == files[i + 1]);
        }
        lemma_files_round_trip(files.skip(1));
        assert(seq![file] + files.skip(1) =~= files);
    }
}

/// A list whose paths are distinct is its own directory.
proof fn lemma_collect_distinct(files: Seq<FileModel>)
    requires
        distinct_paths(files),
    ensures
        collect_files(files) == files,
    decreases files.len(),
{
    if files.len() > 0 {
        let front = files.drop_last();
        lemma_collect_distinct(front);
        assert(!has_path(front, files.last().0));
        assert(front.push((files.last().0, files.last().1)) =~= files);
    }
}

/// Reading a stored directory gives the directory back.
pub proof fn directory_round_trip(files: Seq<FileModel>)
    requires
        distinct_paths(files),
        encodable(files),
    ensures
        decode_directory(encode_directory(files)) == Some(files),
{
    let n = files.len() as u64;
    let b = encode_directory(files);
    codec::be_u64_round_trip(n);
    assert(forall|k: int| 0 <= k < 8 ==> b[k] == codec::be_u64(n)[k]);
    assert(codec::be_u64_value(b) == n);
    assert(b.skip(8) =~= encode_files(files));
    lemma_files_round_trip(files);
    lemma_collect_distinct(files);
}

/// Putting a file changes the content under its path and under no other; removing one
/// takes its path away and no other.
pub proof fn upsert_changes_one_path(
    files: Seq<FileModel>,
    path: Seq<char>,
    content: Option<Seq<u8>>,
)
    requires
        distinct_paths(files),
    ensures
        distinct_paths(upsert_files(files, path, content)),
        content_map(upsert_files(files, path, content)) == match content {
            Some(bytes) => content_map(files).insert(path, bytes),
            None => content_map(files).remove(path),
        },
{
    let after = upsert_files(files, path, content);
    let want = match content {
        Some(bytes) => content_map(files).insert(path, bytes),
        None => content_map(files).remove(path),
    };
    assert(distinct_paths(after));
    assert forall|p: Seq<char>|
        has_path(after, p) == want.dom().contains(p) && (has_path(after, p)
            ==> after[position_of(after, p)].1 == want[p]) by {
        if has_path(files, p) {
            let i = position_of(files, p);
            if p != path {
                let j = if has_path(files, path) && content is None && position_of(files, path) < i {
                    i - 1
                } else {
                    i
                };
                assert(after[j] == files[i]);
            }
        }
        if content is Some {
            let k = if has_path(files, path) {
                position_of(files, path)
            } else {
                files.len() as int
            };
            assert(after[k] == (path, content->0));
        }
        if has_path(after, p) {
            let i = position_of(after, p);
            let j = if has_path(files, path) && content is None && position_of(files, path) <= i {
                i + 1
            } else {
                i
            };
            if p != path {
                assert(after[i] == files[j]);
            }
        }
    }
    assert(content_map(after) =~= want);
}

/// A run of bytes is stored behind its length, eight bytes, the most significant first.
pub proof fn runs_follow_their_length(run: Seq<u8>)
    requires
        run.len() <= u64::MAX,
    ensures
        encode_run(run).len() == 8 + run.len(),
        encode_run(run).skip(8) == run,
        encode_run(run)[0] * 0x100_0000_0000_0000 + encode_run(run)[1] * 0x1_0000_0000_0000
            + encode_run(run)[2] * 0x100_0000_0000 + encode_run(run)[3] * 0x1_0000_0000
            + encode_run(run)[4] * 0x100_0000 + encode_run(run)[5] * 0x1_0000 + encode_run(run)[6]
            * 0x100 + encode_run(run)[7] == run.len(),
{
    codec::be_u64_is_positional(run.len() as u64);
    assert(encode_run(run).skip(8) =~= run);
}

/// A file is stored as its path, in UTF-8, and its content, each behind its length.
pub proof fn paths_precede_contents(file: FileModel)
    requires
        encode_utf8(file.0).len() <= u64::MAX,
        file.1.len() <= u64::MAX,
    ensures
        ({
            let n = encode_utf8(file.0).len() as int;
            let stored = encode_file(file);
            &&& stored.len() == 16 + n + file.1.len()
            &&& stored.take(8 + n) == encode_run(encode_utf8(file.0))
            &&& stored.skip(8 + n) == encode_run(file.1)
            &&& stored.subrange(8, 8 + n) == encode_utf8(file.0)
            &&& stored.skip(16 + n) == file.1
        }),
{
    let n = encode_utf8(file.0).len() as int;
    let stored = encode_file(file);
    runs_follow_their_length(encode_utf8(file.0));
    runs_follow_their_length(file.1);
    assert(stored.take(8 + n) =~= encode_run(encode_utf8(file.0)));
    assert(stored.skip(8 + n) =~= encode_run(file.1));
    assert(stored.subrange(8, 8 + n) =~= encode_run(encode_utf8(file.0)).skip(8));
    assert(stored.skip(16 + n) =~= encode_run(file.1).skip(8));
}

/// A directory is stored as the number of its files, eight bytes, the most significant first,
/// and the files in their order; each further file follows the others.
pub proof fn files_follow_their_number(files: Seq<FileModel>, file: FileModel)
    requires
        files.len() < u64::MAX,
    ensures
        ({
            let stored = encode_directory(files);
            &&& stored.len() >= 8
            &&& stored[0] * 0x100_0000_0000_0000 + stored[1] * 0x1_0000_0000_0000 + stored[2]
                * 0x100_0000_0000 + stored[3] * 0x1_0000_0000 + stored[4] * 0x100_0000 + stored[5]
                * 0x1_0000 + stored[6] * 0x100 + stored[7] == files.len()
            &&& encode_directory(files.push(file)).skip(8) == stored.skip(8) + encode_file(file)
        }),
        encode_directory(Seq::empty()).len() == 8,
{
    codec::be_u64_is_positional(files.len() as u64);
    codec::be_u64_is_positional(files.push(file).len() as u64);
    codec::be_u64_is_positional(0);
    lemma_encode_push(files, file);
    assert(encode_directory(files).skip(8) =~= encode_files(files));
    assert(encode_directory(files.push(file)).skip(8) =~= encode_files(files.push(file)));
}

/// The last of some files is stored last.
proof fn lemma_encode_push(files: Seq<FileModel>, file: FileModel)
    ensures
        encode_files(files.push(file)) == encode_files(files) + encode_file(file),
    decreases files.len(),
{
    let all = files.push(file);
    if files.len() == 0 {
        reveal_with_fuel(encode_files, 2);
        assert(all.skip(1) =~= Seq::<FileModel>::empty());
        assert(encode_files(all) =~= encode_files(files) + encode_file(file));
    } else {
        assert(all.skip(1) =~= files.skip(1).push(file));
        lemma_encode_push(files.skip(1), file);
        assert(encode_files(all) =~= encode_files(files) + encode_file(file));
    }
}

/// Files with something behind them are not read as files.
proof fn lemma_nothing_follows(files: Seq<FileModel>, more: Seq<u8>)
    requires
        encodable(files),
        more.len() > 0,
    ensures
        decode_files(encode_files(files) + more, files.len()) is None,
    decreases files.len(),
{
    if files.len() > 0 {
        let file = files[0];
        let rest = encode_files(files.skip(1)) + more;
        assert(files[0].0 == file.0);
        assert(encode_files(files) + more =~= encode_file(file) + rest);
        lemma_file_round_trip(file, rest);
        assert forall|i: int| 0 <= i < files.skip(1).len() implies encode_utf8(
            #[trigger] files.skip(1)[i].0,
        ).len() <= u64::MAX && files.skip(1)[i].1.len() <= u64::MAX by {
            assert(files.skip(1)[i] == files[i + 1]);
        }
        lemma_nothing_follows(files.skip(1), more);
    }
}

/// A stored directory with anything behind it is none.
pub proof fn nothing_follows_a_directory(files: Seq<FileModel>, more: Seq<u8>)
    requires
        encodable(files),
        more.len() > 0,
    ensures
        decode_directory(encode_directory(files) + more) is None,
{
    let n = files.len() as u64;
    let b = encode_directory(files) + more;
    codec::be_u64_round_trip(n);
    assert(forall|k: int| 0 <= k < 8 ==> b[k] == codec::be_u64(n)[k]);
    assert(codec::be_u64_value(b) == n);
    assert(b.skip(8) =~= encode_files(files) + more);
    lemma_nothing_follows(files, more);
}

/// A directory made of a list has one file for each path, and of several in the list with one
/// path the last one counts.
pub proof fn later_files_take_the_place_of_earlier_ones(
    list: Seq<FileModel>,
    path: Seq<char>,
    content: Seq<u8>,
)
    ensures
        distinct_paths(collect_files(list)),
        content_map(collect_files(list.push((path, content)))) == content_map(
            collect_files(list),
        ).insert(path, content),
        collect_files(Seq::empty()) == Seq::<FileModel>::empty(),
    decreases list.len(),
{
    if list.len() > 0 {
        later_files_take_the_place_of_earlier_ones(
            list.drop_last(),
            list.last().0,
            list.last().1,
        );
        assert(list.drop_last().push((list.last().0, list.last().1)) =~= list);
        upsert_changes_one_path(
            collect_files(list.drop_last()),
            list.last().0,
            Some(list.last().1),
        );
    }
    assert(list.push((path, content)).drop_last() =~= list);
    upsert_changes_one_path(collect_files(list), path, Some(content));
}

/// A file that is put under a new path comes last, one under a known path keeps its place, and
/// all others stay where they are.
pub proof fn files_keep_their_places(
    files: Seq<FileModel>,
    path: Seq<char>,
    bytes: Seq<u8>,
    i: int,
)
    requires
        distinct_paths(files),
        0 <= i < files.len(),
    ensures
        upsert_files(files, path, Some(bytes))[i] == if files[i].0 == path {
            (path, bytes)
        } else {
            files[i]
        },
        upsert_files(files, path, Some(bytes)).len() == files.len() + if exists|k: int|
            0 <= k < files.len() && (#[trigger] files[k]).0 == path {
            0int
        } else {
            1
        },
{
    if files[i].0 == path {
        assert(has_path(files, path));
        let k = position_of(files, path);
        assert(files[k].0 == path);
        assert(k == i);
    }
    if has_path(files, path) {
        let k = position_of(files, path);
        assert(files[k].0 == path);
    }
}

} // verus!
