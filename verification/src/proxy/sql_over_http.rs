//! Queries over HTTP: how a request is read, how its queries are run, and what is answered.
use vstd::prelude::*;
use vstd::utf8::*;

use crate::base::text;
use crate::proxy::conn_info::MonitoringModel;
use crate::proxy::conn_info::RequestMonitoring;
use crate::proxy::http_parts;

verus! {

/// The greatest response, in bytes: 10 MiB.
pub const MAX_RESPONSE_SIZE: usize = 10485760;

/// The greatest request, in bytes: 10 MiB.
pub const MAX_REQUEST_SIZE: u64 = 10485760;

/// A query with its parameters, in the text format of Postgres.
pub struct QueryData {
    pub query: String,
    pub params: Vec<Option<String>>,
    /// Whether rows come as arrays; none where the request decides for all queries.
    pub array_mode: Option<bool>,
}

/// What a request asks for.
pub enum Payload {
    Single(QueryData),
    Batch(Vec<QueryData>),
}

/// How far the transactions of a database are isolated.
#[derive(Clone, Copy, Debug, PartialEq, Eq, Structural)]
pub enum IsolationLevel {
    ReadUncommitted,
    ReadCommitted,
    RepeatableRead,
    Serializable,
}

/// What the headers of a request say of how it is to be handled.
pub struct RequestOptions {
    /// Values are not converted.
    pub raw_output: bool,
    /// Rows come as arrays unless a query says otherwise.
    pub default_array_mode: bool,
    /// A connection may come from the pool and go back to it.
    pub allow_pool: bool,
    pub txn_isolation_level: Option<IsolationLevel>,
    /// The isolation level as it was given.
    pub txn_isolation_level_raw: Option<Vec<u8>>,
    pub txn_read_only: bool,
    pub txn_deferrable: bool,
}

/// Why a request is refused before its queries are run.
#[derive(Clone, Copy, Debug, PartialEq, Eq, Structural)]
pub enum RequestError {
    InvalidIsolationLevel,
    TooLarge,
}

/// The error in words.
pub open spec fn request_error_text(e: RequestError) -> Seq<char> {
    match e {
        RequestError::InvalidIsolationLevel => "invalid isolation level"@,
        RequestError::TooLarge => "request is too large (max is 10485760 bytes)"@,
    }
}

impl RequestError {
    /// The error in words.
    pub fn to_text(&self) -> (r: &'static str)
        ensures
            r@ == request_error_text(*self),
    {
        match self {
            RequestError::InvalidIsolationLevel => "invalid isolation level",
            RequestError::TooLarge => "request is too large (max is 10485760 bytes)",
        }
    }
}

/// Whether a header has a value.
pub open spec fn header_is(
    contents: Map<Seq<char>, Seq<u8>>,
    name: Seq<char>,
    value: Seq<u8>,
) -> bool {
    contents.dom().contains(name) && contents[name] == value
}

/// Whether a header is strictly `true`.
pub open spec fn header_is_true(contents: Map<Seq<char>, Seq<u8>>, name: Seq<char>) -> bool {
    header_is(contents, name, seq![0x74u8, 0x72u8, 0x75u8, 0x65u8])
}

/// The isolation level of a name.
pub open spec fn isolation_level_named(name: Seq<char>) -> Option<IsolationLevel> {
    if name == "Serializable"@ {
        Some(IsolationLevel::Serializable)
    } else if name == "ReadUncommitted"@ {
        Some(IsolationLevel::ReadUncommitted)
    } else if name == "ReadCommitted"@ {
        Some(IsolationLevel::ReadCommitted)
    } else if name == "RepeatableRead"@ {
        Some(IsolationLevel::RepeatableRead)
    } else {
        None
    }
}

/// The isolation level of a name.
fn isolation_level(name: &str) -> (r: Option<IsolationLevel>)
    ensures
        r == isolation_level_named(name@),
{
    if text::same_text(name, "Serializable") {
        Some(IsolationLevel::Serializable)
    } else if text::same_text(name, "ReadUncommitted") {
        Some(IsolationLevel::ReadUncommitted)
    } else if text::same_text(name, "ReadCommitted") {
        Some(IsolationLevel::ReadCommitted)
    } else if text::same_text(name, "RepeatableRead") {
        Some(IsolationLevel::RepeatableRead)
    } else {
        None
    }
}

/// Whether bytes are the word `true`.
fn is_true(bytes: &[u8]) -> (r: bool)
    ensures
        r == (bytes@ == seq![0x74u8, 0x72u8, 0x75u8, 0x65u8]),
{
    let r = bytes.len() == 4 && bytes[0] == 0x74 && bytes[1] == 0x72 && bytes[2] == 0x75
        && bytes[3] == 0x65;
    if r {
        assert(bytes@ =~= seq![0x74u8, 0x72u8, 0x75u8, 0x65u8]);
    }
    r
}

/// Whether a header is strictly `true`; anything else counts as false.
fn header_flag(headers: &hyper::HeaderMap<hyper::http::HeaderValue>, name: &str) -> (r: bool)
    requires
        http_parts::is_plain_name(name@),
    ensures
        r == header_is_true(http_parts::header_contents(*headers), name@),
{
    match http_parts::header_get(headers, name) {
        Some(value) => is_true(http_parts::header_bytes(value)),
        None => false,
    }
}

/// What headers say of the isolation level: none where they say nothing, an error where they
/// name none that exists.
pub open spec fn headers_isolation(contents: Map<Seq<char>, Seq<u8>>) -> Result<
    Option<IsolationLevel>,
    RequestError,
> {
    let name = "neon-batch-isolation-level"@;
    if !contents.dom().contains(name) {
        Ok(None)
    } else if http_parts::all_visible(contents[name]) && isolation_level_named(
        http_parts::ascii_text(contents[name]),
    ) is Some {
        Ok(isolation_level_named(http_parts::ascii_text(contents[name])))
    } else {
        Err(RequestError::InvalidIsolationLevel)
    }
}

/// Whether options are those that headers say.
pub open spec fn options_match(
    o: RequestOptions,
    contents: Map<Seq<char>, Seq<u8>>,
    pool_opt_in: bool,
) -> bool {
    &&& o.raw_output == header_is_true(contents, "neon-raw-text-output"@)
    &&& o.default_array_mode == header_is_true(contents, "neon-array-mode"@)
    &&& o.allow_pool == (!pool_opt_in || header_is_true(contents, "neon-pool-opt-in"@))
    &&& Ok::<Option<IsolationLevel>, RequestError>(o.txn_isolation_level) == headers_isolation(
        contents,
    )
    &&& match o.txn_isolation_level_raw {
        Some(raw) => header_is(contents, "neon-batch-isolation-level"@, raw@),
        None => !contents.dom().contains("neon-batch-isolation-level"@),
    }
    &&& o.txn_read_only == header_is_true(contents, "neon-batch-read-only"@)
    &&& o.txn_deferrable == header_is_true(contents, "neon-batch-deferrable"@)
}

/// Reads the options of a request.  Connection pooling is allowed only if explicitly
/// requested, or if the pool is not opt-in.
pub fn request_options(
    headers: &hyper::HeaderMap<hyper::http::HeaderValue>,
    pool_opt_in: bool,
) -> (r: Result<RequestOptions, RequestError>)
    ensures
        match r {
            Ok(o) => options_match(o, http_parts::header_contents(*headers), pool_opt_in),
            Err(e) => headers_isolation(http_parts::header_contents(*headers)) == Err::<
                Option<IsolationLevel>,
                RequestError,
            >(e),
        },
        r is Ok <==> headers_isolation(http_parts::header_contents(*headers)) is Ok,
        r matches Ok(o) ==> {
            let c = http_parts::header_contents(*headers);
            let yes = seq![0x74u8, 0x72u8, 0x75u8, 0x65u8];
            &&& o.raw_output <==> c.dom().contains("neon-raw-text-output"@)
                && c["neon-raw-text-output"@] == yes
            &&& o.default_array_mode <==> c.dom().contains("neon-array-mode"@)
                && c["neon-array-mode"@] == yes
            &&& o.allow_pool <==> !pool_opt_in || (c.dom().contains("neon-pool-opt-in"@)
                && c["neon-pool-opt-in"@] == yes)
            &&& o.txn_read_only <==> c.dom().contains("neon-batch-read-only"@)
                && c["neon-batch-read-only"@] == yes
            &&& o.txn_deferrable <==> c.dom().contains("neon-batch-deferrable"@)
                && c["neon-batch-deferrable"@] == yes
            &&& o.txn_isolation_level is Some <==> c.dom().contains("neon-batch-isolation-level"@)
            &&& o.txn_isolation_level_raw is Some <==> c.dom().contains(
                "neon-batch-isolation-level"@,
            )
            &&& o.txn_isolation_level_raw matches Some(raw) ==> raw@
                == c["neon-batch-isolation-level"@]
        },
{
    proof {
        isolation_levels_go_by_name(http_parts::header_contents(*headers));
        reveal_strlit("neon-raw-text-output");
        reveal_strlit("neon-array-mode");
        reveal_strlit("neon-pool-opt-in");
        reveal_strlit("neon-batch-isolation-level");
        reveal_strlit("neon-batch-read-only");
        reveal_strlit("neon-batch-deferrable");
        assert(http_parts::is_plain_name("neon-raw-text-output"@));
        assert(http_parts::is_plain_name("neon-array-mode"@));
        assert(http_parts::is_plain_name("neon-pool-opt-in"@));
        assert(http_parts::is_plain_name("neon-batch-isolation-level"@));
        assert(http_parts::is_plain_name("neon-batch-read-only"@));
        assert(http_parts::is_plain_name("neon-batch-deferrable"@));
    }
    let raw_output = header_flag(headers, "neon-raw-text-output");
    let default_array_mode = header_flag(headers, "neon-array-mode");
    let allow_pool = !pool_opt_in || header_flag(headers, "neon-pool-opt-in");
    let mut txn_isolation_level: Option<IsolationLevel> = None;
    let mut txn_isolation_level_raw: Option<Vec<u8>> = None;
    match http_parts::header_get(headers, "neon-batch-isolation-level") {
        Some(value) => {
            let named = match http_parts::header_to_str(value) {
                Some(name) => isolation_level(name.as_str()),
                None => None,
            };
            if named.is_none() {
                return Err(RequestError::InvalidIsolationLevel);
            }
            txn_isolation_level = named;
            txn_isolation_level_raw = Some(
                vstd::slice::slice_to_vec(http_parts::header_bytes(value)),
            );
        },
        None => {},
    }
    let txn_read_only = header_flag(headers, "neon-batch-read-only");
    let txn_deferrable = header_flag(headers, "neon-batch-deferrable");
    Ok(
        RequestOptions {
            raw_output,
            default_array_mode,
            allow_pool,
            txn_isolation_level,
            txn_isolation_level_raw,
            txn_read_only,
            txn_deferrable,
        },
    )
}

/// The size that a request may have: the upper bound that is known of it, or else one that
/// is too large.
pub open spec fn request_size(upper: Option<u64>) -> u64 {
    match upper {
        Some(v) => v,
        None => (MAX_REQUEST_SIZE + 1) as u64,
    }
}

/// The size that a request may have.
pub fn request_content_length(upper: Option<u64>) -> (r: u64)
    ensures
        r == request_size(upper),
{
    match upper {
        Some(v) => v,
        None => MAX_REQUEST_SIZE + 1,
    }
}

/// Refuses a request that is too large, or whose size is not known: requests are read as a
/// whole.
pub fn check_request_size(upper: Option<u64>) -> (r: Result<u64, RequestError>)
    ensures
        r == if request_size(upper) > MAX_REQUEST_SIZE {
            Err::<u64, RequestError>(RequestError::TooLarge)
        } else {
            Ok::<u64, RequestError>(request_size(upper))
        },
        r is Ok <==> (upper matches Some(n) && n <= 10_485_760),
        r matches Ok(n) ==> upper == Some(n),
{
    let length = request_content_length(upper);
    if length > MAX_REQUEST_SIZE {
        return Err(RequestError::TooLarge);
    }
    Ok(length)
}

/// Checks a request before its queries are run: first its options, then its size.
pub fn prepare_request(
    headers: &hyper::HeaderMap<hyper::http::HeaderValue>,
    pool_opt_in: bool,
    upper: Option<u64>,
) -> (r: Result<RequestOptions, RequestError>)
    ensures
        ({
            let contents = http_parts::header_contents(*headers);
            match headers_isolation(contents) {
                Err(e) => r == Err::<RequestOptions, RequestError>(e),
                Ok(_) => if request_size(upper) > MAX_REQUEST_SIZE {
                    r == Err::<RequestOptions, RequestError>(RequestError::TooLarge)
                } else {
                    r matches Ok(o) && options_match(o, contents, pool_opt_in)
                },
            }
        }),
        r is Ok ==> (upper matches Some(n) && n <= 10_485_760),
        r == Err::<RequestOptions, RequestError>(RequestError::TooLarge) ==> (upper matches Some(n)
            ==> n > 10_485_760),
{
    let options = match request_options(headers, pool_opt_in) {
        Ok(options) => options,
        Err(e) => {
            return Err(e);
        },
    };
    match check_request_size(upper) {
        Ok(_) => Ok(options),
        Err(e) => Err(e),
    }
}

/// The response is too large.
#[derive(Clone, Copy, Debug, PartialEq, Eq, Structural)]
pub struct ResponseTooLarge;

impl ResponseTooLarge {
    /// The error in words.
    pub fn to_text(&self) -> (r: &'static str)
        ensures
            r@ == "response is too large (max is 10485760 bytes)"@,
    {
        "response is too large (max is 10485760 bytes)"
    }
}

/// The bytes of the rows that have been read for a response.  The queries of a batch share
/// one.
pub struct ResponseSize {
    pub bytes: usize,
}

impl ResponseSize {
    /// Nothing has been read.
    pub fn new() -> (r: ResponseSize)
        ensures
            r.bytes == 0,
    {
        ResponseSize { bytes: 0 }
    }

    /// Takes note of a row; no more are read when the response is too large.
    pub fn row_read(&mut self, body_len: usize) -> (r: Result<(), ResponseTooLarge>)
        requires
            old(self).bytes + body_len <= usize::MAX,
        ensures
            final(self).bytes == old(self).bytes + body_len,
            r is Ok <==> final(self).bytes <= MAX_RESPONSE_SIZE,
            r is Ok <==> old(self).bytes + body_len <= 10_485_760,
    {
        self.bytes = self.bytes + body_len;
        if self.bytes > MAX_RESPONSE_SIZE {
            return Err(ResponseTooLarge);
        }
        Ok(())
    }
}

/// A text cut at its spaces.
pub open spec fn words(s: Seq<char>) -> Seq<Seq<char>>
    decreases s.len(),
{
    if s.len() == 0 {
        seq![Seq::empty()]
    } else {
        let front = words(s.drop_last());
        if s.last() == ' ' {
            front.push(Seq::empty())
        } else {
            front.drop_last().push(front.last().push(s.last()))
        }
    }
}

/// The command that a command tag names: its first word.
pub open spec fn tag_name(tag: Seq<char>) -> Seq<char> {
    words(tag)[0]
}

/// The number of rows that a command tag gives: for inserts the third word, as the object
/// identifier comes first, otherwise the second.
pub open spec fn tag_count(tag: Seq<char>) -> Option<int> {
    let at: int = if tag_name(tag) == "INSERT"@ {
        2
    } else {
        1
    };
    if at < words(tag).len() {
        text::signed_value(words(tag)[at])
    } else {
        None
    }
}

/// A text has at least one word.
proof fn lemma_words_nonempty(s: Seq<char>)
    ensures
        words(s).len() >= 1,
    decreases s.len(),
{
    if s.len() > 0 {
        lemma_words_nonempty(s.drop_last());
    }
}

/// Where the words of a text begin and end.
fn word_ranges(s: &Vec<char>) -> (r: Vec<(usize, usize)>)
    ensures
        r@.len() == words(s@).len(),
        r@.len() >= 1,
        forall|j: int|
            0 <= j < r@.len() ==> (#[trigger] r@[j]).0 <= r@[j].1 <= s@.len() && words(s@)[j]
                == s@.subrange(r@[j].0 as int, r@[j].1 as int),
{
    let mut r: Vec<(usize, usize)> = Vec::new();
    let mut start: usize = 0;
    let mut i: usize = 0;
    assert(s@.take(0) =~= Seq::<char>::empty());
    assert(s@.subrange(0, 0) =~= Seq::<char>::empty());
    while i < s.len()
        invariant
            start <= i <= s@.len(),
            words(s@.take(i as int)).len() == r@.len() + 1,
            words(s@.take(i as int)).last() == s@.subrange(start as int, i as int),
            forall|j: int|
                0 <= j < r@.len() ==> (#[trigger] r@[j]).0 <= r@[j].1 <= s@.len() && words(
                    s@.take(i as int),
                )[j] == s@.subrange(r@[j].0 as int, r@[j].1 as int),
        decreases s@.len() - i,
    {
        let ghost before = words(s@.take(i as int));
        assert(s@.take(i + 1).drop_last() =~= s@.take(i as int));
        assert(s@.take(i + 1).last() == s@[i as int]);
        if s[i] == ' ' {
            r.push((start, i));
            start = i + 1;
            assert(s@.subrange(i + 1, i + 1) =~= Seq::<char>::empty());
        } else {
            assert(s@.subrange(start as int, i + 1) =~= s@.subrange(start as int, i as int).push(
                s@[i as int],
            ));
        }
        i += 1;
    }
    assert(s@.take(i as int) =~= s@);
    r.push((start, i));
    r
}

/// What a command tag says.
pub struct CommandTag {
    pub name: String,
    pub count: Option<i64>,
}

/// Reads a command tag: the command and the number of rows affected.
pub fn parse_command_tag(tag: &str) -> (r: CommandTag)
    ensures
        r.name@ == tag_name(tag@),
        match r.count {
            Some(n) => tag_count(tag@) == Some(n as int),
            None => tag_count(tag@) is None,
        },
{
    let chars = text::chars_of(tag);
    let ranges = word_ranges(&chars);
    let name = tag.substring_char(ranges[0].0, ranges[0].1);
    let at: usize = if text::same_text(name, "INSERT") {
        // INSERT returns OID first and then number of rows
        2
    } else {
        // other commands return number of rows (if any)
        1
    };
    let count = if at < ranges.len() {
        text::parse_signed(tag.substring_char(ranges[at].0, ranges[at].1))
    } else {
        None
    };
    CommandTag { name: String::from_str(name), count }
}

/// A text without spaces is one word.
proof fn lemma_one_word(s: Seq<char>)
    requires
        !s.contains(' '),
    ensures
        words(s) == seq![s],
    decreases s.len(),
{
    if s.len() > 0 {
        let front = s.drop_last();
        assert forall|i: int| 0 <= i < front.len() implies front[i] != ' ' by {
            assert(s[i] != ' ');
        }
        lemma_one_word(front);
        assert(s.last() == s[s.len() - 1]);
        assert(front.push(s.last()) =~= s);
        assert(seq![front].drop_last() =~= Seq::<Seq<char>>::empty());
        assert(words(s) =~= seq![s]);
    } else {
        assert(s =~= Seq::<char>::empty());
    }
}

/// A word behind a space is one word more.
proof fn lemma_word_behind(a: Seq<char>, b: Seq<char>)
    requires
        !b.contains(' '),
    ensures
        words(a.push(' ') + b) == words(a).push(b),
    decreases b.len(),
{
    lemma_words_nonempty(a);
    let s = a.push(' ') + b;
    if b.len() == 0 {
        assert(s =~= a.push(' '));
        assert(s.drop_last() =~= a);
        assert(b =~= Seq::<char>::empty());
    } else {
        let front = b.drop_last();
        assert forall|i: int| 0 <= i < front.len() implies front[i] != ' ' by {
            assert(b[i] != ' ');
        }
        lemma_word_behind(a, front);
        assert(s.drop_last() =~= a.push(' ') + front);
        assert(s.last() == b[b.len() - 1]);
        assert(front.push(b.last()) =~= b);
        assert(words(a).push(front).drop_last() =~= words(a));
        assert(words(s) =~= words(a).push(b));
    }
}

/// Decimal digits hold no space, and read as the number.
proof fn lemma_decimal_word(n: nat)
    requires
        n <= i64::MAX,
    ensures
        !text::decimal(n).contains(' '),
        text::signed_value(text::decimal(n)) == Some(n as int),
{
    text::decimal_round_trip(n);
    let s = text::decimal(n);
    assert forall|i: int| 0 <= i < s.len() implies s[i] != ' ' by {
        assert(text::is_digit(s[i]));
    }
    assert(text::is_digit(s[0]));
    assert(text::unsigned_value(s, i64::MAX as nat) == Some(n));
}

/// The number of rows is read back from the command tags that Postgres writes: the command
/// and the number, with an object identifier in between for inserts.
pub proof fn counts_are_read_back(name: Seq<char>, oid: nat, n: nat)
    requires
        !name.contains(' '),
        oid <= i64::MAX,
        n <= i64::MAX,
    ensures
        name != "INSERT"@ ==> {
            let tag = name.push(' ') + text::decimal(n);
            tag_name(tag) == name && tag_count(tag) == Some(n as int)
        },
        name == "INSERT"@ ==> {
            let tag = (name.push(' ') + text::decimal(oid)).push(' ') + text::decimal(n);
            tag_name(tag) == name && tag_count(tag) == Some(n as int)
        },
        tag_name(name) == name,
        tag_count(name) is None,
{
    lemma_one_word(name);
    lemma_decimal_word(oid);
    lemma_decimal_word(n);
    lemma_word_behind(name, text::decimal(n));
    lemma_word_behind(name, text::decimal(oid));
    lemma_word_behind(name.push(' ') + text::decimal(oid), text::decimal(n));
}

/// A column of a result.
pub struct ResultField {
    pub name: String,
    pub data_type_id: u32,
    pub table_id: Option<u32>,
    pub column_id: Option<i16>,
    pub data_type_size: i16,
    pub data_type_modifier: i32,
}

/// The result of a query, with its rows.
pub struct QueryResult<R> {
    pub command: String,
    pub row_count: Option<i64>,
    pub rows: Vec<R>,
    pub fields: Vec<ResultField>,
    pub row_as_array: bool,
}

/// Whether the rows of a query come as arrays.
pub open spec fn array_mode_of(array_mode: Option<bool>, default_array_mode: bool) -> bool {
    match array_mode {
        Some(mode) => mode,
        None => default_array_mode,
    }
}

/// Whether the rows of a query come as arrays: as the query says, or else as the request does.
pub fn query_array_mode(array_mode: Option<bool>, default_array_mode: bool) -> (r: bool)
    ensures
        r == array_mode_of(array_mode, default_array_mode),
        array_mode matches Some(mode) ==> r == mode,
        array_mode is None ==> r == default_array_mode,
{
    match array_mode {
        Some(mode) => mode,
        None => default_array_mode,
    }
}

/// Puts the result of a query together.  A query without a command tag counts as one with an
/// empty tag.
pub fn query_to_json<R>(
    command_tag: Option<String>,
    rows: Vec<R>,
    fields: Vec<ResultField>,
    array_mode: Option<bool>,
    default_array_mode: bool,
) -> (r: QueryResult<R>)
    ensures
        ({
            let tag = match command_tag {
                Some(tag) => tag@,
                None => Seq::<char>::empty(),
            };
            &&& r.command@ == tag_name(tag)
            &&& match r.row_count {
                Some(n) => tag_count(tag) == Some(n as int),
                None => tag_count(tag) is None,
            }
        }),
        r.rows == rows,
        r.fields == fields,
        r.row_as_array == array_mode_of(array_mode, default_array_mode),
        array_mode matches Some(mode) ==> r.row_as_array == mode,
        array_mode is None ==> r.row_as_array == default_array_mode,
{
    let tag = match command_tag {
        Some(tag) => tag,
        None => String::new(),
    };
    let parsed = parse_command_tag(tag.as_str());
    QueryResult {
        command: parsed.name,
        row_count: parsed.count,
        rows,
        fields,
        row_as_array: query_array_mode(array_mode, default_array_mode),
    }
}

/// The state of a connection after a query.
#[derive(Clone, Copy, Debug, PartialEq, Eq, Structural)]
pub enum ReadyForQueryStatus {
    Idle,
    Transaction,
    FailedTransaction,
}

/// What becomes of a connection that was used for a request.
#[derive(Clone, Copy, Debug, PartialEq, Eq, Structural)]
pub enum PoolAction {
    /// It is not used again.
    Discard,
    /// It may be used again if its state is idle.
    CheckIdle(ReadyForQueryStatus),
}

/// What a transaction that runs a batch of queries has come to.
pub enum TxnEvent<E> {
    Started,
    StartFailed(E),
    QueriesSucceeded,
    QueriesFailed(E),
    Committed(ReadyForQueryStatus),
    CommitFailed(E),
    RolledBack(ReadyForQueryStatus),
    RollbackFailed(E),
}

/// What a batch does next.
pub enum TxnStep<E> {
    RunQueries,
    Commit,
    Rollback,
    /// Answer with the results.
    Answer(PoolAction),
    /// Answer with an error.
    Fail(PoolAction, E),
}

/// What a batch is waiting for.
pub enum BatchState<E> {
    Starting,
    Running,
    Committing,
    /// The queries have failed with this error.
    RollingBack(E),
    Ended,
}

/// Whether an event can come in a state.
pub open spec fn event_fits<E>(state: BatchState<E>, event: TxnEvent<E>) -> bool {
    match event {
        TxnEvent::Started => state is Starting,
        TxnEvent::StartFailed(_) => state is Starting,
        TxnEvent::QueriesSucceeded => state is Running,
        TxnEvent::QueriesFailed(_) => state is Running,
        TxnEvent::Committed(_) => state is Committing,
        TxnEvent::CommitFailed(_) => state is Committing,
        TxnEvent::RolledBack(_) => state is RollingBack,
        TxnEvent::RollbackFailed(_) => state is RollingBack,
    }
}

/// The state after an event, and what to do.
pub open spec fn batch_next<E>(state: BatchState<E>, event: TxnEvent<E>) -> (
    BatchState<E>,
    TxnStep<E>,
) {
    match event {
        TxnEvent::Started => (BatchState::Running, TxnStep::RunQueries),
        TxnEvent::StartFailed(e) => (BatchState::Ended, TxnStep::Fail(PoolAction::Discard, e)),
        TxnEvent::QueriesSucceeded => (BatchState::Committing, TxnStep::Commit),
        TxnEvent::QueriesFailed(e) => (BatchState::RollingBack(e), TxnStep::Rollback),
        TxnEvent::Committed(status) => (
            BatchState::Ended,
            TxnStep::Answer(PoolAction::CheckIdle(status)),
        ),
        TxnEvent::CommitFailed(e) => (BatchState::Ended, TxnStep::Fail(PoolAction::Discard, e)),
        TxnEvent::RolledBack(status) => (
            BatchState::Ended,
            TxnStep::Fail(PoolAction::CheckIdle(status), state->RollingBack_0),
        ),
        TxnEvent::RollbackFailed(e) => (BatchState::Ended, TxnStep::Fail(PoolAction::Discard, e)),
    }
}

/// Decides what a batch does after an event.  Queries that all succeeded are committed, others
/// are rolled back; a connection whose transaction could not be started or ended is discarded.
pub fn batch_step<E>(state: BatchState<E>, event: TxnEvent<E>) -> (r: (BatchState<E>, TxnStep<E>))
    requires
        event_fits(state, event),
    ensures
        r == batch_next(state, event),
{
    match (state, event) {
        (BatchState::Starting, TxnEvent::Started) => (BatchState::Running, TxnStep::RunQueries),
        (BatchState::Starting, TxnEvent::StartFailed(e)) => (
            BatchState::Ended,
            TxnStep::Fail(PoolAction::Discard, e),
        ),
        (BatchState::Running, TxnEvent::QueriesSucceeded) => (
            BatchState::Committing,
            TxnStep::Commit,
        ),
        (BatchState::Running, TxnEvent::QueriesFailed(e)) => (
            BatchState::RollingBack(e),
            TxnStep::Rollback,
        ),
        (BatchState::Committing, TxnEvent::Committed(status)) => (
            BatchState::Ended,
            TxnStep::Answer(PoolAction::CheckIdle(status)),
        ),
        (BatchState::Committing, TxnEvent::CommitFailed(e)) => (
            BatchState::Ended,
            TxnStep::Fail(PoolAction::Discard, e),
        ),
        (BatchState::RollingBack(e), TxnEvent::RolledBack(status)) => (
            BatchState::Ended,
            TxnStep::Fail(PoolAction::CheckIdle(status), e),
        ),
        (BatchState::RollingBack(_), TxnEvent::RollbackFailed(e)) => (
            BatchState::Ended,
            TxnStep::Fail(PoolAction::Discard, e),
        ),
        _ => {
            assert(false);
            (BatchState::Ended, TxnStep::Commit)
        },
    }
}

/// What becomes of the connection after a single query.
pub fn single_outcome(status: Option<ReadyForQueryStatus>) -> (r: PoolAction)
    ensures
        r == match status {
            Some(status) => PoolAction::CheckIdle(status),
            None => PoolAction::Discard,
        },
{
    match status {
        Some(status) => PoolAction::CheckIdle(status),
        None => PoolAction::Discard,
    }
}

/// The states and steps that a run of events leads to.
pub open spec fn batch_run<E>(events: Seq<TxnEvent<E>>) -> (BatchState<E>, Option<TxnStep<E>>)
    decreases events.len(),
{
    if events.len() == 0 {
        (BatchState::Starting, None)
    } else {
        let (state, _) = batch_run(events.drop_last());
        let (next, step) = batch_next(state, events.last());
        (next, Some(step))
    }
}

/// Whether each event of a run fits the state that it comes in.
pub open spec fn run_fits<E>(events: Seq<TxnEvent<E>>) -> bool
    decreases events.len(),
{
    events.len() == 0 || (run_fits(events.drop_last()) && event_fits(
        batch_run(events.drop_last()).0,
        events.last(),
    ))
}

/// Results are answered only after all queries have succeeded and were committed; the answer
/// to queries that failed is their own error, unless they could not be rolled back.
pub proof fn results_are_committed<E>(events: Seq<TxnEvent<E>>)
    requires
        run_fits(events),
    ensures
        batch_run(events).1 matches Some(TxnStep::Answer(_)) ==> events.len() == 3
            && events[0] is Started && events[1] is QueriesSucceeded && events[2] is Committed,
        batch_run(events).0 is RollingBack ==> events.len() == 2 && events[0] is Started
            && events[1] == TxnEvent::QueriesFailed(batch_run(events).0->RollingBack_0),
        batch_run(events).0 is Ended <==> (batch_run(events).1 matches Some(step) && (step is Answer
            || step is Fail)),
        batch_run(events).0 is Starting ==> events.len() == 0,
        batch_run(events).0 is Running ==> events.len() == 1 && events[0] is Started,
        batch_run(events).0 is Committing ==> events.len() == 2 && events[0] is Started
            && events[1] is QueriesSucceeded,
        events.len() == 3 && events[1] is QueriesFailed && events[2] is RolledBack ==> (batch_run(
            events,
        ).1 matches Some(TxnStep::Fail(_, e)) && e == events[1]->QueriesFailed_0),
    decreases events.len(),
{
    if events.len() > 0 {
        let front = events.drop_last();
        results_are_committed(front);
        if events.len() >= 2 {
            assert(front[0] == events[0]);
        }
        if events.len() >= 3 {
            assert(front[1] == events[1]);
        }
    }
}

/// The headers that a batch is answered with, besides those of every answer: what was asked
/// of the transaction, where it was.
pub open spec fn txn_headers(
    read_only: bool,
    deferrable: bool,
    isolation: Option<Seq<u8>>,
) -> Seq<(Seq<char>, Seq<u8>)> {
    let t = seq![0x74u8, 0x72u8, 0x75u8, 0x65u8];
    let none = Seq::<(Seq<char>, Seq<u8>)>::empty();
    let a = if read_only {
        none.push(("neon-batch-read-only"@, t))
    } else {
        none
    };
    let b = if deferrable {
        a.push(("neon-batch-deferrable"@, t))
    } else {
        a
    };
    match isolation {
        Some(raw) => b.push(("neon-batch-isolation-level"@, raw)),
        None => b,
    }
}

/// A header of an answer.
pub struct ResponseHeader {
    pub name: &'static str,
    pub value: Vec<u8>,
}

/// Headers as mathematical values.
pub open spec fn header_models(s: Seq<ResponseHeader>) -> Seq<(Seq<char>, Seq<u8>)> {
    Seq::new(s.len(), |i: int| (s[i].name@, s[i].value@))
}

/// The word `true`.
fn true_bytes() -> (r: Vec<u8>)
    ensures
        r@ == seq![0x74u8, 0x72u8, 0x75u8, 0x65u8],
{
    let mut r: Vec<u8> = Vec::new();
    r.push(0x74);
    r.push(0x72);
    r.push(0x75);
    r.push(0x65);
    r
}

/// Adds a header.
fn push_header(headers: &mut Vec<ResponseHeader>, name: &'static str, value: Vec<u8>)
    ensures
        header_models(final(headers)@) == header_models(old(headers)@).push((name@, value@)),
{
    headers.push(ResponseHeader { name, value });
    assert(header_models(headers@) =~= header_models(old(headers)@).push((name@, value@)));
}

/// The headers that a batch is answered with, besides those of every answer.
pub fn txn_response_headers(options: &RequestOptions) -> (r: Vec<ResponseHeader>)
    ensures
        header_models(r@) == txn_headers(
            options.txn_read_only,
            options.txn_deferrable,
            match options.txn_isolation_level_raw {
                Some(raw) => Some(raw@),
                None => None,
            },
        ),
{
    let mut r: Vec<ResponseHeader> = Vec::new();
    assert(header_models(r@) =~= Seq::<(Seq<char>, Seq<u8>)>::empty());
    if options.txn_read_only {
        push_header(&mut r, "neon-batch-read-only", true_bytes());
    }
    if options.txn_deferrable {
        push_header(&mut r, "neon-batch-deferrable", true_bytes());
    }
    match &options.txn_isolation_level_raw {
        Some(raw) => {
            let value = vstd::slice::slice_to_vec(raw.as_slice());
            push_header(&mut r, "neon-batch-isolation-level", value);
        },
        None => {},
    }
    r
}

/// Where in a query an error is.
pub enum ErrorPosition {
    /// In the query of the client.
    Original(u32),
    /// In a query that the database made.
    Internal { position: u32, query: String },
}

/// What Postgres says of an error.
pub struct DbError {
    pub message: String,
    pub code: String,
    pub severity: String,
    pub detail: Option<String>,
    pub hint: Option<String>,
    pub position: Option<ErrorPosition>,
    pub where_: Option<String>,
    pub schema: Option<String>,
    pub table: Option<String>,
    pub column: Option<String>,
    pub datatype: Option<String>,
    pub constraint: Option<String>,
    pub file: Option<String>,
    pub line: Option<u32>,
    pub routine: Option<String>,
}

/// An entry of an answer: a key, and a text or nothing.
pub struct ErrorEntry {
    pub key: &'static str,
    pub value: Option<String>,
}

/// Entries as mathematical values.
pub open spec fn entry_models(s: Seq<ErrorEntry>) -> Seq<(Seq<char>, Option<Seq<char>>)> {
    Seq::new(s.len(), |i: int| (s[i].key@, http_parts::optional_text(s[i].value)))
}

/// The position in the query of the client.
pub open spec fn original_position(e: Option<DbError>) -> Option<Seq<char>> {
    match e {
        Some(db) => match db.position {
            Some(ErrorPosition::Original(position)) => Some(text::decimal(position as nat)),
            _ => None,
        },
        None => None,
    }
}

/// The position in a query that the database made.
pub open spec fn internal_position(e: Option<DbError>) -> Option<Seq<char>> {
    match e {
        Some(db) => match db.position {
            Some(ErrorPosition::Internal { position, query }) => Some(
                text::decimal(position as nat),
            ),
            _ => None,
        },
        None => None,
    }
}

/// The query that the database made.
pub open spec fn internal_query(e: Option<DbError>) -> Option<Seq<char>> {
    match e {
        Some(db) => match db.position {
            Some(ErrorPosition::Internal { position, query }) => Some(query@),
            _ => None,
        },
        None => None,
    }
}

/// A text of an error, where there is an error of the database.
pub open spec fn db_field(
    e: Option<DbError>,
    field: spec_fn(DbError) -> Option<Seq<char>>,
) -> Option<Seq<char>> {
    match e {
        Some(db) => field(db),
        None => None,
    }
}

/// What a client is told of an error: what Postgres says, where it does, or else the error's
/// own words.
pub open spec fn error_entries(message: Seq<char>, e: Option<DbError>) -> Seq<
    (Seq<char>, Option<Seq<char>>),
> {
    seq![
        (
            "message"@,
            Some(
                match e {
                    Some(db) => db.message@,
                    None => message,
                },
            ),
        ),
        ("code"@, db_field(e, |db: DbError| Some(db.code@))),
        ("detail"@, db_field(e, |db: DbError| http_parts::optional_text(db.detail))),
        ("hint"@, db_field(e, |db: DbError| http_parts::optional_text(db.hint))),
        ("position"@, original_position(e)),
        ("internalPosition"@, internal_position(e)),
        ("internalQuery"@, internal_query(e)),
        ("severity"@, db_field(e, |db: DbError| Some(db.severity@))),
        ("where"@, db_field(e, |db: DbError| http_parts::optional_text(db.where_))),
        ("table"@, db_field(e, |db: DbError| http_parts::optional_text(db.table))),
        ("column"@, db_field(e, |db: DbError| http_parts::optional_text(db.column))),
        ("schema"@, db_field(e, |db: DbError| http_parts::optional_text(db.schema))),
        ("dataType"@, db_field(e, |db: DbError| http_parts::optional_text(db.datatype))),
        ("constraint"@, db_field(e, |db: DbError| http_parts::optional_text(db.constraint))),
        ("file"@, db_field(e, |db: DbError| http_parts::optional_text(db.file))),
        (
            "line"@,
            db_field(
                e,
                |db: DbError|
                    match db.line {
                        Some(line) => Some(text::decimal(line as nat)),
                        None => None,
                    },
            ),
        ),
        ("routine"@, db_field(e, |db: DbError| http_parts::optional_text(db.routine))),
    ]
}

/// Adds an entry.
fn push_entry(entries: &mut Vec<ErrorEntry>, key: &'static str, value: Option<String>)
    ensures
        entry_models(final(entries)@) == entry_models(old(entries)@).push(
            (key@, http_parts::optional_text(value)),
        ),
{
    entries.push(ErrorEntry { key, value });
    assert(entry_models(entries@) =~= entry_models(old(entries)@).push(
        (key@, http_parts::optional_text(value)),
    ));
}

/// What a client is told of an error.
pub fn error_body(message: String, e: Option<DbError>) -> (r: Vec<ErrorEntry>)
    ensures
        entry_models(r@) == error_entries(message@, e),
{
    let ghost err = e;
    let mut r: Vec<ErrorEntry> = Vec::new();
    assert(entry_models(r@) =~= Seq::<(Seq<char>, Option<Seq<char>>)>::empty());
    match e {
        Some(db) => {
            let (position, internal_position, internal_query) = match db.position {
                Some(ErrorPosition::Original(position)) => (
                    Some(text::decimal_text(position as u64)),
                    None,
                    None,
                ),
                Some(ErrorPosition::Internal { position, query }) => (
                    None,
                    Some(text::decimal_text(position as u64)),
                    Some(query),
                ),
                None => (None, None, None),
            };
            let line = match db.line {
                Some(line) => Some(text::decimal_text(line as u64)),
                None => None,
            };
            push_entry(&mut r, "message", Some(db.message));
            push_entry(&mut r, "code", Some(db.code));
            push_entry(&mut r, "detail", db.detail);
            push_entry(&mut r, "hint", db.hint);
            push_entry(&mut r, "position", position);
            push_entry(&mut r, "internalPosition", internal_position);
            push_entry(&mut r, "internalQuery", internal_query);
            push_entry(&mut r, "severity", Some(db.severity));
            push_entry(&mut r, "where", db.where_);
            push_entry(&mut r, "table", db.table);
            push_entry(&mut r, "column", db.column);
            push_entry(&mut r, "schema", db.schema);
            push_entry(&mut r, "dataType", db.datatype);
            push_entry(&mut r, "constraint", db.constraint);
            push_entry(&mut r, "file", db.file);
            push_entry(&mut r, "line", line);
            push_entry(&mut r, "routine", db.routine);
        },
        None => {
            push_entry(&mut r, "message", Some(message));
            push_entry(&mut r, "code", None);
            push_entry(&mut r, "detail", None);
            push_entry(&mut r, "hint", None);
            push_entry(&mut r, "position", None);
            push_entry(&mut r, "internalPosition", None);
            push_entry(&mut r, "internalQuery", None);
            push_entry(&mut r, "severity", None);
            push_entry(&mut r, "where", None);
            push_entry(&mut r, "table", None);
            push_entry(&mut r, "column", None);
            push_entry(&mut r, "schema", None);
            push_entry(&mut r, "dataType", None);
            push_entry(&mut r, "constraint", None);
            push_entry(&mut r, "file", None);
            push_entry(&mut r, "line", None);
            push_entry(&mut r, "routine", None);
        },
    }
    assert(entry_models(r@) =~= error_entries(message@, err));
    r
}

/// An answer: its status, its headers and its body.
pub struct Answer<A> {
    pub status: u16,
    pub headers: Vec<ResponseHeader>,
    pub body: A,
}

/// The header that says that a body is JSON.
pub open spec fn json_header() -> (Seq<char>, Seq<u8>) {
    ("content-type"@, encode_utf8("application/json"@))
}

/// The header by which any page may read an answer.
pub open spec fn open_header() -> (Seq<char>, Seq<u8>) {
    ("Access-Control-Allow-Origin"@, seq![0x2au8])
}

/// The headers of an answer that has no others than that its body is JSON.
fn json_headers() -> (r: Vec<ResponseHeader>)
    ensures
        header_models(r@) == seq![json_header()],
{
    let mut r: Vec<ResponseHeader> = Vec::new();
    assert(header_models(r@) =~= Seq::<(Seq<char>, Seq<u8>)>::empty());
    push_header(&mut r, "content-type", vstd::slice::slice_to_vec("application/json".as_bytes()));
    assert(header_models(r@) =~= seq![json_header()]);
    r
}

/// The answer to a request that has succeeded.  A batch is answered with the settings of its
/// transaction.
pub fn success_answer<A>(options: &RequestOptions, batch: bool, body: A) -> (r: Answer<A>)
    ensures
        r.status == 200,
        header_models(r.headers@) == seq![json_header()] + if batch {
            txn_headers(
                options.txn_read_only,
                options.txn_deferrable,
                match options.txn_isolation_level_raw {
                    Some(raw) => Some(raw@),
                    None => None,
                },
            )
        } else {
            Seq::empty()
        },
        r.body == body,
{
    let mut headers = json_headers();
    let ghost first = header_models(headers@);
    if batch {
        let mut others = txn_response_headers(options);
        let ghost more = header_models(others@);
        headers.append(&mut others);
        assert(header_models(headers@) =~= first + more);
    } else {
        assert(first =~= first + Seq::empty());
    }
    Answer { status: 200, headers, body }
}

/// Whether two characters are the same but for the case of an ASCII letter.
pub open spec fn same_letter(a: char, b: char) -> bool {
    ||| a == b
    ||| 'A' <= a && a <= 'Z' && b as int == a as int + 32
    ||| 'A' <= b && b <= 'Z' && a as int == b as int + 32
}

/// Whether two header names are the same: their case does not matter.
pub open spec fn same_name(a: Seq<char>, b: Seq<char>) -> bool {
    &&& a.len() == b.len()
    &&& forall|i: int| 0 <= i < a.len() ==> same_letter(#[trigger] a[i], b[i])
}

/// Whether a character is the lower-case form of an ASCII letter.
fn is_lower_of(lower: char, upper: char) -> (r: bool)
    ensures
        r == ('A' <= upper && upper <= 'Z' && lower as int == upper as int + 32),
{
    'A' <= upper && upper <= 'Z' && 'a' <= lower && lower <= 'z' && lower as u32 == upper as u32 + 32
}

/// Whether two header names are the same.
fn is_same_name(a: &str, b: &str) -> (r: bool)
    ensures
        r == same_name(a@, b@),
{
    let xs = text::chars_of(a);
    let ys = text::chars_of(b);
    if xs.len() != ys.len() {
        return false;
    }
    let mut i: usize = 0;
    while i < xs.len()
        invariant
            xs@ == a@,
            ys@ == b@,
            xs@.len() == ys@.len(),
            i <= xs@.len(),
            forall|j: int| 0 <= j < i ==> same_letter(#[trigger] xs@[j], ys@[j]),
        decreases xs@.len() - i,
    {
        let c: char = xs[i];
        let d: char = ys[i];
        if !(c == d || is_lower_of(c, d) || is_lower_of(d, c)) {
            assert(!same_letter(xs@[i as int], ys@[i as int]));
            return false;
        }
        i += 1;
    }
    true
}

/// The headers with this one in place of any others of its name.
pub open spec fn with_header(
    headers: Seq<(Seq<char>, Seq<u8>)>,
    header: (Seq<char>, Seq<u8>),
) -> Seq<(Seq<char>, Seq<u8>)> {
    headers.filter(|h: (Seq<char>, Seq<u8>)| !same_name(h.0, header.0)).push(header)
}

/// Puts a header in place of any others of its name.
fn set_header(headers: Vec<ResponseHeader>, name: &'static str, value: Vec<u8>) -> (r: Vec<
    ResponseHeader,
>)
    ensures
        header_models(r@) == with_header(header_models(headers@), (name@, value@)),
{
    let ghost all = header_models(headers@);
    let ghost other = |h: (Seq<char>, Seq<u8>)| !same_name(h.0, name@);
    let mut r: Vec<ResponseHeader> = Vec::new();
    let mut i: usize = 0;
    proof {
        reveal(Seq::filter);
        assert(header_models(r@) =~= all.take(0).filter(other));
    }
    while i < headers.len()
        invariant
            i <= headers@.len(),
            all == header_models(headers@),
            other == (|h: (Seq<char>, Seq<u8>)| !same_name(h.0, name@)),
            header_models(r@) == all.take(i as int).filter(other),
        decreases headers@.len() - i,
    {
        if !is_same_name(headers[i].name, name) {
            push_header(
                &mut r,
                headers[i].name,
                vstd::slice::slice_to_vec(headers[i].value.as_slice()),
            );
        }
        proof {
            reveal(Seq::filter);
            assert(all.take(i + 1).drop_last() =~= all.take(i as int));
            assert(all.take(i + 1).last() == all[i as int]);
        }
        i += 1;
    }
    assert(all.take(i as int) =~= all);
    push_header(&mut r, name, value);
    r
}

/// How a request has ended.
pub enum RequestOutcome<A> {
    /// With an answer.
    Answered(Answer<A>),
    /// With an error: its words, and what Postgres says of it where it does.
    Failed { message: String, db_error: Option<DbError> },
    /// It took too long.
    TimedOut,
}

/// The body of what a client is answered.
pub enum ReplyBody<A> {
    Answer(A),
    /// The entries that describe the error.
    Error(Vec<ErrorEntry>),
    /// A message, and a code that repeats the status.
    Timeout { message: String, code: u16 },
}

/// What a client is told of a request that took too long.
pub open spec fn timeout_text(seconds: nat) -> Seq<char> {
    "HTTP-Connection timed out, execution time exeeded "@ + text::decimal(seconds) + " seconds"@
}

/// Decides what a client is answered, and records a request that has succeeded.  A request
/// that has failed is answered as a bad request, one that took too long as a timeout of the
/// gateway.  Any page may read the answer.
pub fn handle<A>(
    ctx: &mut RequestMonitoring,
    outcome: RequestOutcome<A>,
    timeout_seconds: u64,
) -> (r: Answer<ReplyBody<A>>)
    ensures
        final(ctx)@ == (MonitoringModel {
            success: old(ctx).success || outcome is Answered,
            ..old(ctx)@
        }),
        r.status == match outcome {
            RequestOutcome::Answered(answer) => answer.status,
            RequestOutcome::Failed { .. } => 400,
            RequestOutcome::TimedOut => 504,
        },
        header_models(r.headers@) == with_header(
            match outcome {
                RequestOutcome::Answered(answer) => header_models(answer.headers@),
                _ => seq![json_header()],
            },
            open_header(),
        ),
        header_models(r.headers@).contains(("Access-Control-Allow-Origin"@, seq![0x2au8])),
        match outcome {
            RequestOutcome::Answered(answer) => r.body == ReplyBody::Answer(answer.body),
            RequestOutcome::Failed { message, db_error } => r.body matches ReplyBody::Error(body)
                && entry_models(body@) == error_entries(message@, db_error),
            RequestOutcome::TimedOut => r.body matches ReplyBody::Timeout { message, code }
                && message@ == timeout_text(timeout_seconds as nat) && code == 504,
        },
        outcome is TimedOut ==> (r.body matches ReplyBody::Timeout { message, .. } && message@
            == "HTTP-Connection timed out, execution time exeeded "@ + text::decimal(
            timeout_seconds as nat,
        ) + " seconds"@),
        !(outcome is Answered) ==> header_models(r.headers@).contains(
            ("content-type"@, encode_utf8("application/json"@)),
        ),
        final(ctx).success <==> old(ctx).success || outcome is Answered,
{
    let (status, headers, body) = match outcome {
        RequestOutcome::Answered(answer) => {
            ctx.success = true;
            (answer.status, answer.headers, ReplyBody::Answer(answer.body))
        },
        RequestOutcome::Failed { message, db_error } => (
            400,
            json_headers(),
            ReplyBody::Error(error_body(message, db_error)),
        ),
        RequestOutcome::TimedOut => {
            let mut message = String::from_str(
                "HTTP-Connection timed out, execution time exeeded ",
            );
            let seconds = text::decimal_text(timeout_seconds);
            message.append(seconds.as_str());
            message.append(" seconds");
            (504, json_headers(), ReplyBody::Timeout { message, code: 504 })
        },
    };
    let mut any: Vec<u8> = Vec::new();
    any.push(0x2a);
    assert(any@ =~= seq![0x2au8]);
    let headers = set_header(headers, "Access-Control-Allow-Origin", any);
    assert(header_models(headers@).last() == open_header());
    proof {
        reveal_strlit("content-type");
        reveal_strlit("Access-Control-Allow-Origin");
        headers_are_replaced_by_name(
            seq![json_header()],
            open_header(),
            ("content-type"@, encode_utf8("application/json"@)),
        );
        assert(seq![json_header()][0] == json_header());
    }
    Answer { status, headers, body }
}

/// However a request has ended, the answer says once that any page may read it.
pub proof fn answers_are_open_once(headers: Seq<(Seq<char>, Seq<u8>)>, i: int)
    requires
        0 <= i < with_header(headers, open_header()).len(),
        same_name(with_header(headers, open_header())[i].0, open_header().0),
    ensures
        i == with_header(headers, open_header()).len() - 1,
        with_header(headers, open_header())[i] == open_header(),
{
    let header = open_header();
    let other = |h: (Seq<char>, Seq<u8>)| !same_name(h.0, header.0);
    if i < headers.filter(other).len() {
        headers.lemma_filter_pred(other, i);
    }
}

/// Each option of an accepted request is what its own header says: the flags are set exactly
/// where their header is `true`, the isolation level is the one that its header names.
pub proof fn options_follow_their_headers(
    o: RequestOptions,
    contents: Map<Seq<char>, Seq<u8>>,
    pool_opt_in: bool,
)
    requires
        options_match(o, contents, pool_opt_in),
    ensures
        ({
            let yes = seq![0x74u8, 0x72u8, 0x75u8, 0x65u8];
            let level = "neon-batch-isolation-level"@;
            &&& o.raw_output <==> contents.dom().contains("neon-raw-text-output"@)
                && contents["neon-raw-text-output"@] == yes
            &&& o.default_array_mode <==> contents.dom().contains("neon-array-mode"@)
                && contents["neon-array-mode"@] == yes
            &&& o.allow_pool <==> !pool_opt_in || (contents.dom().contains("neon-pool-opt-in"@)
                && contents["neon-pool-opt-in"@] == yes)
            &&& o.txn_read_only <==> contents.dom().contains("neon-batch-read-only"@)
                && contents["neon-batch-read-only"@] == yes
            &&& o.txn_deferrable <==> contents.dom().contains("neon-batch-deferrable"@)
                && contents["neon-batch-deferrable"@] == yes
            &&& o.txn_isolation_level is None <==> !contents.dom().contains(level)
            &&& o.txn_isolation_level == Some(IsolationLevel::Serializable) <==> contents.dom().contains(
                level,
            ) && http_parts::ascii_text(contents[level]) == "Serializable"@
            &&& o.txn_isolation_level == Some(IsolationLevel::RepeatableRead)
                <==> contents.dom().contains(level) && http_parts::ascii_text(contents[level])
                == "RepeatableRead"@
            &&& o.txn_isolation_level == Some(IsolationLevel::ReadCommitted)
                <==> contents.dom().contains(level) && http_parts::ascii_text(contents[level])
                == "ReadCommitted"@
            &&& o.txn_isolation_level == Some(IsolationLevel::ReadUncommitted)
                <==> contents.dom().contains(level) && http_parts::ascii_text(contents[level])
                == "ReadUncommitted"@
        }),
{
    isolation_levels_go_by_name(contents);
    lemma_level_names();
}

/// The names of the isolation levels are different.
proof fn lemma_level_names()
    ensures
        "Serializable"@ != "RepeatableRead"@,
        "Serializable"@ != "ReadCommitted"@,
        "Serializable"@ != "ReadUncommitted"@,
        "RepeatableRead"@ != "ReadCommitted"@,
        "RepeatableRead"@ != "ReadUncommitted"@,
        "ReadCommitted"@ != "ReadUncommitted"@,
{
    reveal_strlit("Serializable");
    reveal_strlit("RepeatableRead");
    reveal_strlit("ReadCommitted");
    reveal_strlit("ReadUncommitted");
    assert("Serializable"@[0] == 'S');
    assert("RepeatableRead"@[0] == 'R');
    assert("ReadCommitted"@[0] == 'R');
    assert("ReadUncommitted"@[0] == 'R');
    assert("RepeatableRead"@.len() == 14);
    assert("ReadCommitted"@.len() == 13);
    assert("ReadUncommitted"@.len() == 15);
}

/// Requests whose headers agree on one of the names have the same option for it, whatever
/// their other headers are.
pub proof fn options_depend_on_their_header_only(
    a: RequestOptions,
    b: RequestOptions,
    x: Map<Seq<char>, Seq<u8>>,
    y: Map<Seq<char>, Seq<u8>>,
    pool_opt_in: bool,
)
    requires
        options_match(a, x, pool_opt_in),
        options_match(b, y, pool_opt_in),
    ensures
        x.dom().contains("neon-raw-text-output"@) == y.dom().contains("neon-raw-text-output"@)
            && x["neon-raw-text-output"@] == y["neon-raw-text-output"@] ==> a.raw_output
            == b.raw_output,
        x.dom().contains("neon-array-mode"@) == y.dom().contains("neon-array-mode"@)
            && x["neon-array-mode"@] == y["neon-array-mode"@] ==> a.default_array_mode
            == b.default_array_mode,
        x.dom().contains("neon-pool-opt-in"@) == y.dom().contains("neon-pool-opt-in"@)
            && x["neon-pool-opt-in"@] == y["neon-pool-opt-in"@] ==> a.allow_pool == b.allow_pool,
        x.dom().contains("neon-batch-read-only"@) == y.dom().contains("neon-batch-read-only"@)
            && x["neon-batch-read-only"@] == y["neon-batch-read-only"@] ==> a.txn_read_only
            == b.txn_read_only,
        x.dom().contains("neon-batch-deferrable"@) == y.dom().contains("neon-batch-deferrable"@)
            && x["neon-batch-deferrable"@] == y["neon-batch-deferrable"@] ==> a.txn_deferrable
            == b.txn_deferrable,
        x.dom().contains("neon-batch-isolation-level"@) == y.dom().contains(
            "neon-batch-isolation-level"@,
        ) && x["neon-batch-isolation-level"@] == y["neon-batch-isolation-level"@]
            ==> a.txn_isolation_level == b.txn_isolation_level,
{
}

/// Headers are refused exactly where they name an isolation level that does not exist; without
/// a name there is no level.
pub proof fn isolation_levels_go_by_name(contents: Map<Seq<char>, Seq<u8>>)
    ensures
        ({
            let level = "neon-batch-isolation-level"@;
            let name = http_parts::ascii_text(contents[level]);
            &&& headers_isolation(contents) is Err <==> contents.dom().contains(level) && !(
            http_parts::all_visible(contents[level]) && (name == "Serializable"@ || name
                == "RepeatableRead"@ || name == "ReadCommitted"@ || name == "ReadUncommitted"@))
            &&& headers_isolation(contents) matches Err(e) ==> e
                == RequestError::InvalidIsolationLevel
            &&& headers_isolation(contents) == Ok::<Option<IsolationLevel>, RequestError>(None)
                <==> !contents.dom().contains(level)
            &&& headers_isolation(contents) matches Ok(Some(found)) ==> match found {
                IsolationLevel::Serializable => name == "Serializable"@,
                IsolationLevel::RepeatableRead => name == "RepeatableRead"@,
                IsolationLevel::ReadCommitted => name == "ReadCommitted"@,
                IsolationLevel::ReadUncommitted => name == "ReadUncommitted"@,
            }
        }),
{
}

/// A request whose size is not known counts as too large, any other as large as it is.
pub proof fn unknown_sizes_are_too_large(size: u64)
    ensures
        request_size(Some(size)) == size,
        request_size(None) > 10_485_760,
{
}

/// The words of a text, joined by spaces again, are the text, and none of them holds a space.
pub proof fn words_are_what_spaces_part(s: Seq<char>)
    ensures
        words(s).len() >= 1,
        forall|i: int| 0 <= i < words(s).len() ==> !(#[trigger] words(s)[i]).contains(' '),
        words(s).drop_last().fold_left(
            Seq::<char>::empty(),
            |joined: Seq<char>, word: Seq<char>| (joined + word).push(' '),
        ) + words(s).last() == s,
    decreases s.len(),
{
    let join = |joined: Seq<char>, word: Seq<char>| (joined + word).push(' ');
    if s.len() > 0 {
        let front = s.drop_last();
        words_are_what_spaces_part(front);
        let before = words(front);
        let all = words(s);
        if s.last() == ' ' {
            assert(all.drop_last() =~= before);
            assert(before.drop_last().push(before.last()) =~= before);
            reveal_with_fuel(Seq::fold_left, 2);
            assert(all.drop_last().fold_left(Seq::<char>::empty(), join) == (
            before.drop_last().fold_left(Seq::<char>::empty(), join) + before.last()).push(' '));
            assert(front.push(' ') =~= s);
            assert(all.drop_last().fold_left(Seq::<char>::empty(), join) + all.last() =~= s);
            assert forall|i: int| 0 <= i < all.len() implies !(#[trigger] all[i]).contains(' ') by {
                if i < before.len() {
                    assert(all[i] == before[i]);
                }
            }
        } else {
            assert(all.drop_last() =~= before.drop_last());
            let joined = before.drop_last().fold_left(Seq::<char>::empty(), join);
            assert(joined + before.last() == front);
            assert(joined + before.last().push(s.last()) =~= (joined + before.last()).push(
                s.last(),
            ));
            assert(front.push(s.last()) =~= s);
            assert(all.last() == before.last().push(s.last()));
            assert forall|i: int| 0 <= i < all.len() implies !(#[trigger] all[i]).contains(' ') by {
                if i < all.len() - 1 {
                    assert(all[i] == before[i]);
                } else {
                    let w = before.last();
                    assert(w == before[before.len() - 1]);
                    assert(all[i] == w.push(s.last()));
                    if all[i].contains(' ') {
                        let k = all[i].index_of(' ');
                        assert(w[k] == ' ');
                    }
                }
            }
        }
    } else {
        reveal_with_fuel(Seq::fold_left, 2);
        assert(words(s).drop_last().len() == 0);
        assert(words(s).drop_last().fold_left(Seq::<char>::empty(), join) + words(s).last() =~= s);
    }
}

/// After queries that all succeeded comes the commit, after others the rollback.  The connection
/// is discarded exactly where the transaction was not started, committed or rolled back as it
/// should, and otherwise goes back with the state that it was left in.
pub proof fn transactions_end_as_their_queries_did<E>(state: BatchState<E>, event: TxnEvent<E>)
    requires
        match event {
            TxnEvent::Started => state is Starting,
            TxnEvent::StartFailed(_) => state is Starting,
            TxnEvent::QueriesSucceeded => state is Running,
            TxnEvent::QueriesFailed(_) => state is Running,
            TxnEvent::Committed(_) => state is Committing,
            TxnEvent::CommitFailed(_) => state is Committing,
            TxnEvent::RolledBack(_) => state is RollingBack,
            TxnEvent::RollbackFailed(_) => state is RollingBack,
        },
    ensures
        event_fits(state, event),
        ({
            let (next, step) = batch_next(state, event);
            &&& step is RunQueries <==> event is Started
            &&& step is RunQueries <==> next is Running
            &&& step is Commit <==> event is QueriesSucceeded
            &&& step is Commit <==> next is Committing
            &&& step is Rollback <==> event is QueriesFailed
            &&& step is Rollback <==> next is RollingBack
            &&& event matches TxnEvent::QueriesFailed(e) ==> next == BatchState::RollingBack(e)
            &&& step is Answer <==> event is Committed
            &&& event matches TxnEvent::Committed(status) ==> step == TxnStep::<E>::Answer(
                PoolAction::CheckIdle(status),
            )
            &&& step matches TxnStep::Fail(pool, e) ==> match event {
                TxnEvent::StartFailed(why) => pool == PoolAction::Discard && e == why,
                TxnEvent::CommitFailed(why) => pool == PoolAction::Discard && e == why,
                TxnEvent::RollbackFailed(why) => pool == PoolAction::Discard && e == why,
                TxnEvent::RolledBack(status) => pool == PoolAction::CheckIdle(status) && state
                    == BatchState::RollingBack(e),
                _ => false,
            }
            &&& next is Ended <==> step is Answer || step is Fail
        }),
{
}

/// A batch is answered with the headers of exactly those settings of its transaction that were
/// asked for, the isolation level in the words of the request.
pub proof fn batches_are_answered_with_their_settings(
    read_only: bool,
    deferrable: bool,
    isolation: Option<Seq<u8>>,
    h: (Seq<char>, Seq<u8>),
)
    ensures
        txn_headers(read_only, deferrable, isolation).contains(h) <==> {
            ||| read_only && h == ("neon-batch-read-only"@, seq![0x74u8, 0x72u8, 0x75u8, 0x65u8])
            ||| deferrable && h == ("neon-batch-deferrable"@, seq![0x74u8, 0x72u8, 0x75u8, 0x65u8])
            ||| isolation is Some && h == ("neon-batch-isolation-level"@, isolation->0)
        },
        txn_headers(read_only, deferrable, isolation).len() == (if read_only { 1int } else { 0 }) + (
        if deferrable { 1int } else { 0 }) + (if isolation is Some { 1int } else { 0 }),
{
    let t = seq![0x74u8, 0x72u8, 0x75u8, 0x65u8];
    let all = txn_headers(read_only, deferrable, isolation);
    if read_only {
        assert(all[0] == ("neon-batch-read-only"@, t));
    }
    if deferrable {
        assert(all[if read_only { 1 } else { 0 }] == ("neon-batch-deferrable"@, t));
    }
    if isolation is Some {
        assert(all[all.len() - 1] == ("neon-batch-isolation-level"@, isolation->0));
    }
}

/// What Postgres says of an error is told under the keys that clients know, entry by entry.
pub proof fn database_errors_are_told_in_full(message: Seq<char>, db: DbError)
    ensures
        ({
            let told = error_entries(message, Some(db));
            &&& told.len() == 17
            &&& told[0] == ("message"@, Some(db.message@))
            &&& told[1] == ("code"@, Some(db.code@))
            &&& told[2] == ("detail"@, http_parts::optional_text(db.detail))
            &&& told[3] == ("hint"@, http_parts::optional_text(db.hint))
            &&& told[4].0 == "position"@
            &&& told[5].0 == "internalPosition"@
            &&& told[6].0 == "internalQuery"@
            &&& match db.position {
                Some(ErrorPosition::Original(p)) => told[4].1 == Some(text::decimal(p as nat))
                    && told[5].1 is None && told[6].1 is None,
                Some(ErrorPosition::Internal { position, query }) => told[4].1 is None && told[5].1
                    == Some(text::decimal(position as nat)) && told[6].1 == Some(query@),
                None => told[4].1 is None && told[5].1 is None && told[6].1 is None,
            }
            &&& told[7] == ("severity"@, Some(db.severity@))
            &&& told[8] == ("where"@, http_parts::optional_text(db.where_))
            &&& told[9] == ("table"@, http_parts::optional_text(db.table))
            &&& told[10] == ("column"@, http_parts::optional_text(db.column))
            &&& told[11] == ("schema"@, http_parts::optional_text(db.schema))
            &&& told[12] == ("dataType"@, http_parts::optional_text(db.datatype))
            &&& told[13] == ("constraint"@, http_parts::optional_text(db.constraint))
            &&& told[14] == ("file"@, http_parts::optional_text(db.file))
            &&& told[15].0 == "line"@
            &&& db.line matches Some(line) ==> told[15].1 == Some(text::decimal(line as nat))
            &&& db.line is None ==> told[15].1 is None
            &&& told[16] == ("routine"@, http_parts::optional_text(db.routine))
        }),
{
}

/// Of an error that is not one of Postgres only the words are told, under the same keys.
pub proof fn other_errors_are_told_in_their_words(message: Seq<char>, db: DbError, i: int)
    requires
        0 <= i < 17,
    ensures
        error_entries(message, None).len() == 17,
        error_entries(message, None)[0] == ("message"@, Some(message)),
        error_entries(message, None)[i].0 == error_entries(message, Some(db))[i].0,
        i > 0 ==> error_entries(message, None)[i].1 is None,
{
}

/// Header names are the same exactly if they are in lower case, letter by letter.
pub proof fn names_are_the_same_in_lower_case(a: Seq<char>, b: Seq<char>)
    ensures
        same_name(a, b) <==> a.len() == b.len() && forall|i: int|
            0 <= i < a.len() ==> (if 'A' <= #[trigger] a[i] && a[i] <= 'Z' {
                a[i] as int + 32
            } else {
                a[i] as int
            }) == (if 'A' <= b[i] && b[i] <= 'Z' {
                b[i] as int + 32
            } else {
                b[i] as int
            }),
{
    if a.len() == b.len() {
        assert forall|i: int| 0 <= i < a.len() implies same_letter(#[trigger] a[i], b[i]) == ((
        if 'A' <= a[i] && a[i] <= 'Z' {
            a[i] as int + 32
        } else {
            a[i] as int
        }) == (if 'A' <= b[i] && b[i] <= 'Z' {
            b[i] as int + 32
        } else {
            b[i] as int
        })) by {}
    }
}

/// Setting a header puts it in place of those of its name and keeps all others.
pub proof fn headers_are_replaced_by_name(
    headers: Seq<(Seq<char>, Seq<u8>)>,
    header: (Seq<char>, Seq<u8>),
    h: (Seq<char>, Seq<u8>),
)
    ensures
        with_header(headers, header).contains(h) <==> h == header || (headers.contains(h)
            && !same_name(h.0, header.0)),
        with_header(headers, header).len() > 0,
        with_header(headers, header).last() == header,
{
    let other = |h: (Seq<char>, Seq<u8>)| !same_name(h.0, header.0);
    let kept = headers.filter(other);
    let all = with_header(headers, header);
    assert(all[all.len() - 1] == header);
    if headers.contains(h) && other(h) {
        let i = headers.index_of(h);
        headers.lemma_filter_contains(other, i);
        let k = kept.index_of(h);
        assert(all[k] == h);
    }
    if all.contains(h) && h != header {
        let k = all.index_of(h);
        assert(kept[k] == h);
        headers.lemma_filter_pred(other, k);
        headers.lemma_filter_contains_rev(other, h);
    }
}

} // verus!
