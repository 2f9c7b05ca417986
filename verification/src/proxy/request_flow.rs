//! The order in which a query over HTTP is handled.
//!
//! First it is found out which connection the request wants, then what its headers ask for and
//! how large it is.  Only a request that passes is read, and its client authenticated and
//! connected; then its queries are run, and it is answered.
use vstd::prelude::*;

use crate::proxy::conn_info;
use crate::proxy::conn_info::ConnErrorModel;
use crate::proxy::conn_info::ConnInfo;
use crate::proxy::conn_info::ConnInfoError;
use crate::proxy::conn_info::ConnRequest;
use crate::proxy::conn_info::MonitoringModel;
use crate::proxy::conn_info::RequestModel;
use crate::proxy::conn_info::RequestMonitoring;
use crate::proxy::http_parts;
use crate::proxy::sql_over_http;
use crate::proxy::sql_over_http::Payload;
use crate::proxy::sql_over_http::PoolAction;
use crate::proxy::sql_over_http::QueryData;
use crate::proxy::sql_over_http::ReadyForQueryStatus;
use crate::proxy::sql_over_http::RequestError;
use crate::proxy::sql_over_http::RequestOptions;

verus! {

/// How far a request has come.
pub enum RequestStage {
    /// The endpoint that the host name stands for is being looked for.
    FindingEndpoint { wanted: ConnRequest },
    /// The request is being read, and the client authenticated and connected.
    Connecting { options: RequestOptions },
    /// A query is being run.
    RunningSingle { options: RequestOptions },
    /// A batch is being run.
    RunningBatch { options: RequestOptions },
    Ended,
}

/// Why a request is refused.
pub enum Refusal {
    Connection(ConnInfoError),
    Request(RequestError),
}

/// Why a request is refused, as a mathematical value.
pub enum RefusalModel {
    Connection(ConnErrorModel),
    Request(RequestError),
}

impl View for Refusal {
    type V = RefusalModel;

    open spec fn view(&self) -> RefusalModel {
        match *self {
            Refusal::Connection(e) => RefusalModel::Connection(e@),
            Refusal::Request(e) => RefusalModel::Request(e),
        }
    }
}

impl Refusal {
    /// The error in words.
    pub fn to_text(&self) -> (r: String)
        ensures
            r@ == match self@ {
                RefusalModel::Connection(e) => e.text(),
                RefusalModel::Request(e) => sql_over_http::request_error_text(e),
            },
    {
        match self {
            Refusal::Connection(e) => e.to_text(),
            Refusal::Request(e) => String::from_str(e.to_text()),
        }
    }
}

/// What has to be done next.  `E` is what goes wrong outside.
pub enum RequestStep<E> {
    /// Find the endpoint that the host name stands for.
    FindEndpoint { hostname: String },
    /// Read the request, and meanwhile authenticate the client and connect; take no connection
    /// from the pool where a new one is forced.  The length is recorded first.
    ReadAndConnect { info: ConnInfo, force_new: bool, content_length: u64 },
    RunSingle(QueryData),
    RunBatch(Vec<QueryData>),
    /// Refuse the request; record its length where it was looked at.
    Refuse { why: Refusal, content_length: Option<u64> },
    /// Answer with the results, which are those of a batch or of a single query; the connection
    /// of a single query is dealt with first.
    Answer { options: RequestOptions, batch: bool, pool: Option<PoolAction> },
    /// Answer with an error.
    Fail { e: E, pool: Option<PoolAction> },
}

/// What has come of the last step.
pub enum RequestEvent<E> {
    /// The request was read, and the client is connected.
    Ready(Payload),
    /// One of these has failed.
    NotReady(E),
    /// The query has ended.
    Queried(Result<ReadyForQueryStatus, E>),
    /// The batch has ended, and its connection has been dealt with.
    BatchEnded(Result<(), E>),
}

/// The connection that the headers of a request want.
pub open spec fn wanted_connection(contents: Map<Seq<char>, Seq<u8>>) -> Result<
    RequestModel,
    ConnErrorModel,
> {
    match conn_info::connection_string(contents) {
        None => Err(ConnErrorModel::InvalidHeader("Neon-Connection-String"@)),
        Some(string) => match http_parts::url_parts(string) {
            Err(why) => Err(ConnErrorModel::UrlParseError(why)),
            Ok(url) => conn_info::url_request(url),
        },
    }
}

/// What is recorded when the headers of a request are read.
pub open spec fn connection_recorded(
    m: MonitoringModel,
    contents: Map<Seq<char>, Seq<u8>>,
) -> MonitoringModel {
    let before = MonitoringModel { auth_method: Some(conn_info::AuthMethodKind::Cleartext), ..m };
    match conn_info::connection_string(contents) {
        None => before,
        Some(string) => match http_parts::url_parts(string) {
            Err(_) => before,
            Ok(url) => conn_info::url_recorded(before, url),
        },
    }
}

/// Begins to handle a request.
pub fn begin_request<E>(
    ctx: &mut RequestMonitoring,
    headers: &hyper::HeaderMap<hyper::http::HeaderValue>,
) -> (r: (RequestStage, RequestStep<E>))
    ensures
        final(ctx)@ == connection_recorded(old(ctx)@, http_parts::header_contents(*headers)),
        match wanted_connection(http_parts::header_contents(*headers)) {
            Ok(request) => {
                &&& r.0 matches RequestStage::FindingEndpoint { wanted }
                &&& wanted@ == request
                &&& r.1 matches RequestStep::FindEndpoint { hostname }
                &&& hostname@ == request.hostname
            },
            Err(e) => {
                &&& r.0 is Ended
                &&& r.1 matches RequestStep::Refuse { why, content_length }
                &&& why@ == RefusalModel::Connection(e)
                &&& content_length is None
            },
        },
{
    match conn_info::get_conn_info(ctx, headers) {
        Ok(wanted) => {
            let hostname = wanted.hostname.clone();
            (RequestStage::FindingEndpoint { wanted }, RequestStep::FindEndpoint { hostname })
        },
        Err(e) => (
            RequestStage::Ended,
            RequestStep::Refuse { why: Refusal::Connection(e), content_length: None },
        ),
    }
}

/// Why a request is refused once its endpoint has been looked for, if it is: there is no
/// endpoint, its headers ask for what does not exist, or it is too large.
pub open spec fn refusal(
    contents: Map<Seq<char>, Seq<u8>>,
    endpoint: Result<Option<String>, String>,
    upper: Option<u64>,
) -> Option<RefusalModel> {
    match endpoint {
        Err(why) => Some(RefusalModel::Connection(ConnErrorModel::InvalidEndpoint(why@))),
        Ok(None) => Some(RefusalModel::Connection(ConnErrorModel::MalformedEndpoint)),
        Ok(Some(_)) => match sql_over_http::headers_isolation(contents) {
            Err(e) => Some(RefusalModel::Request(e)),
            Ok(_) => if sql_over_http::request_size(upper) > sql_over_http::MAX_REQUEST_SIZE {
                Some(RefusalModel::Request(RequestError::TooLarge))
            } else {
                None
            },
        },
    }
}

/// Goes on with a request whose endpoint has been looked for.  `endpoint` is the one that the
/// host name stands for; none where it stands for no endpoint, or else what is wrong with it.
/// `upper` is the greatest length that the request may have, where that is known.
pub fn endpoint_found<E>(
    ctx: &mut RequestMonitoring,
    wanted: ConnRequest,
    endpoint: Result<Option<String>, String>,
    headers: &hyper::HeaderMap<hyper::http::HeaderValue>,
    pool_opt_in: bool,
    upper: Option<u64>,
) -> (r: (RequestStage, RequestStep<E>))
    ensures
        final(ctx)@ == match endpoint {
            Ok(Some(endpoint)) => MonitoringModel {
                endpoint_id: Some(endpoint@),
                application: match wanted@.application {
                    Some(application) => Some(application),
                    None => old(ctx)@.application,
                },
                ..old(ctx)@
            },
            _ => old(ctx)@,
        },
        match refusal(http_parts::header_contents(*headers), endpoint, upper) {
            Some(e) => {
                &&& r.0 is Ended
                &&& r.1 matches RequestStep::Refuse { why, content_length }
                &&& why@ == e
                &&& content_length == if e == RefusalModel::Request(RequestError::TooLarge) {
                    Some(sql_over_http::request_size(upper))
                } else {
                    None
                }
            },
            None => {
                &&& r.0 matches RequestStage::Connecting { options }
                &&& sql_over_http::options_match(
                    options,
                    http_parts::header_contents(*headers),
                    pool_opt_in,
                )
                &&& r.1 matches RequestStep::ReadAndConnect { info, force_new, content_length }
                &&& info.endpoint@ == endpoint->Ok_0->0@
                &&& info.user == wanted.user
                &&& info.options == wanted.options
                &&& info.dbname == wanted.dbname
                &&& info.password == wanted.password
                &&& force_new == !options.allow_pool
                &&& content_length == sql_over_http::request_size(upper)
            },
        },
        r.1 is ReadAndConnect <==> refusal(
            http_parts::header_contents(*headers),
            endpoint,
            upper,
        ) is None,
{
    let info = match conn_info::with_endpoint(ctx, wanted, endpoint) {
        Ok(info) => info,
        Err(e) => {
            return (
                RequestStage::Ended,
                RequestStep::Refuse { why: Refusal::Connection(e), content_length: None },
            );
        },
    };
    match sql_over_http::prepare_request(headers, pool_opt_in, upper) {
        Ok(options) => {
            let force_new = !options.allow_pool;
            let content_length = sql_over_http::request_content_length(upper);
            (
                RequestStage::Connecting { options },
                RequestStep::ReadAndConnect { info, force_new, content_length },
            )
        },
        Err(e) => {
            let content_length = match e {
                RequestError::InvalidIsolationLevel => None,
                RequestError::TooLarge => Some(sql_over_http::request_content_length(upper)),
            };
            (
                RequestStage::Ended,
                RequestStep::Refuse { why: Refusal::Request(e), content_length },
            )
        },
    }
}

/// Whether an event can come in a stage.
pub open spec fn expects<E>(stage: RequestStage, event: RequestEvent<E>) -> bool {
    match event {
        RequestEvent::Ready(_) => stage is Connecting,
        RequestEvent::NotReady(_) => stage is Connecting,
        RequestEvent::Queried(_) => stage is RunningSingle,
        RequestEvent::BatchEnded(_) => stage is RunningBatch,
    }
}

/// The options of a request that is under way.
pub open spec fn options_of(stage: RequestStage) -> Option<RequestOptions> {
    match stage {
        RequestStage::Connecting { options } => Some(options),
        RequestStage::RunningSingle { options } => Some(options),
        RequestStage::RunningBatch { options } => Some(options),
        _ => None,
    }
}

/// The stage after an event, and what to do.
pub open spec fn request_next<E>(stage: RequestStage, event: RequestEvent<E>) -> (
    RequestStage,
    RequestStep<E>,
) {
    match event {
        RequestEvent::Ready(Payload::Single(query)) => (
            RequestStage::RunningSingle { options: options_of(stage)->0 },
            RequestStep::RunSingle(query),
        ),
        RequestEvent::Ready(Payload::Batch(queries)) => (
            RequestStage::RunningBatch { options: options_of(stage)->0 },
            RequestStep::RunBatch(queries),
        ),
        RequestEvent::NotReady(e) => (RequestStage::Ended, RequestStep::Fail { e, pool: None }),
        RequestEvent::Queried(Ok(status)) => (
            RequestStage::Ended,
            RequestStep::Answer {
                options: options_of(stage)->0,
                batch: false,
                pool: Some(PoolAction::CheckIdle(status)),
            },
        ),
        RequestEvent::Queried(Err(e)) => (
            RequestStage::Ended,
            RequestStep::Fail { e, pool: Some(PoolAction::Discard) },
        ),
        RequestEvent::BatchEnded(Ok(_)) => (
            RequestStage::Ended,
            RequestStep::Answer { options: options_of(stage)->0, batch: true, pool: None },
        ),
        RequestEvent::BatchEnded(Err(e)) => (
            RequestStage::Ended,
            RequestStep::Fail { e, pool: None },
        ),
    }
}

/// Goes on with a request that was not refused.
pub fn request_step<E>(stage: RequestStage, event: RequestEvent<E>) -> (r: (
    RequestStage,
    RequestStep<E>,
))
    requires
        expects(stage, event),
    ensures
        r == request_next(stage, event),
{
    match (stage, event) {
        (RequestStage::Connecting { options }, RequestEvent::Ready(Payload::Single(query))) => (
            RequestStage::RunningSingle { options },
            RequestStep::RunSingle(query),
        ),
        (RequestStage::Connecting { options }, RequestEvent::Ready(Payload::Batch(queries))) => (
            RequestStage::RunningBatch { options },
            RequestStep::RunBatch(queries),
        ),
        (RequestStage::RunningSingle { options }, RequestEvent::Queried(Ok(status))) => (
            RequestStage::Ended,
            RequestStep::Answer {
                options,
                batch: false,
                pool: Some(sql_over_http::single_outcome(Some(status))),
            },
        ),
        (_, RequestEvent::Queried(Err(e))) => (
            RequestStage::Ended,
            RequestStep::Fail { e, pool: Some(sql_over_http::single_outcome(None)) },
        ),
        (RequestStage::RunningBatch { options }, RequestEvent::BatchEnded(Ok(_))) => (
            RequestStage::Ended,
            RequestStep::Answer { options, batch: true, pool: None },
        ),
        (_, RequestEvent::BatchEnded(Err(e))) => (
            RequestStage::Ended,
            RequestStep::Fail { e, pool: None },
        ),
        (_, RequestEvent::NotReady(e)) => (
            RequestStage::Ended,
            RequestStep::Fail { e, pool: None },
        ),
        (stage, _) => {
            assert(false);
            (stage, RequestStep::FindEndpoint { hostname: String::new() })
        },
    }
}

/// A client is connected only for a request that has an endpoint, asks for nothing that does not
/// exist, and is not too large; any other is refused.
pub proof fn refused_requests_are_not_connected(
    contents: Map<Seq<char>, Seq<u8>>,
    endpoint: Result<Option<String>, String>,
    upper: Option<u64>,
)
    ensures
        refusal(contents, endpoint, upper) is None <==> {
            &&& endpoint matches Ok(Some(_))
            &&& sql_over_http::headers_isolation(contents) is Ok
            &&& upper matches Some(length) && length <= sql_over_http::MAX_REQUEST_SIZE
        },
{
}

/// Queries are run only for a client that is connected, and results are answered only after
/// queries that have succeeded.
pub proof fn answers_come_last<E>(stage: RequestStage, event: RequestEvent<E>)
    requires
        expects(stage, event),
    ensures
        ({
            let (next, step) = request_next(stage, event);
            &&& step is RunSingle || step is RunBatch ==> stage is Connecting && event is Ready
            &&& step is Answer ==> (stage is RunningSingle && (event matches RequestEvent::Queried(
                Ok(_),
            ))) || (stage is RunningBatch && (event matches RequestEvent::BatchEnded(Ok(_))))
            &&& step is Answer || step is Fail <==> next is Ended
            &&& !(step is FindEndpoint || step is ReadAndConnect || step is Refuse)
            &&& next !is Ended ==> options_of(next) == options_of(stage)
            &&& step matches RequestStep::Answer { options, .. } ==> options_of(stage) == Some(
                options,
            )
        }),
{
}

/// Each refusal has its reason: what is wrong with the host name first, then an isolation level
/// that does not exist, then the size.
pub proof fn refusals_have_their_reason(
    contents: Map<Seq<char>, Seq<u8>>,
    endpoint: Result<Option<String>, String>,
    upper: Option<u64>,
)
    ensures
        ({
            let why = refusal(contents, endpoint, upper);
            let small = upper is Some && upper->0 <= 10_485_760;
            &&& endpoint matches Err(e) ==> why == Some(
                RefusalModel::Connection(ConnErrorModel::InvalidEndpoint(e@)),
            )
            &&& endpoint == Ok::<Option<String>, String>(None) ==> why == Some(
                RefusalModel::Connection(ConnErrorModel::MalformedEndpoint),
            )
            &&& why == Some(RefusalModel::Request(RequestError::InvalidIsolationLevel))
                <==> (endpoint matches Ok(Some(_))) && sql_over_http::headers_isolation(contents)
                is Err
            &&& why == Some(RefusalModel::Request(RequestError::TooLarge)) <==> (
            endpoint matches Ok(Some(_))) && sql_over_http::headers_isolation(contents) is Ok
                && !small
        }),
{
    sql_over_http::isolation_levels_go_by_name(contents);
}

/// A request says which connection it wants by the URL in its header; where there is none, or it
/// cannot be read, that is the error.
pub proof fn requests_name_their_connection(contents: Map<Seq<char>, Seq<u8>>)
    ensures
        conn_info::connection_string(contents) is None ==> wanted_connection(contents) == Err::<
            RequestModel,
            ConnErrorModel,
        >(ConnErrorModel::InvalidHeader("Neon-Connection-String"@)),
        conn_info::connection_string(contents) matches Some(string) ==> match http_parts::url_parts(
            string,
        ) {
            Ok(url) => wanted_connection(contents) == conn_info::url_request(url),
            Err(why) => wanted_connection(contents) == Err::<RequestModel, ConnErrorModel>(
                ConnErrorModel::UrlParseError(why),
            ),
        },
{
}

/// Whatever a request wants, it is recorded as one with a password in clear text; of the rest
/// only what its URL names is recorded.
pub proof fn requests_are_recorded_as_cleartext(
    m: MonitoringModel,
    contents: Map<Seq<char>, Seq<u8>>,
)
    ensures
        ({
            let after = connection_recorded(m, contents);
            &&& after.auth_method == Some(conn_info::AuthMethodKind::Cleartext)
            &&& after.endpoint_id == m.endpoint_id
            &&& after.application == m.application
            &&& after.success == m.success
            &&& wanted_connection(contents) matches Ok(request) ==> after.dbname == Some(
                request.dbname,
            ) && after.user == Some(request.user)
            &&& conn_info::connection_string(contents) is None ==> after.dbname == m.dbname
                && after.user == m.user
        }),
{
}

/// What was read is run, as one query or as a batch.  The connection of a single query goes back
/// with its state where the query succeeded and is discarded where it failed; that of a batch
/// has been dealt with when the batch ends, and there is none before a connection was made.
pub proof fn queries_are_run_as_they_were_read<E>(stage: RequestStage, event: RequestEvent<E>)
    requires
        expects(stage, event),
    ensures
        ({
            let (next, step) = request_next(stage, event);
            &&& event matches RequestEvent::Ready(Payload::Single(query)) ==> step
                == RequestStep::<E>::RunSingle(query) && next is RunningSingle
            &&& event matches RequestEvent::Ready(Payload::Batch(queries)) ==> step
                == RequestStep::<E>::RunBatch(queries) && next is RunningBatch
            &&& event matches RequestEvent::NotReady(e) ==> step == (RequestStep::Fail {
                e,
                pool: None,
            })
            &&& event matches RequestEvent::Queried(Ok(status)) ==> (step matches
                RequestStep::Answer { batch, pool, .. } && !batch && pool == Some(
                PoolAction::CheckIdle(status),
            ))
            &&& event matches RequestEvent::Queried(Err(e)) ==> step == (RequestStep::Fail {
                e,
                pool: Some(PoolAction::Discard),
            })
            &&& event matches RequestEvent::BatchEnded(Ok(_)) ==> (step matches
                RequestStep::Answer { batch, pool, .. } && batch && pool is None)
            &&& event matches RequestEvent::BatchEnded(Err(e)) ==> step == (RequestStep::Fail {
                e,
                pool: None,
            })
        }),
{
}

} // verus!
