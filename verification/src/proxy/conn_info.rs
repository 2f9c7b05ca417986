//! What a request over HTTP says of the connection that it wants.
use vstd::prelude::*;
use vstd::utf8::*;

use crate::base::text;
use crate::proxy::http_parts;
use crate::proxy::http_parts::ConnectionUrl;
use crate::proxy::http_parts::UrlModel;

verus! {

/// Why a request does not say which connection it wants.
pub enum ConnInfoError {
    /// The header is missing, or is no text.
    InvalidHeader(&'static str),
    /// What is wrong with the connection string.
    UrlParseError(String),
    IncorrectScheme,
    MissingDbName,
    InvalidDbName,
    MissingUsername,
    /// What is wrong with the decoded bytes.
    InvalidUsername(String),
    MissingPassword,
    MissingHostname,
    /// What is wrong with the host name.
    InvalidEndpoint(String),
    MalformedEndpoint,
}

/// An error as a mathematical value.
pub enum ConnErrorModel {
    InvalidHeader(Seq<char>),
    UrlParseError(Seq<char>),
    IncorrectScheme,
    MissingDbName,
    InvalidDbName,
    MissingUsername,
    InvalidUsername(Seq<char>),
    MissingPassword,
    MissingHostname,
    InvalidEndpoint(Seq<char>),
    MalformedEndpoint,
}

impl View for ConnInfoError {
    type V = ConnErrorModel;

    open spec fn view(&self) -> ConnErrorModel {
        match *self {
            ConnInfoError::InvalidHeader(name) => ConnErrorModel::InvalidHeader(name@),
            ConnInfoError::UrlParseError(e) => ConnErrorModel::UrlParseError(e@),
            ConnInfoError::IncorrectScheme => ConnErrorModel::IncorrectScheme,
            ConnInfoError::MissingDbName => ConnErrorModel::MissingDbName,
            ConnInfoError::InvalidDbName => ConnErrorModel::InvalidDbName,
            ConnInfoError::MissingUsername => ConnErrorModel::MissingUsername,
            ConnInfoError::InvalidUsername(e) => ConnErrorModel::InvalidUsername(e@),
            ConnInfoError::MissingPassword => ConnErrorModel::MissingPassword,
            ConnInfoError::MissingHostname => ConnErrorModel::MissingHostname,
            ConnInfoError::InvalidEndpoint(e) => ConnErrorModel::InvalidEndpoint(e@),
            ConnInfoError::MalformedEndpoint => ConnErrorModel::MalformedEndpoint,
        }
    }
}

impl ConnErrorModel {
    /// The error in words.
    pub open spec fn text(self) -> Seq<char> {
        match self {
            ConnErrorModel::InvalidHeader(name) => "invalid header: "@ + name,
            ConnErrorModel::UrlParseError(e) => "invalid connection string: "@ + e,
            ConnErrorModel::IncorrectScheme => "incorrect scheme"@,
            ConnErrorModel::MissingDbName => "missing database name"@,
            ConnErrorModel::InvalidDbName => "invalid database name"@,
            ConnErrorModel::MissingUsername => "missing username"@,
            ConnErrorModel::InvalidUsername(e) => "invalid username: "@ + e,
            ConnErrorModel::MissingPassword => "missing password"@,
            ConnErrorModel::MissingHostname => "missing hostname"@,
            ConnErrorModel::InvalidEndpoint(e) => "invalid hostname: "@ + e,
            ConnErrorModel::MalformedEndpoint => "malformed endpoint"@,
        }
    }
}

/// A text with another behind it.
fn concat(first: &str, second: &str) -> (r: String)
    ensures
        r@ == first@ + second@,
{
    let mut r = String::from_str(first);
    r.append(second);
    r
}

impl ConnInfoError {
    /// The error in words.
    pub fn to_text(&self) -> (r: String)
        ensures
            r@ == self@.text(),
    {
        match self {
            ConnInfoError::InvalidHeader(name) => concat("invalid header: ", name),
            ConnInfoError::UrlParseError(e) => concat("invalid connection string: ", e.as_str()),
            ConnInfoError::IncorrectScheme => String::from_str("incorrect scheme"),
            ConnInfoError::MissingDbName => String::from_str("missing database name"),
            ConnInfoError::InvalidDbName => String::from_str("invalid database name"),
            ConnInfoError::MissingUsername => String::from_str("missing username"),
            ConnInfoError::InvalidUsername(e) => concat("invalid username: ", e.as_str()),
            ConnInfoError::MissingPassword => String::from_str("missing password"),
            ConnInfoError::MissingHostname => String::from_str("missing hostname"),
            ConnInfoError::InvalidEndpoint(e) => concat("invalid hostname: ", e.as_str()),
            ConnInfoError::MalformedEndpoint => String::from_str("malformed endpoint"),
        }
    }
}

/// How a client authenticates.
#[derive(Clone, Copy, Debug, PartialEq, Eq, Structural)]
pub enum AuthMethodKind {
    Web,
    ScramSha256,
    ScramSha256Plus,
    Cleartext,
}

/// What is recorded of a request while it is handled.
pub struct RequestMonitoring {
    pub auth_method: Option<AuthMethodKind>,
    pub dbname: Option<String>,
    pub user: Option<String>,
    pub endpoint_id: Option<String>,
    pub application: Option<String>,
    /// Whether the request has succeeded.
    pub success: bool,
}

/// What is recorded of a request, as mathematical values.
pub struct MonitoringModel {
    pub auth_method: Option<AuthMethodKind>,
    pub dbname: Option<Seq<char>>,
    pub user: Option<Seq<char>>,
    pub endpoint_id: Option<Seq<char>>,
    pub application: Option<Seq<char>>,
    pub success: bool,
}

impl View for RequestMonitoring {
    type V = MonitoringModel;

    open spec fn view(&self) -> MonitoringModel {
        MonitoringModel {
            auth_method: self.auth_method,
            dbname: http_parts::optional_text(self.dbname),
            user: http_parts::optional_text(self.user),
            endpoint_id: http_parts::optional_text(self.endpoint_id),
            application: http_parts::optional_text(self.application),
            success: self.success,
        }
    }
}

/// The connection that a request wants, as far as its connection string says.
pub struct ConnRequest {
    pub dbname: String,
    pub user: String,
    pub password: Vec<u8>,
    pub hostname: String,
    /// The options as they were given.
    pub options: Option<String>,
    pub application: Option<String>,
}

/// The connection that a request wants, as mathematical values.
pub struct RequestModel {
    pub dbname: Seq<char>,
    pub user: Seq<char>,
    pub password: Seq<u8>,
    pub hostname: Seq<char>,
    pub options: Option<Seq<char>>,
    pub application: Option<Seq<char>>,
}

impl View for ConnRequest {
    type V = RequestModel;

    open spec fn view(&self) -> RequestModel {
        RequestModel {
            dbname: self.dbname@,
            user: self.user@,
            password: self.password@,
            hostname: self.hostname@,
            options: http_parts::optional_text(self.options),
            application: http_parts::optional_text(self.application),
        }
    }
}

/// The connection that is made for a request.
pub struct ConnInfo {
    pub endpoint: String,
    pub user: String,
    /// The options as they were given.
    pub options: Option<String>,
    pub dbname: String,
    pub password: Vec<u8>,
}

/// The last value under a key.
pub open spec fn last_value(pairs: Seq<(Seq<char>, Seq<char>)>, key: Seq<char>) -> Option<Seq<char>>
    decreases pairs.len(),
{
    if pairs.len() == 0 {
        None
    } else if pairs.last().0 == key {
        Some(pairs.last().1)
    } else {
        last_value(pairs.drop_last(), key)
    }
}

/// The last value under a key.
fn find_last(pairs: &Vec<(String, String)>, key: &str) -> (r: Option<String>)
    ensures
        http_parts::optional_text(r) == last_value(http_parts::pairs(pairs@), key@),
{
    let ghost model = http_parts::pairs(pairs@);
    let mut i: usize = pairs.len();
    assert(model.take(i as int) =~= model);
    while i > 0
        invariant
            i <= pairs@.len(),
            model == http_parts::pairs(pairs@),
            last_value(model, key@) == last_value(model.take(i as int), key@),
        decreases i,
    {
        i -= 1;
        assert(model.take(i + 1).last() == model[i as int]);
        assert(model.take(i + 1).drop_last() =~= model.take(i as int));
        if text::same_text(pairs[i].0.as_str(), key) {
            return Some(pairs[i].1.clone());
        }
    }
    None
}

/// The decoded name of the user in a URL; none where it is no text.
pub open spec fn decoded_user(u: UrlModel) -> Option<Seq<char>> {
    let bytes = http_parts::percent_decoded(encode_utf8(u.username));
    if valid_utf8(bytes) {
        Some(decode_utf8(bytes))
    } else {
        None
    }
}

/// The database that a URL names: the first segment of its path.
pub open spec fn url_dbname(u: UrlModel) -> Result<Seq<char>, ConnErrorModel> {
    if u.scheme != "postgres"@ && u.scheme != "postgresql"@ {
        Err(ConnErrorModel::IncorrectScheme)
    } else {
        match u.path_segments {
            None => Err(ConnErrorModel::MissingDbName),
            Some(segments) => if segments.len() == 0 {
                Err(ConnErrorModel::InvalidDbName)
            } else {
                Ok(segments[0])
            },
        }
    }
}

/// The user that a URL names, where it names a database.
pub open spec fn url_user(u: UrlModel) -> Result<Seq<char>, ConnErrorModel> {
    match url_dbname(u) {
        Err(e) => Err(e),
        Ok(_) => match decoded_user(u) {
            None => Err(
                ConnErrorModel::InvalidUsername(
                    http_parts::utf8_error_text(
                        http_parts::percent_decoded(encode_utf8(u.username)),
                    ),
                ),
            ),
            Some(user) => if user.len() == 0 {
                Err(ConnErrorModel::MissingUsername)
            } else {
                Ok(user)
            },
        },
    }
}

/// The connection that a URL asks for.
pub open spec fn url_request(u: UrlModel) -> Result<RequestModel, ConnErrorModel> {
    match url_user(u) {
        Err(e) => Err(e),
        Ok(user) => match (u.password, u.host) {
            (None, _) => Err(ConnErrorModel::MissingPassword),
            (_, None) => Err(ConnErrorModel::MissingHostname),
            (Some(password), Some(hostname)) => Ok(
                RequestModel {
                    dbname: url_dbname(u)->Ok_0,
                    user,
                    password: http_parts::percent_decoded(encode_utf8(password)),
                    hostname,
                    options: last_value(u.query_pairs, "options"@),
                    application: last_value(u.query_pairs, "application_name"@),
                },
            ),
        },
    }
}

/// What is recorded of a request with a URL: as much as could be read before an error.
pub open spec fn url_recorded(m: MonitoringModel, u: UrlModel) -> MonitoringModel {
    MonitoringModel {
        dbname: match url_dbname(u) {
            Ok(dbname) => Some(dbname),
            Err(_) => m.dbname,
        },
        user: match url_user(u) {
            Ok(user) => Some(user),
            Err(_) => m.user,
        },
        ..m
    }
}

/// Reads the connection that a URL asks for, and records what could be read.
pub fn read_url(ctx: &mut RequestMonitoring, url: ConnectionUrl) -> (r: Result<
    ConnRequest,
    ConnInfoError,
>)
    ensures
        match r {
            Ok(request) => url_request(url@) == Ok::<RequestModel, ConnErrorModel>(request@),
            Err(e) => url_request(url@) == Err::<RequestModel, ConnErrorModel>(e@),
        },
        final(ctx)@ == url_recorded(old(ctx)@, url@),
{
    if !text::same_text(url.scheme.as_str(), "postgres") && !text::same_text(
        url.scheme.as_str(),
        "postgresql",
    ) {
        return Err(ConnInfoError::IncorrectScheme);
    }
    let dbname = match &url.path_segments {
        None => {
            return Err(ConnInfoError::MissingDbName);
        },
        Some(segments) => {
            if segments.len() == 0 {
                return Err(ConnInfoError::InvalidDbName);
            }
            segments[0].clone()
        },
    };
    ctx.dbname = Some(dbname.clone());
    let user = match http_parts::decode(url.username.as_str()) {
        Ok(user) => user,
        Err(e) => {
            return Err(ConnInfoError::InvalidUsername(e));
        },
    };
    if user.as_str().is_empty() {
        return Err(ConnInfoError::MissingUsername);
    }
    ctx.user = Some(user.clone());
    let password = match &url.password {
        Some(password) => http_parts::decode_binary(password.as_str().as_bytes()),
        None => {
            return Err(ConnInfoError::MissingPassword);
        },
    };
    let hostname = match url.host {
        Some(hostname) => hostname,
        None => {
            return Err(ConnInfoError::MissingHostname);
        },
    };
    let options = find_last(&url.query_pairs, "options");
    let application = find_last(&url.query_pairs, "application_name");
    Ok(ConnRequest { dbname, user, password, hostname, options, application })
}

/// The connection string in headers; none where it is missing or no text.
pub open spec fn connection_string(contents: Map<Seq<char>, Seq<u8>>) -> Option<Seq<char>> {
    let name = "neon-connection-string"@;
    if contents.dom().contains(name) && http_parts::all_visible(contents[name]) {
        Some(http_parts::ascii_text(contents[name]))
    } else {
        None
    }
}

/// Reads the connection that the headers of a request ask for.  HTTP only uses cleartext
/// passwords.
pub fn get_conn_info(
    ctx: &mut RequestMonitoring,
    headers: &hyper::HeaderMap<hyper::http::HeaderValue>,
) -> (r: Result<ConnRequest, ConnInfoError>)
    ensures
        ({
            let before = MonitoringModel {
                auth_method: Some(AuthMethodKind::Cleartext),
                ..old(ctx)@
            };
            match connection_string(http_parts::header_contents(*headers)) {
                None => {
                    &&& r matches Err(e) && e@ == ConnErrorModel::InvalidHeader(
                        "Neon-Connection-String"@,
                    )
                    &&& final(ctx)@ == before
                },
                Some(string) => match http_parts::url_parts(string) {
                    Err(why) => {
                        &&& r matches Err(e) && e@ == ConnErrorModel::UrlParseError(why)
                        &&& final(ctx)@ == before
                    },
                    Ok(url) => {
                        &&& match r {
                            Ok(request) => url_request(url) == Ok::<RequestModel, ConnErrorModel>(
                                request@,
                            ),
                            Err(e) => url_request(url) == Err::<RequestModel, ConnErrorModel>(e@),
                        }
                        &&& final(ctx)@ == url_recorded(before, url)
                    },
                },
            }
        }),
{
    ctx.auth_method = Some(AuthMethodKind::Cleartext);
    proof {
        reveal_strlit("neon-connection-string");
        assert(http_parts::is_plain_name("neon-connection-string"@));
    }
    let value = match http_parts::header_get(headers, "neon-connection-string") {
        Some(value) => value,
        None => {
            return Err(ConnInfoError::InvalidHeader("Neon-Connection-String"));
        },
    };
    let string = match http_parts::header_to_str(value) {
        Some(string) => string,
        None => {
            return Err(ConnInfoError::InvalidHeader("Neon-Connection-String"));
        },
    };
    match http_parts::parse_url(string.as_str()) {
        Ok(url) => read_url(ctx, url),
        Err(e) => Err(ConnInfoError::UrlParseError(e)),
    }
}

/// Completes a connection with its endpoint: `endpoint` is the one that the host name stands
/// for; none where it stands for no endpoint, or else what is wrong with it.
pub fn with_endpoint(
    ctx: &mut RequestMonitoring,
    request: ConnRequest,
    endpoint: Result<Option<String>, String>,
) -> (r: Result<ConnInfo, ConnInfoError>)
    ensures
        match endpoint {
            Err(why) => {
                &&& r matches Err(e) && e@ == ConnErrorModel::InvalidEndpoint(why@)
                &&& final(ctx)@ == old(ctx)@
            },
            Ok(None) => {
                &&& r matches Err(e) && e@ == ConnErrorModel::MalformedEndpoint
                &&& final(ctx)@ == old(ctx)@
            },
            Ok(Some(endpoint)) => {
                &&& r matches Ok(info) && info.endpoint@ == endpoint@ && info.user == request.user
                    && info.options == request.options && info.dbname == request.dbname
                    && info.password == request.password
                &&& final(ctx)@ == (MonitoringModel {
                    endpoint_id: Some(endpoint@),
                    application: match request@.application {
                        Some(application) => Some(application),
                        None => old(ctx)@.application,
                    },
                    ..old(ctx)@
                })
            },
        },
{
    let endpoint = match endpoint {
        Err(e) => {
            return Err(ConnInfoError::InvalidEndpoint(e));
        },
        Ok(None) => {
            return Err(ConnInfoError::MalformedEndpoint);
        },
        Ok(Some(endpoint)) => endpoint,
    };
    ctx.endpoint_id = Some(endpoint.clone());
    if request.application.is_some() {
        ctx.application = request.application;
    }
    Ok(
        ConnInfo {
            endpoint,
            user: request.user,
            options: request.options,
            dbname: request.dbname,
            password: request.password,
        },
    )
}

/// Of several values under a key the last one counts; a value is found exactly where the key is.
pub proof fn the_last_value_counts(
    pairs: Seq<(Seq<char>, Seq<char>)>,
    key: Seq<char>,
    i: int,
)
    ensures
        last_value(pairs, key) is None <==> forall|k: int|
            0 <= k < pairs.len() ==> (#[trigger] pairs[k]).0 != key,
        0 <= i < pairs.len() && pairs[i].0 == key && (forall|k: int|
            i < k < pairs.len() ==> (#[trigger] pairs[k]).0 != key) ==> last_value(pairs, key)
            == Some(pairs[i].1),
    decreases pairs.len(),
{
    if pairs.len() > 0 {
        let front = pairs.drop_last();
        let last = pairs[pairs.len() - 1];
        assert(pairs.last() == last);
        if last.0 != key {
            the_last_value_counts(front, key, i);
            assert forall|k: int| 0 <= k < front.len() implies front[k] == pairs[k] by {}
            if last_value(front, key) is None {
                assert forall|k: int| 0 <= k < pairs.len() implies (#[trigger] pairs[k]).0 != key by {
                    if k < front.len() {
                        assert(front[k].0 != key);
                    }
                }
            } else {
                let k = choose|k: int| 0 <= k < front.len() && (#[trigger] front[k]).0 == key;
                assert(pairs[k].0 == key);
            }
            if 0 <= i < pairs.len() && pairs[i].0 == key && (forall|k: int|
                i < k < pairs.len() ==> (#[trigger] pairs[k]).0 != key) {
                assert(i < front.len());
                assert(front[i] == pairs[i]);
                assert forall|k: int| i < k < front.len() implies (#[trigger] front[k]).0
                    != key by {
                    assert(pairs[k].0 != key);
                }
            }
        }
    }
}

/// A URL names a connection exactly where its scheme is one of Postgres, its path has a segment,
/// the decoded user is a text that is not empty, and it has a password and a host.
pub proof fn complete_urls_name_a_connection(u: UrlModel)
    ensures
        ({
            let user = http_parts::percent_decoded(encode_utf8(u.username));
            url_request(u) is Ok <==> {
                &&& u.scheme == "postgres"@ || u.scheme == "postgresql"@
                &&& u.path_segments matches Some(segments) && segments.len() > 0
                &&& valid_utf8(user)
                &&& decode_utf8(user).len() > 0
                &&& u.password is Some
                &&& u.host is Some
            }
        }),
        url_request(u) matches Ok(request) ==> {
            &&& request.dbname == u.path_segments->0[0]
            &&& request.user == decode_utf8(http_parts::percent_decoded(encode_utf8(u.username)))
            &&& request.password == http_parts::percent_decoded(encode_utf8(u.password->0))
            &&& request.hostname == u.host->0
            &&& request.options == last_value(u.query_pairs, "options"@)
            &&& request.application == last_value(u.query_pairs, "application_name"@)
        },
{
}

/// Each way in which a URL is not complete has its own error; of several the first in the order
/// scheme, database, user, password and host is told.
pub proof fn incomplete_urls_are_told_apart(u: UrlModel)
    ensures
        ({
            let r = url_request(u);
            let scheme = u.scheme == "postgres"@ || u.scheme == "postgresql"@;
            let db = scheme && u.path_segments is Some && u.path_segments->0.len() > 0;
            let user = http_parts::percent_decoded(encode_utf8(u.username));
            let named = db && valid_utf8(user) && decode_utf8(user).len() > 0;
            &&& r == Err::<RequestModel, ConnErrorModel>(ConnErrorModel::IncorrectScheme)
                <==> !scheme
            &&& r == Err::<RequestModel, ConnErrorModel>(ConnErrorModel::MissingDbName) <==> scheme
                && u.path_segments is None
            &&& r == Err::<RequestModel, ConnErrorModel>(ConnErrorModel::InvalidDbName) <==> scheme
                && u.path_segments is Some && u.path_segments->0.len() == 0
            &&& (r matches Err(ConnErrorModel::InvalidUsername(why)) && why
                == http_parts::utf8_error_text(user)) <==> db && !valid_utf8(user)
            &&& r == Err::<RequestModel, ConnErrorModel>(ConnErrorModel::MissingUsername) <==> db
                && valid_utf8(user) && decode_utf8(user).len() == 0
            &&& r == Err::<RequestModel, ConnErrorModel>(ConnErrorModel::MissingPassword) <==> named
                && u.password is None
            &&& r == Err::<RequestModel, ConnErrorModel>(ConnErrorModel::MissingHostname) <==> named
                && u.password is Some && u.host is None
        }),
{
}

/// The database is recorded as soon as it is known, the user too, and nothing else changes.
pub proof fn what_a_url_names_is_recorded(m: MonitoringModel, u: UrlModel)
    ensures
        ({
            let after = url_recorded(m, u);
            let db = (u.scheme == "postgres"@ || u.scheme == "postgresql"@) && u.path_segments
                is Some && u.path_segments->0.len() > 0;
            let user = http_parts::percent_decoded(encode_utf8(u.username));
            &&& after.dbname == if db {
                Some(u.path_segments->0[0])
            } else {
                m.dbname
            }
            &&& after.user == if db && valid_utf8(user) && decode_utf8(user).len() > 0 {
                Some(decode_utf8(user))
            } else {
                m.user
            }
            &&& after.auth_method == m.auth_method
            &&& after.endpoint_id == m.endpoint_id
            &&& after.application == m.application
            &&& after.success == m.success
        }),
{
}

/// The connection string is the header of that name, where it is a text of visible characters.
pub proof fn the_header_names_the_connection(contents: Map<Seq<char>, Seq<u8>>)
    ensures
        connection_string(contents) is Some <==> contents.dom().contains(
            "neon-connection-string"@,
        ) && forall|i: int|
            0 <= i < contents["neon-connection-string"@].len() ==> {
                let b = #[trigger] contents["neon-connection-string"@][i];
                b == 9 || 0x20 <= b <= 0x7e
            },
        connection_string(contents) matches Some(t) ==> t.len()
            == contents["neon-connection-string"@].len() && forall|i: int|
            0 <= i < t.len() ==> #[trigger] t[i] as int == contents["neon-connection-string"@][i],
{
    let value = contents["neon-connection-string"@];
    assert forall|i: int| 0 <= i < value.len() implies http_parts::is_visible_ascii(
        #[trigger] value[i],
    ) == (value[i] == 9 || 0x20 <= value[i] <= 0x7e) by {}
    if connection_string(contents) is None && contents.dom().contains("neon-connection-string"@) {
        let i = choose|i: int|
            0 <= i < value.len() && !http_parts::is_visible_ascii(#[trigger] value[i]);
        assert(!(value[i] == 9 || 0x20 <= value[i] <= 0x7e));
    }
}

/// What is said of a request that does not say which connection it wants.
pub proof fn connection_error_words(what: Seq<char>)
    ensures
        ConnErrorModel::InvalidHeader(what).text() == "invalid header: "@ + what,
        ConnErrorModel::UrlParseError(what).text() == "invalid connection string: "@ + what,
        ConnErrorModel::IncorrectScheme.text() == "incorrect scheme"@,
        ConnErrorModel::MissingDbName.text() == "missing database name"@,
        ConnErrorModel::InvalidDbName.text() == "invalid database name"@,
        ConnErrorModel::MissingUsername.text() == "missing username"@,
        ConnErrorModel::InvalidUsername(what).text() == "invalid username: "@ + what,
        ConnErrorModel::MissingPassword.text() == "missing password"@,
        ConnErrorModel::MissingHostname.text() == "missing hostname"@,
        ConnErrorModel::InvalidEndpoint(what).text() == "invalid hostname: "@ + what,
        ConnErrorModel::MalformedEndpoint.text() == "malformed endpoint"@,
{
}

} // verus!
