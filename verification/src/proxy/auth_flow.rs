//! Main authentication flow: which messages are exchanged with a client that authenticates.
use vstd::prelude::*;

use crate::base::text;
use crate::proxy::auth::AuthError;
use crate::proxy::auth::AuthErrorImpl;
use crate::proxy::conn_info::AuthMethodKind;
use crate::proxy::conn_info::MonitoringModel;
use crate::proxy::conn_info::RequestMonitoring;

verus! {

/// The messages that the proxy sends while a client authenticates.
#[derive(Clone, Copy, Debug, PartialEq, Eq, Structural)]
pub enum BeMessage {
    /// The SASL methods from which the client chooses; with `plus` also the one that is bound
    /// to the channel.
    AuthenticationSasl { plus: bool },
    AuthenticationCleartextPassword,
    AuthenticationOk,
}

/// Every authentication selector is supposed to implement this trait.
pub trait AuthMethod: Sized {
    spec fn opening(&self, channel_binding: bool) -> BeMessage;

    /// The message that opens the authentication and names the method.
    fn first_message(&self, channel_binding: bool) -> (r: BeMessage)
        ensures
            r == self.opening(channel_binding),
    ;
}

/// Initial state of [`AuthFlow`].
pub struct Begin;

/// The keys with which a password is checked.
pub struct ServerSecret {
    pub server_key: Vec<u8>,
    /// By which the rest of the secret is found.
    pub handle: u64,
}

/// What is known of a role's password.
pub enum AuthSecret {
    Scram(ServerSecret),
}

/// Use SCRAM-based auth in [`AuthFlow`].
pub struct Scram(pub ServerSecret);

impl AuthMethod for Scram {
    open spec fn opening(&self, channel_binding: bool) -> BeMessage {
        BeMessage::AuthenticationSasl { plus: channel_binding }
    }

    fn first_message(&self, channel_binding: bool) -> (r: BeMessage) {
        if channel_binding {
            BeMessage::AuthenticationSasl { plus: true }
        } else {
            BeMessage::AuthenticationSasl { plus: false }
        }
    }
}

/// Use an ad hoc auth flow for clients which don't name their endpoint when they connect.
pub struct PasswordHack;

impl AuthMethod for PasswordHack {
    open spec fn opening(&self, channel_binding: bool) -> BeMessage {
        BeMessage::AuthenticationCleartextPassword
    }

    fn first_message(&self, _channel_binding: bool) -> (r: BeMessage) {
        BeMessage::AuthenticationCleartextPassword
    }
}

/// Use clear-text password auth.
pub struct CleartextPassword(pub AuthSecret);

impl AuthMethod for CleartextPassword {
    open spec fn opening(&self, channel_binding: bool) -> BeMessage {
        BeMessage::AuthenticationCleartextPassword
    }

    fn first_message(&self, _channel_binding: bool) -> (r: BeMessage) {
        BeMessage::AuthenticationCleartextPassword
    }
}

/// The names of the SASL methods that a message offers, in order.
pub open spec fn offered(plus: bool) -> Seq<Seq<char>> {
    if plus {
        seq!["SCRAM-SHA-256-PLUS"@, "SCRAM-SHA-256"@]
    } else {
        seq!["SCRAM-SHA-256"@]
    }
}

/// The names of the SASL methods that a message offers, in order.
pub fn sasl_methods(plus: bool) -> (r: Vec<&'static str>)
    ensures
        r@.len() == offered(plus).len(),
        forall|i: int| 0 <= i < r@.len() ==> (#[trigger] r@[i])@ == offered(plus)[i],
{
    let mut r: Vec<&'static str> = Vec::new();
    if plus {
        r.push("SCRAM-SHA-256-PLUS");
    }
    r.push("SCRAM-SHA-256");
    r
}

/// The certificate hash to which a channel can be bound.
pub enum TlsServerEndPoint {
    Sha256(Vec<u8>),
    Undefined,
}

impl TlsServerEndPoint {
    /// Whether a channel can be bound.
    pub fn supported(&self) -> (r: bool)
        ensures
            r == (*self is Sha256),
    {
        match self {
            TlsServerEndPoint::Sha256(_) => true,
            TlsServerEndPoint::Undefined => false,
        }
    }
}

/// The authentication of a client, in its present state.
pub struct AuthFlow<State> {
    pub state: State,
    pub tls_server_end_point: TlsServerEndPoint,
}

impl AuthFlow<Begin> {
    /// The authentication of a client that has just connected.
    pub fn new(tls_server_end_point: TlsServerEndPoint) -> (r: AuthFlow<Begin>)
        ensures
            r.tls_server_end_point == tls_server_end_point,
    {
        AuthFlow { state: Begin, tls_server_end_point }
    }

    /// Moves to the next step by sending auth method's name & params to client.
    pub fn begin<M: AuthMethod>(self, method: M) -> (r: (AuthFlow<M>, BeMessage))
        ensures
            r.0.state == method,
            r.0.tls_server_end_point == self.tls_server_end_point,
            r.1 == method.opening(self.tls_server_end_point is Sha256),
    {
        let message = method.first_message(self.tls_server_end_point.supported());
        (AuthFlow { state: method, tls_server_end_point: self.tls_server_end_point }, message)
    }
}

/// The password in a password message: all but the terminating zero byte, which must be there.
pub open spec fn message_password(msg: Seq<u8>) -> Option<Seq<u8>> {
    if msg.len() > 0 && msg.last() == 0 {
        Some(msg.drop_last())
    } else {
        None
    }
}

/// The password in a password message.
pub fn password_of(msg: &[u8]) -> (r: Result<Vec<u8>, AuthError>)
    ensures
        match message_password(msg@) {
            Some(password) => r matches Ok(p) && p@ == password,
            None => r matches Err(e) && (e.0 matches AuthErrorImpl::MalformedPassword(why) && why@
                == "missing terminator"@),
        },
{
    let n = msg.len();
    if n > 0 && msg[n - 1] == 0 {
        let password = vstd::slice::slice_to_vec(vstd::slice::slice_subrange(msg, 0, n - 1));
        assert(password@ =~= msg@.drop_last());
        Ok(password)
    } else {
        Err(AuthError(AuthErrorImpl::MalformedPassword("missing terminator")))
    }
}

/// What the ad hoc flow finds in a password.
pub struct PasswordHackPayload {
    pub endpoint: String,
    pub password: Vec<u8>,
}

impl AuthFlow<PasswordHack> {
    /// The endpoint and password of a client.  `payload` is what was found in the password;
    /// where nothing was, the client is told how to name its endpoint.
    pub fn get_password(self, payload: Option<PasswordHackPayload>) -> (r: Result<
        PasswordHackPayload,
        AuthError,
    >)
        ensures
            match payload {
                Some(p) => r == Ok::<PasswordHackPayload, AuthError>(p),
                None => r matches Err(e) && e.0 == AuthErrorImpl::MissingEndpointName,
            },
    {
        match payload {
            Some(payload) => Ok(payload),
            None => Err(AuthError(AuthErrorImpl::MissingEndpointName)),
        }
    }
}

/// The outcome of an authentication that went to its end.
pub enum Outcome<R> {
    Success(R),
    /// Why the client was not authenticated.
    Failure(&'static str),
}

/// What the proxy authenticates with at the compute node.
pub enum ComputeCredentialKeys {
    Password(Vec<u8>),
    /// The keys of a SCRAM exchange.
    AuthKeys { client_key: Vec<u8>, server_key: Vec<u8> },
}

/// What the check of a password against a secret comes to.  `exchange` is the outcome of the
/// SCRAM exchange, with the client's key where it succeeded.
pub fn validate_password_and_exchange(secret: AuthSecret, exchange: Outcome<Vec<u8>>) -> (r: Outcome<
    ComputeCredentialKeys,
>)
    ensures
        match exchange {
            Outcome::Success(key) => r == Outcome::Success(
                ComputeCredentialKeys::AuthKeys {
                    client_key: key,
                    server_key: secret->Scram_0.server_key,
                },
            ),
            Outcome::Failure(reason) => r == Outcome::<ComputeCredentialKeys>::Failure(reason),
        },
{
    let AuthSecret::Scram(scram_secret) = secret;
    let client_key = match exchange {
        Outcome::Success(client_key) => client_key,
        Outcome::Failure(reason) => {
            return Outcome::Failure(reason);
        },
    };
    Outcome::Success(
        ComputeCredentialKeys::AuthKeys { client_key, server_key: scram_secret.server_key },
    )
}

/// The message that follows an outcome: only a success is confirmed.
pub fn confirmation<R>(outcome: &Outcome<R>) -> (r: Option<BeMessage>)
    ensures
        r == match *outcome {
            Outcome::Success(_) => Some(BeMessage::AuthenticationOk),
            Outcome::Failure(_) => None,
        },
{
    match outcome {
        Outcome::Success(_) => Some(BeMessage::AuthenticationOk),
        Outcome::Failure(_) => None,
    }
}

impl AuthFlow<CleartextPassword> {
    /// Ends the authentication by clear-text password: its outcome, and the message that
    /// confirms it.
    pub fn authenticate(self, exchange: Outcome<Vec<u8>>) -> (r: (
        Outcome<ComputeCredentialKeys>,
        Option<BeMessage>,
    ))
        ensures
            match exchange {
                Outcome::Success(key) => {
                    &&& r.0 == Outcome::Success(
                        ComputeCredentialKeys::AuthKeys {
                            client_key: key,
                            server_key: (self.state.0)->Scram_0.server_key,
                        },
                    )
                    &&& r.1 == Some(BeMessage::AuthenticationOk)
                },
                Outcome::Failure(reason) => {
                    &&& r.0 == Outcome::<ComputeCredentialKeys>::Failure(reason)
                    &&& r.1 is None
                },
            },
    {
        let outcome = validate_password_and_exchange(self.state.0, exchange);
        let message = confirmation(&outcome);
        (outcome, message)
    }
}

/// The SASL methods that are known.
#[derive(Clone, Copy, Debug, PartialEq, Eq, Structural)]
pub enum ScramMethod {
    ScramSha256,
    ScramSha256Plus,
}

/// The method of a name.
pub open spec fn method_named(name: Seq<char>) -> Option<ScramMethod> {
    if name == "SCRAM-SHA-256"@ {
        Some(ScramMethod::ScramSha256)
    } else if name == "SCRAM-SHA-256-PLUS"@ {
        Some(ScramMethod::ScramSha256Plus)
    } else {
        None
    }
}

/// How a method is recorded.
pub open spec fn recorded_method(m: ScramMethod) -> AuthMethodKind {
    match m {
        ScramMethod::ScramSha256 => AuthMethodKind::ScramSha256,
        ScramMethod::ScramSha256Plus => AuthMethodKind::ScramSha256Plus,
    }
}

impl AuthFlow<Scram> {
    /// The method that a client has chosen, which is recorded.  `method` is the name in its
    /// first message, where that message could be read.
    pub fn chosen_method(&self, ctx: &mut RequestMonitoring, method: Option<&str>) -> (r: Result<
        ScramMethod,
        AuthError,
    >)
        ensures
            final(ctx)@ == (MonitoringModel {
                auth_method: match r {
                    Ok(m) => Some(recorded_method(m)),
                    Err(_) => old(ctx)@.auth_method,
                },
                ..old(ctx)@
            }),
            match method {
                None => r matches Err(e) && (e.0 matches AuthErrorImpl::MalformedPassword(why)
                    && why@ == "bad sasl message"@),
                Some(name) => match method_named(name@) {
                    Some(m) => r == Ok::<ScramMethod, AuthError>(m),
                    None => r matches Err(e) && (e.0 matches AuthErrorImpl::BadAuthMethod(bad)
                        && bad@ == name@),
                },
            },
    {
        let name = match method {
            Some(name) => name,
            None => {
                return Err(AuthError(AuthErrorImpl::MalformedPassword("bad sasl message")));
            },
        };
        if text::same_text(name, "SCRAM-SHA-256") {
            ctx.auth_method = Some(AuthMethodKind::ScramSha256);
            Ok(ScramMethod::ScramSha256)
        } else if text::same_text(name, "SCRAM-SHA-256-PLUS") {
            ctx.auth_method = Some(AuthMethodKind::ScramSha256Plus);
            Ok(ScramMethod::ScramSha256Plus)
        } else {
            Err(AuthError::bad_auth_method(String::from_str(name)))
        }
    }

    /// Ends the authentication by SCRAM: its outcome, and the message that confirms it.
    pub fn authenticate(self, outcome: Outcome<Vec<u8>>) -> (r: (Outcome<Vec<u8>>, Option<BeMessage>))
        ensures
            r.0 == outcome,
            r.1 == match outcome {
                Outcome::Success(_) => Some(BeMessage::AuthenticationOk),
                Outcome::Failure(_) => None,
            },
    {
        let message = confirmation(&outcome);
        (outcome, message)
    }
}

/// Every method that is offered is accepted, and no other.
pub proof fn offered_methods_are_accepted(name: Seq<char>)
    ensures
        method_named(name) is Some <==> offered(true).contains(name),
        offered(false).contains(name) ==> offered(true).contains(name),
{
    assert(offered(true)[0] == "SCRAM-SHA-256-PLUS"@);
    assert(offered(true)[1] == "SCRAM-SHA-256"@);
}

/// A password message is the password and a zero byte; without that byte at its end it is none.
pub proof fn passwords_end_with_zero(password: Seq<u8>, msg: Seq<u8>)
    ensures
        message_password(password.push(0)) == Some(password),
        message_password(msg) is Some <==> msg.len() > 0 && msg[msg.len() - 1] == 0,
        message_password(msg) matches Some(p) ==> msg == p.push(0),
{
    assert(password.push(0).drop_last() =~= password);
    if message_password(msg) is Some {
        assert(msg.drop_last().push(0) =~= msg);
    }
}

/// The method with channel binding is offered, first, exactly where the channel allows it, and
/// the plain one always.
pub proof fn plain_scram_is_always_offered(plus: bool)
    ensures
        offered(plus).contains("SCRAM-SHA-256"@),
        offered(plus).contains("SCRAM-SHA-256-PLUS"@) <==> plus,
        plus ==> offered(plus)[0] == "SCRAM-SHA-256-PLUS"@,
        offered(plus).last() == "SCRAM-SHA-256"@,
{
    reveal_strlit("SCRAM-SHA-256");
    reveal_strlit("SCRAM-SHA-256-PLUS");
    assert("SCRAM-SHA-256"@.len() != "SCRAM-SHA-256-PLUS"@.len());
    assert(offered(plus)[offered(plus).len() - 1] == "SCRAM-SHA-256"@);
}

/// A chosen name stands for the method of that name, and the method is recorded as what it is.
pub proof fn methods_go_by_their_name()
    ensures
        method_named("SCRAM-SHA-256"@) == Some(ScramMethod::ScramSha256),
        method_named("SCRAM-SHA-256-PLUS"@) == Some(ScramMethod::ScramSha256Plus),
        recorded_method(ScramMethod::ScramSha256) == AuthMethodKind::ScramSha256,
        recorded_method(ScramMethod::ScramSha256Plus) == AuthMethodKind::ScramSha256Plus,
{
    reveal_strlit("SCRAM-SHA-256");
    reveal_strlit("SCRAM-SHA-256-PLUS");
    assert("SCRAM-SHA-256"@.len() != "SCRAM-SHA-256-PLUS"@.len());
}

/// Authentication opens with the method that was selected: the offer of SCRAM, with channel
/// binding where there is one, or the request for a password in clear text.
pub proof fn openings_name_the_method(
    scram: Scram,
    hack: PasswordHack,
    cleartext: CleartextPassword,
    channel_binding: bool,
)
    ensures
        scram.opening(channel_binding) == (BeMessage::AuthenticationSasl { plus: channel_binding }),
        hack.opening(channel_binding) == BeMessage::AuthenticationCleartextPassword,
        cleartext.opening(channel_binding) == BeMessage::AuthenticationCleartextPassword,
{
}

} // verus!
