//! Client authentication errors.
use vstd::prelude::*;

use crate::proxy::error::ErrorKind;
use crate::proxy::error::IoError;
use crate::proxy::error::ReportableError;
use crate::proxy::error::ReportedError;
use crate::proxy::error::UserFacingError;

verus! {

/// Common authentication error.
pub enum AuthErrorImpl {
    Link(ReportedError),
    GetAuthInfo(ReportedError),
    /// SASL protocol errors (includes SCRAM).
    Sasl(ReportedError),
    BadAuthMethod(String),
    MalformedPassword(&'static str),
    MissingEndpointName,
    AuthFailed(String),
    Io(IoError),
    /// The address in its usual notation.
    IpAddressNotAllowed(String),
    TooManyConnections,
    UserTimeout,
}

/// Convenience wrapper for the authentication error.
pub struct AuthError(pub AuthErrorImpl);

impl AuthErrorImpl {
    /// The error in words.
    pub open spec fn message_text(self) -> Seq<char> {
        match self {
            AuthErrorImpl::Link(e) => e.message@,
            AuthErrorImpl::GetAuthInfo(e) => e.message@,
            AuthErrorImpl::Sasl(e) => e.message@,
            AuthErrorImpl::BadAuthMethod(name) => "Unsupported authentication method: "@ + name@,
            AuthErrorImpl::MalformedPassword(why) => "Malformed password message: "@ + why@,
            AuthErrorImpl::MissingEndpointName =>
                "Endpoint ID is not specified. Either please upgrade the postgres client library (libpq) for SNI support or pass the endpoint ID (first part of the domain name) as a parameter: '?options=endpoint%3D<endpoint-id>'. See more at https://neon.tech/sni"@,
            AuthErrorImpl::AuthFailed(user) => "password authentication failed for user '"@ + user@
                + "'"@,
            AuthErrorImpl::Io(e) => e.message@,
            AuthErrorImpl::IpAddressNotAllowed(ip) => "This IP address "@ + ip@
                + " is not allowed to connect to this endpoint. Please add it to the allowed list in the Neon console. Make sure to check for IPv4 or IPv6 addresses."@,
            AuthErrorImpl::TooManyConnections =>
                "Too many connections to this endpoint. Please try again later."@,
            AuthErrorImpl::UserTimeout => "Authentication timed out"@,
        }
    }
}

impl AuthError {
    /// The client asked for a method that is not known.
    pub fn bad_auth_method(name: String) -> (r: AuthError)
        ensures
            r.0 == AuthErrorImpl::BadAuthMethod(name),
    {
        AuthError(AuthErrorImpl::BadAuthMethod(name))
    }

    /// The password was wrong.
    pub fn auth_failed(user: String) -> (r: AuthError)
        ensures
            r.0 == AuthErrorImpl::AuthFailed(user),
    {
        AuthError(AuthErrorImpl::AuthFailed(user))
    }

    /// The client's address is not on the list.
    pub fn ip_address_not_allowed(ip: String) -> (r: AuthError)
        ensures
            r.0 == AuthErrorImpl::IpAddressNotAllowed(ip),
    {
        AuthError(AuthErrorImpl::IpAddressNotAllowed(ip))
    }

    /// The endpoint has too many connections.
    pub fn too_many_connections() -> (r: AuthError)
        ensures
            r.0 == AuthErrorImpl::TooManyConnections,
    {
        AuthError(AuthErrorImpl::TooManyConnections)
    }

    /// Whether the password was wrong.
    pub fn is_auth_failed(&self) -> (r: bool)
        ensures
            r == (self.0 is AuthFailed),
    {
        match self.0 {
            AuthErrorImpl::AuthFailed(_) => true,
            _ => false,
        }
    }

    /// The client took too long.
    pub fn user_timeout() -> (r: AuthError)
        ensures
            r.0 == AuthErrorImpl::UserTimeout,
    {
        AuthError(AuthErrorImpl::UserTimeout)
    }
}

impl ReportableError for AuthError {
    open spec fn kind(&self) -> ErrorKind {
        match self.0 {
            AuthErrorImpl::Link(e) => e.kind,
            AuthErrorImpl::GetAuthInfo(e) => e.kind,
            AuthErrorImpl::Sasl(e) => e.kind,
            AuthErrorImpl::Io(_) => ErrorKind::ClientDisconnect,
            AuthErrorImpl::TooManyConnections => ErrorKind::RateLimit,
            _ => ErrorKind::User,
        }
    }

    fn get_error_kind(&self) -> (r: ErrorKind) {
        match &self.0 {
            AuthErrorImpl::Link(e) => e.get_error_kind(),
            AuthErrorImpl::GetAuthInfo(e) => e.get_error_kind(),
            AuthErrorImpl::Sasl(e) => e.get_error_kind(),
            AuthErrorImpl::AuthFailed(_) => ErrorKind::User,
            AuthErrorImpl::BadAuthMethod(_) => ErrorKind::User,
            AuthErrorImpl::MalformedPassword(_) => ErrorKind::User,
            AuthErrorImpl::MissingEndpointName => ErrorKind::User,
            AuthErrorImpl::Io(_) => ErrorKind::ClientDisconnect,
            AuthErrorImpl::IpAddressNotAllowed(_) => ErrorKind::User,
            AuthErrorImpl::TooManyConnections => ErrorKind::RateLimit,
            AuthErrorImpl::UserTimeout => ErrorKind::User,
        }
    }
}

impl UserFacingError for AuthError {
    open spec fn text(&self) -> Seq<char> {
        self.0.message_text()
    }

    open spec fn client_text(&self) -> Seq<char> {
        match self.0 {
            AuthErrorImpl::Link(e) => e.client_message@,
            AuthErrorImpl::GetAuthInfo(e) => e.client_message@,
            AuthErrorImpl::Sasl(e) => e.client_message@,
            AuthErrorImpl::Io(_) => "Internal error"@,
            _ => self.0.message_text(),
        }
    }

    fn to_text(&self) -> (r: String) {
        match &self.0 {
            AuthErrorImpl::Link(e) => e.to_text(),
            AuthErrorImpl::GetAuthInfo(e) => e.to_text(),
            AuthErrorImpl::Sasl(e) => e.to_text(),
            AuthErrorImpl::BadAuthMethod(name) => {
                let mut s = String::from_str("Unsupported authentication method: ");
                s.append(name.as_str());
                s
            },
            AuthErrorImpl::MalformedPassword(why) => {
                let mut s = String::from_str("Malformed password message: ");
                s.append(why);
                s
            },
            AuthErrorImpl::MissingEndpointName => String::from_str(
                "Endpoint ID is not specified. Either please upgrade the postgres client library (libpq) for SNI support or pass the endpoint ID (first part of the domain name) as a parameter: '?options=endpoint%3D<endpoint-id>'. See more at https://neon.tech/sni",
            ),
            AuthErrorImpl::AuthFailed(user) => {
                let mut s = String::from_str("password authentication failed for user '");
                s.append(user.as_str());
                s.append("'");
                s
            },
            AuthErrorImpl::Io(e) => e.message.clone(),
            AuthErrorImpl::IpAddressNotAllowed(ip) => {
                let mut s = String::from_str("This IP address ");
                s.append(ip.as_str());
                s.append(
                    " is not allowed to connect to this endpoint. Please add it to the allowed list in the Neon console. Make sure to check for IPv4 or IPv6 addresses.",
                );
                s
            },
            AuthErrorImpl::TooManyConnections => String::from_str(
                "Too many connections to this endpoint. Please try again later.",
            ),
            AuthErrorImpl::UserTimeout => String::from_str("Authentication timed out"),
        }
    }

    fn to_string_client(&self) -> (r: String) {
        match &self.0 {
            AuthErrorImpl::Link(e) => e.to_string_client(),
            AuthErrorImpl::GetAuthInfo(e) => e.to_string_client(),
            AuthErrorImpl::Sasl(e) => e.to_string_client(),
            AuthErrorImpl::Io(_) => String::from_str("Internal error"),
            _ => self.to_text(),
        }
    }
}

/// What a client is told of an input or output error does not depend on the error.
pub proof fn io_errors_are_not_disclosed(a: IoError, b: IoError)
    ensures
        AuthError(AuthErrorImpl::Io(a)).client_text() == AuthError(
            AuthErrorImpl::Io(b),
        ).client_text(),
{
}

/// Whose fault an error of the authentication is: that of the part it comes from for errors that
/// are passed on, the client's connection for input and output, the limit for too many
/// connections, and the user for everything else.
pub proof fn auth_errors_have_their_kind(e: AuthErrorImpl)
    ensures
        e matches AuthErrorImpl::Link(inner) ==> AuthError(e).kind() == inner.kind,
        e matches AuthErrorImpl::GetAuthInfo(inner) ==> AuthError(e).kind() == inner.kind,
        e matches AuthErrorImpl::Sasl(inner) ==> AuthError(e).kind() == inner.kind,
        e is Io ==> AuthError(e).kind() == ErrorKind::ClientDisconnect,
        e is TooManyConnections ==> AuthError(e).kind() == ErrorKind::RateLimit,
        e is BadAuthMethod || e is MalformedPassword || e is MissingEndpointName || e is AuthFailed
            || e is IpAddressNotAllowed || e is UserTimeout ==> AuthError(e).kind()
            == ErrorKind::User,
{
}

/// The client is told an error in its own words, but for errors that are passed on, which have
/// words for the client, and for input and output, of which nothing is told.
pub proof fn clients_are_told_the_error(e: AuthErrorImpl)
    ensures
        e matches AuthErrorImpl::Link(inner) ==> AuthError(e).client_text()
            == inner.client_message@ && AuthError(e).text() == inner.message@,
        e matches AuthErrorImpl::GetAuthInfo(inner) ==> AuthError(e).client_text()
            == inner.client_message@ && AuthError(e).text() == inner.message@,
        e matches AuthErrorImpl::Sasl(inner) ==> AuthError(e).client_text()
            == inner.client_message@ && AuthError(e).text() == inner.message@,
        e matches AuthErrorImpl::Io(inner) ==> AuthError(e).client_text() == "Internal error"@
            && AuthError(e).text() == inner.message@,
        !(e is Link || e is GetAuthInfo || e is Sasl || e is Io) ==> AuthError(e).client_text()
            == AuthError(e).text(),
        e matches AuthErrorImpl::AuthFailed(user) ==> AuthError(e).text()
            == "password authentication failed for user '"@ + user@ + "'"@,
        e matches AuthErrorImpl::BadAuthMethod(name) ==> AuthError(e).text()
            == "Unsupported authentication method: "@ + name@,
        e matches AuthErrorImpl::MalformedPassword(why) ==> AuthError(e).text()
            == "Malformed password message: "@ + why@,
        e matches AuthErrorImpl::IpAddressNotAllowed(ip) ==> AuthError(e).text()
            == "This IP address "@ + ip@
            + " is not allowed to connect to this endpoint. Please add it to the allowed list in the Neon console. Make sure to check for IPv4 or IPv6 addresses."@,
        e is TooManyConnections ==> AuthError(e).text()
            == "Too many connections to this endpoint. Please try again later."@,
        e is UserTimeout ==> AuthError(e).text() == "Authentication timed out"@,
{
}

} // verus!
