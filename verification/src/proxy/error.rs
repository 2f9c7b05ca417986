//! Errors: what a client may be told of them and how they are counted.
use vstd::prelude::*;

verus! {

/// The kinds of input and output errors that are told apart.
#[derive(Clone, Copy, Debug, PartialEq, Eq, Structural)]
pub enum IoErrorKind {
    /// None of the kinds that the system knows.
    Other,
    UnexpectedEof,
    ConnectionReset,
    TimedOut,
}

/// An input or output error.
pub struct IoError {
    pub kind: IoErrorKind,
    pub message: String,
}

/// Makes an opaque input or output error of any error.
pub fn io_error(message: String) -> (r: IoError)
    ensures
        r.kind == IoErrorKind::Other,
        r.message == message,
{
    IoError { kind: IoErrorKind::Other, message }
}

/// Hands an error on, for use where it is also logged.
pub fn log_error<E>(e: E) -> (r: E)
    ensures
        r == e,
{
    e
}

/// Who or what an error is due to.
#[derive(Clone, Copy, Debug, PartialEq, Eq, Structural)]
pub enum ErrorKind {
    /// Wrong password, unknown endpoint, protocol violation, etc...
    User,
    /// Network error between user and proxy. Not necessarily user error
    ClientDisconnect,
    /// Proxy self-imposed user rate limits
    RateLimit,
    /// Proxy self-imposed service-wise rate limits
    ServiceRateLimit,
    /// internal errors
    Service,
    /// Error communicating with control plane
    ControlPlane,
    /// Postgres error
    Postgres,
    /// Error communicating with compute
    Compute,
}

impl ErrorKind {
    pub open spec fn label(self) -> Seq<char> {
        match self {
            ErrorKind::User => "user"@,
            ErrorKind::ClientDisconnect => "clientdisconnect"@,
            ErrorKind::RateLimit => "ratelimit"@,
            ErrorKind::ServiceRateLimit => "serviceratelimit"@,
            ErrorKind::Service => "service"@,
            ErrorKind::ControlPlane => "controlplane"@,
            ErrorKind::Postgres => "postgres"@,
            ErrorKind::Compute => "compute"@,
        }
    }

    /// The metric label.
    pub fn to_metric_label(&self) -> (r: &'static str)
        ensures
            r@ == self.label(),
    {
        match self {
            ErrorKind::User => "user",
            ErrorKind::ClientDisconnect => "clientdisconnect",
            ErrorKind::RateLimit => "ratelimit",
            ErrorKind::ServiceRateLimit => "serviceratelimit",
            ErrorKind::Service => "service",
            ErrorKind::ControlPlane => "controlplane",
            ErrorKind::Postgres => "postgres",
            ErrorKind::Compute => "compute",
        }
    }
}

/// An error of which it is known who or what it is due to.
pub trait ReportableError {
    spec fn kind(&self) -> ErrorKind;

    /// Who or what the error is due to.
    fn get_error_kind(&self) -> (r: ErrorKind)
        ensures
            r == self.kind(),
    ;
}

/// An error that may be shown to a client.
pub trait UserFacingError: ReportableError {
    spec fn text(&self) -> Seq<char>;

    spec fn client_text(&self) -> Seq<char>;

    /// The error in words.
    fn to_text(&self) -> (r: String)
        ensures
            r@ == self.text(),
    ;

    /// The error in words that a client may see, without anything sensitive.
    fn to_string_client(&self) -> (r: String)
        ensures
            r@ == self.client_text(),
    ;
}

/// An error that another part of the system reports: its words, those for a client, and who
/// or what it is due to.
pub struct ReportedError {
    pub message: String,
    pub client_message: String,
    pub kind: ErrorKind,
}

impl ReportableError for ReportedError {
    open spec fn kind(&self) -> ErrorKind {
        self.kind
    }

    fn get_error_kind(&self) -> (r: ErrorKind) {
        self.kind
    }
}

impl UserFacingError for ReportedError {
    open spec fn text(&self) -> Seq<char> {
        self.message@
    }

    open spec fn client_text(&self) -> Seq<char> {
        self.client_message@
    }

    fn to_text(&self) -> (r: String) {
        self.message.clone()
    }

    fn to_string_client(&self) -> (r: String) {
        self.client_message.clone()
    }
}

/// What an error of a connection to Postgres is due to: Postgres itself where it reported the
/// error, otherwise the way to it.
pub struct PostgresError {
    pub is_db_error: bool,
}

impl ReportableError for PostgresError {
    open spec fn kind(&self) -> ErrorKind {
        if self.is_db_error {
            ErrorKind::Postgres
        } else {
            ErrorKind::Compute
        }
    }

    fn get_error_kind(&self) -> (r: ErrorKind) {
        if self.is_db_error {
            ErrorKind::Postgres
        } else {
            ErrorKind::Compute
        }
    }
}

/// Each kind of error is counted under a label of its own.
pub proof fn labels_are_distinct(a: ErrorKind, b: ErrorKind)
    ensures
        a.label() == b.label() ==> a == b,
{
    reveal_strlit("user");
    reveal_strlit("clientdisconnect");
    reveal_strlit("ratelimit");
    reveal_strlit("serviceratelimit");
    reveal_strlit("service");
    reveal_strlit("controlplane");
    reveal_strlit("postgres");
    reveal_strlit("compute");
    assert("user"@.len() == 4 && "clientdisconnect"@.len() == 16 && "ratelimit"@.len() == 9
        && "serviceratelimit"@.len() == 16 && "service"@.len() == 7 && "controlplane"@.len() == 12
        && "postgres"@.len() == 8 && "compute"@.len() == 7);
    assert("clientdisconnect"@[0] == 'c' && "serviceratelimit"@[0] == 's');
    assert("service"@[0] == 's' && "compute"@[0] == 'c');
}

/// The labels under which errors are counted.
pub proof fn error_labels()
    ensures
        ErrorKind::User.label() == "user"@,
        ErrorKind::ClientDisconnect.label() == "clientdisconnect"@,
        ErrorKind::RateLimit.label() == "ratelimit"@,
        ErrorKind::ServiceRateLimit.label() == "serviceratelimit"@,
        ErrorKind::Service.label() == "service"@,
        ErrorKind::ControlPlane.label() == "controlplane"@,
        ErrorKind::Postgres.label() == "postgres"@,
        ErrorKind::Compute.label() == "compute"@,
{
}

} // verus!
