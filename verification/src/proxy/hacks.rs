//! Authentication of clients that cannot follow the ordinary flow.
use vstd::prelude::*;

use crate::proxy::auth::AuthError;
use crate::proxy::auth::AuthErrorImpl;
use crate::proxy::auth_flow::ComputeCredentialKeys;
use crate::proxy::auth_flow::Outcome;
use crate::proxy::auth_flow::PasswordHackPayload;
use crate::proxy::conn_info::AuthMethodKind;
use crate::proxy::conn_info::MonitoringModel;
use crate::proxy::conn_info::RequestMonitoring;

verus! {

/// The user that a client connects as, with its options and its endpoint.
pub struct ComputeUserInfo {
    pub endpoint: String,
    pub user: String,
    /// The options as the client gave them.
    pub options: Vec<(String, String)>,
}

/// A user whose endpoint is not known yet.
pub struct ComputeUserInfoNoEndpoint {
    pub user: String,
    pub options: Vec<(String, String)>,
}

/// What is needed to connect to the compute node.
pub struct ComputeCredentials {
    pub info: ComputeUserInfo,
    pub keys: ComputeCredentialKeys,
}

/// Records that a client gives its password in clear text, before anything is read from it.
pub fn use_cleartext(ctx: &mut RequestMonitoring)
    ensures
        final(ctx)@ == (MonitoringModel {
            auth_method: Some(AuthMethodKind::Cleartext),
            ..old(ctx)@
        }),
{
    ctx.auth_method = Some(AuthMethodKind::Cleartext);
}

/// Ends the authentication by clear-text password: the credentials, the error that names the
/// user, or what went wrong on the way.  The method is recorded in any case.
pub fn authenticate_cleartext(
    ctx: &mut RequestMonitoring,
    info: ComputeUserInfo,
    outcome: Result<Outcome<ComputeCredentialKeys>, AuthError>,
) -> (r: Result<ComputeCredentials, AuthError>)
    ensures
        final(ctx)@ == (MonitoringModel {
            auth_method: Some(AuthMethodKind::Cleartext),
            ..old(ctx)@
        }),
        match outcome {
            Ok(Outcome::Success(keys)) => r == Ok::<ComputeCredentials, AuthError>(
                ComputeCredentials { info, keys },
            ),
            Ok(Outcome::Failure(_)) => r matches Err(e) && e.0 == AuthErrorImpl::AuthFailed(
                info.user,
            ),
            Err(e) => r == Err::<ComputeCredentials, AuthError>(e),
        },
{
    use_cleartext(ctx);
    let keys = match outcome {
        Ok(Outcome::Success(keys)) => keys,
        Ok(Outcome::Failure(_)) => {
            return Err(AuthError::auth_failed(info.user));
        },
        Err(e) => {
            return Err(e);
        },
    };
    Ok(ComputeCredentials { info, keys })
}

/// The credentials of a client that gave its endpoint with its password.  The password is not
/// checked here: the compute node will.  The method is recorded in any case.
pub fn password_hack_no_authentication(
    ctx: &mut RequestMonitoring,
    info: ComputeUserInfoNoEndpoint,
    payload: Result<PasswordHackPayload, AuthError>,
) -> (r: Result<ComputeCredentials, AuthError>)
    ensures
        final(ctx)@ == (MonitoringModel {
            auth_method: Some(AuthMethodKind::Cleartext),
            ..old(ctx)@
        }),
        match payload {
            Ok(p) => r matches Ok(c) && c.info.user == info.user && c.info.options == info.options
                && c.info.endpoint == p.endpoint && c.keys == ComputeCredentialKeys::Password(
                p.password,
            ),
            Err(e) => r == Err::<ComputeCredentials, AuthError>(e),
        },
{
    use_cleartext(ctx);
    let payload = match payload {
        Ok(payload) => payload,
        Err(e) => {
            return Err(e);
        },
    };
    Ok(
        ComputeCredentials {
            info: ComputeUserInfo {
                user: info.user,
                options: info.options,
                endpoint: payload.endpoint,
            },
            keys: ComputeCredentialKeys::Password(payload.password),
        },
    )
}

} // verus!
