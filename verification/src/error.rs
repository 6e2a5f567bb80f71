use vstd::prelude::*;

use crate::decimal::{decimal_digits, u64_to_decimal};

verus! {

/// Server-side errors of the service.
#[derive(Clone, Copy, Debug, PartialEq, Eq, Structural)]
pub enum Error {
    LoginFailed,
    // Auth errors.
    AuthFailedAuthTokenCookies,
    AuthFailedTokenWrongFormat,
    AuthFailedCtxNotInrequestExt,
    // Model errors.
    TicketDeleteNotFound { id: u64 },
    TicketUpdateNotFound { id: u64 },
    TicketGetNotFound { id: u64 },
}

/// Errors as they are reported to clients.
#[allow(non_camel_case_types)]
#[derive(Clone, Copy, Debug, PartialEq, Eq, Structural)]
pub enum ClientError {
    LOGIN_FAIL,
    NO_AUTH,
    INVALID_PARAMS,
    SERVCE_ERROR,
}

/// HTTP status `403 Forbidden`.
pub const STATUS_FORBIDDEN: u16 = 403;
/// HTTP status `401 Unauthorized`.
pub const STATUS_UNAUTHORIZED: u16 = 401;
/// HTTP status `400 Bad Request`.
pub const STATUS_BAD_REQUEST: u16 = 400;
/// HTTP status `500 Internal Server Error`.
pub const STATUS_INTERNAL_SERVER_ERROR: u16 = 500;

/// The HTTP status and client error that a server error is reported as.
/// Only the deletion of a missing ticket counts as a client's bad parameter;
/// the other model errors fall back to a service error.
pub open spec fn spec_client_status_and_error(e: Error) -> (u16, ClientError) {
    match e {
        Error::LoginFailed => (STATUS_FORBIDDEN, ClientError::LOGIN_FAIL),
        Error::AuthFailedAuthTokenCookies
        | Error::AuthFailedTokenWrongFormat
        | Error::AuthFailedCtxNotInrequestExt => (STATUS_UNAUTHORIZED, ClientError::NO_AUTH),
        Error::TicketDeleteNotFound { .. } => (STATUS_BAD_REQUEST, ClientError::INVALID_PARAMS),
        _ => (STATUS_INTERNAL_SERVER_ERROR, ClientError::SERVCE_ERROR),
    }
}

impl Error {
    /// The HTTP status code and the client error that this error is answered with.
    pub fn client_satus_and_error(&self) -> (res: (u16, ClientError))
        ensures
            res == spec_client_status_and_error(*self),
    {
        match self {
            Error::LoginFailed => (STATUS_FORBIDDEN, ClientError::LOGIN_FAIL),
            Error::AuthFailedAuthTokenCookies
            | Error::AuthFailedTokenWrongFormat
            | Error::AuthFailedCtxNotInrequestExt => (STATUS_UNAUTHORIZED, ClientError::NO_AUTH),
            Error::TicketDeleteNotFound { .. } => (STATUS_BAD_REQUEST, ClientError::INVALID_PARAMS),
            _ => (STATUS_INTERNAL_SERVER_ERROR, ClientError::SERVCE_ERROR),
        }
    }
}

/// The name of a client error's variant, as reported to clients.
pub open spec fn spec_client_error_name(c: ClientError) -> Seq<char> {
    match c {
        ClientError::LOGIN_FAIL => "LOGIN_FAIL"@,
        ClientError::NO_AUTH => "NO_AUTH"@,
        ClientError::INVALID_PARAMS => "INVALID_PARAMS"@,
        ClientError::SERVCE_ERROR => "SERVCE_ERROR"@,
    }
}

impl ClientError {
    /// The variant's name, e.g. `"NO_AUTH"`.
    pub fn as_ref(&self) -> (res: &'static str)
        ensures
            res@ == spec_client_error_name(*self),
    {
        match self {
            ClientError::LOGIN_FAIL => "LOGIN_FAIL",
            ClientError::NO_AUTH => "NO_AUTH",
            ClientError::INVALID_PARAMS => "INVALID_PARAMS",
            ClientError::SERVCE_ERROR => "SERVCE_ERROR",
        }
    }
}

/// The name of a server error's variant, without its fields.
pub open spec fn spec_error_name(e: Error) -> Seq<char> {
    match e {
        Error::LoginFailed => "LoginFailed"@,
        Error::AuthFailedAuthTokenCookies => "AuthFailedAuthTokenCookies"@,
        Error::AuthFailedTokenWrongFormat => "AuthFailedTokenWrongFormat"@,
        Error::AuthFailedCtxNotInrequestExt => "AuthFailedCtxNotInrequestExt"@,
        Error::TicketDeleteNotFound { .. } => "TicketDeleteNotFound"@,
        Error::TicketUpdateNotFound { .. } => "TicketUpdateNotFound"@,
        Error::TicketGetNotFound { .. } => "TicketGetNotFound"@,
    }
}

impl Error {
    /// The variant's name, e.g. `"TicketGetNotFound"`.
    pub fn as_ref(&self) -> (res: &'static str)
        ensures
            res@ == spec_error_name(*self),
    {
        match self {
            Error::LoginFailed => "LoginFailed",
            Error::AuthFailedAuthTokenCookies => "AuthFailedAuthTokenCookies",
            Error::AuthFailedTokenWrongFormat => "AuthFailedTokenWrongFormat",
            Error::AuthFailedCtxNotInrequestExt => "AuthFailedCtxNotInrequestExt",
            Error::TicketDeleteNotFound { .. } => "TicketDeleteNotFound",
            Error::TicketUpdateNotFound { .. } => "TicketUpdateNotFound",
            Error::TicketGetNotFound { .. } => "TicketGetNotFound",
        }
    }
}

/// How an error is displayed: its variant's name, followed by its fields in
/// braces, as in `TicketGetNotFound { id: 5 }`.
pub open spec fn spec_error_display(e: Error) -> Seq<char> {
    match e {
        Error::TicketDeleteNotFound { id }
        | Error::TicketUpdateNotFound { id }
        | Error::TicketGetNotFound { id } => spec_error_name(e) + " { id: "@ + decimal_digits(
            id as nat,
        ) + " }"@,
        _ => spec_error_name(e),
    }
}

impl Error {
    /// The error as it is displayed.
    pub fn to_string(&self) -> (s: String)
        ensures
            s@ == spec_error_display(*self),
    {
        let mut s = String::from_str(self.as_ref());
        match self {
            Error::TicketDeleteNotFound { id }
            | Error::TicketUpdateNotFound { id }
            | Error::TicketGetNotFound { id } => {
                s.append(" { id: ");
                let digits = u64_to_decimal(*id);
                s.append(digits.as_str());
                s.append(" }");
            },
            _ => {},
        }
        s
    }
}


/// How each error is answered, whatever the id it carries: a refused login
/// is `403 LOGIN_FAIL`, every auth failure `401 NO_AUTH`, deleting a missing
/// ticket `400 INVALID_PARAMS`, and reading or retitling a missing ticket
/// `500 SERVCE_ERROR`.
pub proof fn lemma_client_status_table(id: u64)
    ensures
        spec_client_status_and_error(Error::LoginFailed) == (403u16, ClientError::LOGIN_FAIL),
        spec_client_status_and_error(Error::AuthFailedAuthTokenCookies) == (
            401u16,
            ClientError::NO_AUTH,
        ),
        spec_client_status_and_error(Error::AuthFailedTokenWrongFormat) == (
            401u16,
            ClientError::NO_AUTH,
        ),
        spec_client_status_and_error(Error::AuthFailedCtxNotInrequestExt) == (
            401u16,
            ClientError::NO_AUTH,
        ),
        spec_client_status_and_error(Error::TicketDeleteNotFound { id }) == (
            400u16,
            ClientError::INVALID_PARAMS,
        ),
        spec_client_status_and_error(Error::TicketUpdateNotFound { id }) == (
            500u16,
            ClientError::SERVCE_ERROR,
        ),
        spec_client_status_and_error(Error::TicketGetNotFound { id }) == (
            500u16,
            ClientError::SERVCE_ERROR,
        ),
{
}

/// The status is `400` exactly for the deletion of a missing ticket, and
/// `401` exactly for the auth failures.
pub proof fn lemma_client_status_classes(e: Error)
    ensures
        spec_client_status_and_error(e).0 == 400u16 <==> e is TicketDeleteNotFound,
        spec_client_status_and_error(e).0 == 401u16 <==> (e is AuthFailedAuthTokenCookies
            || e is AuthFailedTokenWrongFormat || e is AuthFailedCtxNotInrequestExt),
        spec_client_status_and_error(e).0 == 403u16 <==> e is LoginFailed,
{
}

} // verus!
