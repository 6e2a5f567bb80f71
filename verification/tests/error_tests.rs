use ticket_service::error::{
    STATUS_BAD_REQUEST, STATUS_FORBIDDEN, STATUS_INTERNAL_SERVER_ERROR, STATUS_UNAUTHORIZED,
};
use ticket_service::{ClientError, Error};

#[test]
fn login_failed_is_forbidden_login_fail() {
    assert_eq!(
        Error::LoginFailed.client_satus_and_error(),
        (STATUS_FORBIDDEN, ClientError::LOGIN_FAIL)
    );
    assert_eq!(STATUS_FORBIDDEN, 403);
}

#[test]
fn auth_errors_are_unauthorized_no_auth() {
    for e in [
        Error::AuthFailedAuthTokenCookies,
        Error::AuthFailedTokenWrongFormat,
        Error::AuthFailedCtxNotInrequestExt,
    ] {
        assert_eq!(e.client_satus_and_error(), (401, ClientError::NO_AUTH));
    }
    assert_eq!(STATUS_UNAUTHORIZED, 401);
}

#[test]
fn delete_not_found_is_bad_request_invalid_params() {
    assert_eq!(
        Error::TicketDeleteNotFound { id: 3 }.client_satus_and_error(),
        (STATUS_BAD_REQUEST, ClientError::INVALID_PARAMS)
    );
    assert_eq!(STATUS_BAD_REQUEST, 400);
}

#[test]
fn other_model_errors_fall_back_to_service_error() {
    assert_eq!(
        Error::TicketUpdateNotFound { id: 1 }.client_satus_and_error(),
        (STATUS_INTERNAL_SERVER_ERROR, ClientError::SERVCE_ERROR)
    );
    assert_eq!(
        Error::TicketGetNotFound { id: 9 }.client_satus_and_error(),
        (500, ClientError::SERVCE_ERROR)
    );
}

#[test]
fn client_error_names() {
    assert_eq!(ClientError::LOGIN_FAIL.as_ref(), "LOGIN_FAIL");
    assert_eq!(ClientError::NO_AUTH.as_ref(), "NO_AUTH");
    assert_eq!(ClientError::INVALID_PARAMS.as_ref(), "INVALID_PARAMS");
    assert_eq!(ClientError::SERVCE_ERROR.as_ref(), "SERVCE_ERROR");
}

#[test]
fn error_names() {
    assert_eq!(Error::LoginFailed.as_ref(), "LoginFailed");
    assert_eq!(Error::AuthFailedAuthTokenCookies.as_ref(), "AuthFailedAuthTokenCookies");
    assert_eq!(Error::AuthFailedTokenWrongFormat.as_ref(), "AuthFailedTokenWrongFormat");
    assert_eq!(Error::AuthFailedCtxNotInrequestExt.as_ref(), "AuthFailedCtxNotInrequestExt");
    assert_eq!(Error::TicketDeleteNotFound { id: 1 }.as_ref(), "TicketDeleteNotFound");
    assert_eq!(Error::TicketUpdateNotFound { id: 1 }.as_ref(), "TicketUpdateNotFound");
    assert_eq!(Error::TicketGetNotFound { id: 1 }.as_ref(), "TicketGetNotFound");
}

#[test]
fn error_debug_format() {
    assert_eq!(format!("{:?}", Error::TicketGetNotFound { id: 5 }), "TicketGetNotFound { id: 5 }");
    assert_eq!(format!("{:?}", Error::LoginFailed), "LoginFailed");
}
