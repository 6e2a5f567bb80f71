use ticket_service::web::{
    api_login, ctx_from_request_ext, hello_html, require_auth, resolve_ctx,
    should_remove_auth_cookie, LoginPayload,
};
use ticket_service::{ClientError, Ctx, Error};

fn login(u: &str, p: &str) -> Result<String, Error> {
    api_login(&LoginPayload { username: u.to_string(), pwd: p.to_string() })
}

#[test]
fn login_with_demo_credentials_gives_token() {
    assert_eq!(login("demo1", "welcome"), Ok("user-1.exp.sign".to_string()));
}

#[test]
fn login_with_other_credentials_fails() {
    assert_eq!(login("demo1", "wrong"), Err(Error::LoginFailed));
    assert_eq!(login("demo2", "welcome"), Err(Error::LoginFailed));
    assert_eq!(login("", ""), Err(Error::LoginFailed));
    assert_eq!(
        Error::LoginFailed.client_satus_and_error(),
        (403, ClientError::LOGIN_FAIL)
    );
}

#[test]
fn login_token_resolves_to_user_one() {
    let token = login("demo1", "welcome").unwrap();
    let ctx = resolve_ctx(Some(token)).unwrap();
    assert_eq!(ctx.user_id(), 1);
}

#[test]
fn missing_cookie_is_kept() {
    let r = resolve_ctx(None);
    assert_eq!(r, Err(Error::AuthFailedAuthTokenCookies));
    assert!(!should_remove_auth_cookie(&r));
}

#[test]
fn malformed_cookie_is_removed() {
    let r = resolve_ctx(Some("garbage".to_string()));
    assert_eq!(r, Err(Error::AuthFailedTokenWrongFormat));
    assert!(should_remove_auth_cookie(&r));
    assert_eq!(r.unwrap_err().client_satus_and_error(), (401, ClientError::NO_AUTH));
}

#[test]
fn valid_cookie_is_kept() {
    let r = resolve_ctx(Some("user-12.e.s".to_string()));
    assert_eq!(r, Ok(Ctx::new(12)));
    assert!(!should_remove_auth_cookie(&r));
}

#[test]
fn ctx_extraction() {
    assert_eq!(ctx_from_request_ext(None), Err(Error::AuthFailedCtxNotInrequestExt));
    assert_eq!(ctx_from_request_ext(Some(&Ok(Ctx::new(3)))), Ok(Ctx::new(3)));
    assert_eq!(
        ctx_from_request_ext(Some(&Err(Error::AuthFailedTokenWrongFormat))),
        Err(Error::AuthFailedTokenWrongFormat)
    );
}

#[test]
fn require_auth_passes_only_with_ctx() {
    assert_eq!(require_auth(&Ok(Ctx::new(1))), Ok(()));
    assert_eq!(
        require_auth(&Err(Error::AuthFailedAuthTokenCookies)),
        Err(Error::AuthFailedAuthTokenCookies)
    );
}

#[test]
fn hello_pages() {
    assert_eq!(hello_html(None), "Hello <strong>World</strong>");
    assert_eq!(hello_html(Some("Jen")), "Hello <strong>Jen</strong>");
}
