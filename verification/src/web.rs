//! The decisions of the web layer: login, resolving the request context
//! from the auth token, guarding the ticket routes, and the hello page.
use vstd::prelude::*;

use crate::ctx::Ctx;
use crate::error::{spec_client_status_and_error, ClientError, Error, STATUS_FORBIDDEN, STATUS_UNAUTHORIZED};
use crate::decimal::{decimal_digits, decimal_value};
use crate::token::{
    lemma_parse_token_of, lemma_parse_token_of_user, no_line_feed, parse_token, spec_parse_token,
    token_of,
};

verus! {

/// The credentials a client logs in with.
#[derive(Debug)]
pub struct LoginPayload {
    pub username: String,
    pub pwd: String,
}

/// The user name that the service accepts.
pub open spec fn login_username() -> Seq<char> {
    "demo1"@
}

/// The password that the service accepts.
pub open spec fn login_pwd() -> Seq<char> {
    "welcome"@
}

/// The auth token that a successful login hands out.
pub open spec fn login_token() -> Seq<char> {
    "user-1.exp.sign"@
}

/// Checks the credentials and returns the auth token to set as the auth
/// cookie, or `LoginFailed` unless they are `demo1` / `welcome`.
pub fn api_login(payload: &LoginPayload) -> (res: Result<String, Error>)
    ensures
        match res {
            Ok(token) => payload.username@ == login_username() && payload.pwd@ == login_pwd()
                && token@ == login_token(),
            Err(e) => !(payload.username@ == login_username() && payload.pwd@ == login_pwd()) && e
                == Error::LoginFailed,
        },
{
    let username = String::from_str("demo1");
    let pwd = String::from_str("welcome");
    if payload.username != username || payload.pwd != pwd {
        return Err(Error::LoginFailed);
    }
    Ok(String::from_str("user-1.exp.sign"))
}

/// The user id that the auth token (if the request carried one) resolves to.
pub open spec fn spec_resolve_ctx(auth_token: Option<Seq<char>>) -> Result<u64, Error> {
    match auth_token {
        None => Err(Error::AuthFailedAuthTokenCookies),
        Some(t) => match spec_parse_token(t) {
            Ok((user_id, _, _)) => Ok(user_id),
            Err(e) => Err(e),
        },
    }
}

/// The value of a context result: the user id.
pub open spec fn ctx_result_view(r: Result<Ctx, Error>) -> Result<u64, Error> {
    match r {
        Ok(ctx) => Ok(ctx.spec_user_id()),
        Err(e) => Err(e),
    }
}

pub open spec fn option_string_view(o: Option<String>) -> Option<Seq<char>> {
    match o {
        Some(s) => Some(s@),
        None => None,
    }
}

/// Resolves the request context from the auth cookie's value.
pub fn resolve_ctx(auth_token: Option<String>) -> (res: Result<Ctx, Error>)
    ensures
        ctx_result_view(res) == spec_resolve_ctx(option_string_view(auth_token)),
{
    match auth_token {
        None => Err(Error::AuthFailedAuthTokenCookies),
        Some(token) => match parse_token(token) {
            Ok((user_id, _exp, _sign)) => Ok(Ctx::new(user_id)),
            Err(e) => Err(e),
        },
    }
}

/// Whether the auth cookie is to be removed: when resolving the context
/// failed for another reason than a missing cookie.
pub open spec fn spec_should_remove_auth_cookie(r: Result<u64, Error>) -> bool {
    match r {
        Ok(_) => false,
        Err(e) => e != Error::AuthFailedAuthTokenCookies,
    }
}

pub fn should_remove_auth_cookie(result_ctx: &Result<Ctx, Error>) -> (remove: bool)
    ensures
        remove == spec_should_remove_auth_cookie(ctx_result_view(*result_ctx)),
{
    match result_ctx {
        Ok(_) => false,
        Err(Error::AuthFailedAuthTokenCookies) => false,
        Err(_) => true,
    }
}

/// The context stored in a request by the resolver; a request without one
/// was not resolved.
pub fn ctx_from_request_ext(stored: Option<&Result<Ctx, Error>>) -> (res: Result<Ctx, Error>)
    ensures
        res == match stored {
            Some(r) => *r,
            None => Err(Error::AuthFailedCtxNotInrequestExt),
        },
{
    match stored {
        Some(r) => *r,
        None => Err(Error::AuthFailedCtxNotInrequestExt),
    }
}

/// Lets a request through to the ticket routes only with a resolved context.
pub fn require_auth(ctx: &Result<Ctx, Error>) -> (res: Result<(), Error>)
    ensures
        res == match *ctx {
            Ok(_) => Ok(()),
            Err(e) => Err::<(), Error>(e),
        },
{
    match ctx {
        Ok(_) => Ok(()),
        Err(e) => Err(*e),
    }
}

/// The hello page for `name`, or for `World` when no name is given.
pub open spec fn spec_hello_html(name: Option<Seq<char>>) -> Seq<char> {
    let n = match name {
        Some(n) => n,
        None => "World"@,
    };
    "Hello <strong>"@ + n + "</strong>"@
}

pub open spec fn option_str_view(o: Option<&str>) -> Option<Seq<char>> {
    match o {
        Some(s) => Some(s@),
        None => None,
    }
}

pub fn hello_html(name: Option<&str>) -> (html: String)
    ensures
        html@ == spec_hello_html(option_str_view(name)),
{
    let mut html = String::from_str("Hello <strong>");
    match name {
        Some(n) => html.append(n),
        None => html.append("World"),
    }
    html.append("</strong>");
    html
}

// ---------------------------------------------------------------------------
// Laws of the web layer.
// ---------------------------------------------------------------------------
/// The token handed out at login resolves to the context of user 1.
pub proof fn lemma_login_token_resolves()
    ensures
        spec_parse_token(login_token()) == Ok::<(u64, Seq<char>, Seq<char>), Error>(
            (1, "exp"@, "sign"@),
        ),
        spec_resolve_ctx(Some(login_token())) == Ok::<u64, Error>(1),
{
    reveal_strlit("user-1.exp.sign");
    reveal_strlit("exp");
    reveal_strlit("sign");
    let digits = seq!['1'];
    let exp = seq!['e', 'x', 'p'];
    let sig = seq!['s', 'i', 'g', 'n'];
    assert(decimal_value(digits.drop_last()) == 0);
    assert(decimal_value(digits) == 1);
    lemma_parse_token_of(digits, exp, sig);
    assert(token_of(digits, exp, sig) =~= login_token());
    assert(exp =~= "exp"@);
    assert(sig =~= "sign"@);
}

/// The auth cookie is removed exactly when the request carried a token that
/// was rejected.
pub proof fn lemma_remove_cookie_iff_rejected(auth_token: Option<Seq<char>>)
    ensures
        spec_should_remove_auth_cookie(spec_resolve_ctx(auth_token)) <==> (auth_token is Some
            && spec_parse_token(auth_token->0) is Err),
{
}

/// Every failure to resolve a context is answered as `401` / `NO_AUTH`.
pub proof fn lemma_rejected_ctx_is_no_auth(auth_token: Option<Seq<char>>)
    ensures
        spec_resolve_ctx(auth_token) matches Err(e) ==> spec_client_status_and_error(e) == (
            STATUS_UNAUTHORIZED,
            ClientError::NO_AUTH,
        ),
        spec_client_status_and_error(Error::AuthFailedCtxNotInrequestExt) == (
            STATUS_UNAUTHORIZED,
            ClientError::NO_AUTH,
        ),
{
}

/// A refused login is answered as `403` / `LOGIN_FAIL`.
pub proof fn lemma_refused_login_is_login_fail()
    ensures
        spec_client_status_and_error(Error::LoginFailed) == (STATUS_FORBIDDEN, ClientError::LOGIN_FAIL),
{
}


/// The resolved context carries exactly the user id that the token parses
/// to; a rejected token's error is passed on, and a missing token answers
/// that the cookie is missing.
pub proof fn lemma_resolve_ctx_carries_user(auth_token: Option<Seq<char>>)
    ensures
        auth_token is None ==> spec_resolve_ctx(auth_token) == Err::<u64, Error>(
            Error::AuthFailedAuthTokenCookies,
        ),
        forall|u: u64, e: Seq<char>, g: Seq<char>|
            auth_token is Some && #[trigger] spec_parse_token(auth_token->0) == Ok::<
                (u64, Seq<char>, Seq<char>),
                Error,
            >((u, e, g)) ==> spec_resolve_ctx(auth_token) == Ok::<u64, Error>(u),
        forall|err: Error|
            auth_token is Some && #[trigger] spec_parse_token(auth_token->0) == Err::<
                (u64, Seq<char>, Seq<char>),
                Error,
            >(err) ==> spec_resolve_ctx(auth_token) == Err::<u64, Error>(err),
{
}

/// The token of any user, with its id written in decimal, resolves to the
/// context of that very user.
pub proof fn lemma_user_token_resolves_to_user(user_id: u64, exp: Seq<char>, sig: Seq<char>)
    requires
        exp.len() > 0,
        sig.len() > 0,
        no_line_feed(exp),
        no_line_feed(sig),
        forall|i: int| 0 <= i < sig.len() ==> #[trigger] sig[i] != '.',
    ensures
        spec_resolve_ctx(Some(token_of(decimal_digits(user_id as nat), exp, sig))) == Ok::<
            u64,
            Error,
        >(user_id),
{
    lemma_parse_token_of_user(user_id, exp, sig);
}

} // verus!
