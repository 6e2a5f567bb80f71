use ticket_service::{parse_token, Error};

fn ok(user: u64, exp: &str, sign: &str) -> Result<(u64, String, String), Error> {
    Ok((user, exp.to_string(), sign.to_string()))
}

const WRONG: Result<(u64, String, String), Error> = Err(Error::AuthFailedTokenWrongFormat);

#[test]
fn parses_the_login_token() {
    assert_eq!(parse_token("user-1.exp.sign".to_string()), ok(1, "exp", "sign"));
}

#[test]
fn splits_at_the_last_dot() {
    assert_eq!(parse_token("user-42.a.b.c".to_string()), ok(42, "a.b", "c"));
}

#[test]
fn trailing_dot_stays_in_signature() {
    assert_eq!(parse_token("user-1.a.b.".to_string()), ok(1, "a", "b."));
}

#[test]
fn expiration_may_be_a_dot() {
    assert_eq!(parse_token("user-1...b".to_string()), ok(1, ".", "b"));
}

#[test]
fn leading_zeros_and_max_id() {
    assert_eq!(parse_token("user-007.x.y".to_string()), ok(7, "x", "y"));
    assert_eq!(
        parse_token("user-18446744073709551615.x.y".to_string()),
        ok(u64::MAX, "x", "y")
    );
}

#[test]
fn non_ascii_parts() {
    assert_eq!(parse_token("user-3.été.σιγ".to_string()), ok(3, "été", "σιγ"));
}

#[test]
fn rejects_malformed_tokens() {
    for t in [
        "",
        "user-",
        "usr-1.a.b",
        "User-1.a.b",
        "xuser-1.a.b",
        "user-.a.b",
        "user-1.ab",
        "user-1a.b.c",
        "user-1..b",
        "user-1.a.",
        "user-1.a\n.b",
        "user-1.a.b\n",
        "user-١.a.b",
        "user--1.a.b",
    ] {
        assert_eq!(parse_token(t.to_string()), WRONG, "token {:?}", t);
    }
}

#[test]
fn rejects_user_id_overflow() {
    assert_eq!(parse_token("user-18446744073709551616.x.y".to_string()), WRONG);
}

#[test]
fn carriage_return_is_an_ordinary_character() {
    assert_eq!(parse_token("user-5.a\r.b".to_string()), ok(5, "a\r", "b"));
}
