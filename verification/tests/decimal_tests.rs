use ticket_service::decimal::u64_to_decimal;
use ticket_service::{parse_token, Error};

#[test]
fn numerals() {
    assert_eq!(u64_to_decimal(0), "0");
    assert_eq!(u64_to_decimal(7), "7");
    assert_eq!(u64_to_decimal(10), "10");
    assert_eq!(u64_to_decimal(1234567890), "1234567890");
    assert_eq!(u64_to_decimal(u64::MAX), "18446744073709551615");
}

#[test]
fn user_numeral_round_trips_through_token() {
    for id in [0u64, 1, 9, 10, 99, 100, 4242, u64::MAX] {
        let token = format!("user-{}.exp.sig", u64_to_decimal(id));
        assert_eq!(parse_token(token), Ok((id, "exp".to_string(), "sig".to_string())));
    }
}

#[test]
fn error_display_matches_debug() {
    let errors = [
        Error::LoginFailed,
        Error::AuthFailedAuthTokenCookies,
        Error::AuthFailedTokenWrongFormat,
        Error::AuthFailedCtxNotInrequestExt,
        Error::TicketDeleteNotFound { id: 0 },
        Error::TicketUpdateNotFound { id: 12 },
        Error::TicketGetNotFound { id: u64::MAX },
    ];
    for e in errors {
        assert_eq!(e.to_string(), format!("{:?}", e));
    }
    assert_eq!(Error::TicketGetNotFound { id: 5 }.to_string(), "TicketGetNotFound { id: 5 }");
}
