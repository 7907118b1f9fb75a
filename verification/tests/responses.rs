//! Parsing the service's responses and deciding each workflow step.

use avtodor::errors::AvtodorError;
use avtodor::protocol::{
    debt_from_check_response, link_from_pay_response, parse_payment_link, parse_pending_debt,
    should_request_payment,
};

#[test]
fn zero_total_reads_as_no_debt() {
    let r = debt_from_check_response(200, "{\"total\": 0}".to_string());
    let debt = r.unwrap();
    assert_eq!(debt.total, 0);
    assert!(!should_request_payment(&debt));
}

#[test]
fn positive_total_reads_back_and_asks_for_payment() {
    let r = debt_from_check_response(200, "{\"total\": 12345}".to_string());
    let debt = r.unwrap();
    assert_eq!(debt.total, 12345);
    assert!(should_request_payment(&debt));
}

#[test]
fn check_failure_status_carries_status_and_body() {
    let r = debt_from_check_response(500, "{\"total\": 0}".to_string());
    match r {
        Err(AvtodorError::DebtCheckError { status, body }) => {
            assert_eq!(status, 500);
            assert_eq!(body, "{\"total\": 0}");
        }
        other => panic!("expected DebtCheckError, got {:?}", other),
    }
}

#[test]
fn check_tolerates_whitespace_order_and_extra_members() {
    let body = " { \"paid\" : true , \"total\" : 7 , \"note\" : \"x\" } ";
    assert_eq!(parse_pending_debt(body).unwrap().total, 7);
}

#[test]
fn duplicate_unknown_members_are_tolerated() {
    assert_eq!(parse_pending_debt("{\"a\": 1, \"a\": 2, \"total\": 3}").unwrap().total, 3);
}

#[test]
fn check_reads_negative_and_extreme_totals() {
    assert_eq!(parse_pending_debt("{\"total\": -5}").unwrap().total, -5);
    assert_eq!(
        parse_pending_debt("{\"total\": 9223372036854775807}").unwrap().total,
        i64::MAX
    );
    assert_eq!(
        parse_pending_debt("{\"total\": -9223372036854775808}").unwrap().total,
        i64::MIN
    );
}

#[test]
fn check_rejects_malformed_bodies() {
    assert!(parse_pending_debt("").is_none());
    assert!(parse_pending_debt("[1]").is_none());
    assert!(parse_pending_debt("{}").is_none());
    assert!(parse_pending_debt("{\"total\": \"5\"}").is_none());
    assert!(parse_pending_debt("{\"total\": 05}").is_none());
    assert!(parse_pending_debt("{\"total\": 5.5}").is_none());
    assert!(parse_pending_debt("{\"total\": 5, \"total\": 6}").is_none());
    assert!(parse_pending_debt("{\"total\": 9223372036854775808}").is_none());
    assert!(parse_pending_debt("{\"total\": 1}x").is_none());
    assert!(parse_pending_debt("{\"total\": 1").is_none());
}

#[test]
fn undecodable_check_body_is_a_decode_error() {
    let r = debt_from_check_response(200, "not json".to_string());
    assert!(matches!(r, Err(AvtodorError::DecodeError)));
}

#[test]
fn explicit_error_result_rejects_even_with_a_link() {
    let r = link_from_pay_response(200, "{\"result\": \"error\", \"href\": \"https://x\"}");
    assert!(matches!(r, Err(AvtodorError::PaymentLinkRejected)));
}

#[test]
fn success_without_link_is_missing_link() {
    let r = link_from_pay_response(200, "{\"result\": \"ok\"}");
    match r {
        Err(AvtodorError::MissingLinkError { result }) => assert_eq!(result, "ok"),
        other => panic!("expected MissingLinkError, got {:?}", other),
    }
}

#[test]
fn null_link_counts_as_missing() {
    let r = link_from_pay_response(200, "{\"result\": \"ok\", \"href\": null}");
    assert!(matches!(r, Err(AvtodorError::MissingLinkError { .. })));
}

#[test]
fn link_is_returned_exactly() {
    let r = link_from_pay_response(200, "{\"result\": \"ok\", \"href\": \"https://pay.example/abc\"}");
    assert_eq!(r.unwrap(), "https://pay.example/abc");
}

#[test]
fn pay_failure_status_carries_status() {
    let r = link_from_pay_response(404, "{\"result\": \"ok\", \"href\": \"https://x\"}");
    match r {
        Err(AvtodorError::PaymentLinkError { status }) => assert_eq!(status, 404),
        other => panic!("expected PaymentLinkError, got {:?}", other),
    }
}

#[test]
fn undecodable_pay_body_is_a_decode_error() {
    let r = link_from_pay_response(200, "{\"result\": 5}");
    assert!(matches!(r, Err(AvtodorError::DecodeError)));
    let r = link_from_pay_response(200, "{\"href\": \"https://x\"}");
    assert!(matches!(r, Err(AvtodorError::DecodeError)));
}

#[test]
fn string_escapes_decode_in_links() {
    let pl = parse_payment_link(
        "{\"result\": \"ok\", \"href\": \"a\\/b\\u0041\\n\\\"q\\\\\\uD83D\\uDE00\"}",
    )
    .unwrap();
    assert_eq!(pl.href.unwrap(), "a/bA\n\"q\\\u{1F600}");
    assert_eq!(pl.result, "ok");
}

#[test]
fn other_scalars_are_tolerated_in_extra_members() {
    let pl = parse_payment_link(
        "{\"flag\": true, \"result\": \"ok\", \"href\": \"h\", \"n\": null, \"f\": false, \"k\": -3}",
    )
    .unwrap();
    assert_eq!(pl.href.unwrap(), "h");
}

#[test]
fn duplicate_tracked_members_are_rejected() {
    assert!(parse_payment_link("{\"result\": \"ok\", \"result\": \"ok\", \"href\": \"h\"}").is_none());
    assert!(parse_payment_link("{\"result\": \"ok\", \"href\": \"a\", \"href\": \"b\"}").is_none());
}

#[test]
fn every_error_describes_itself() {
    let errors = [
        AvtodorError::ClientInitError,
        AvtodorError::TransportError,
        AvtodorError::DebtCheckError { status: 500, body: String::new() },
        AvtodorError::DecodeError,
        AvtodorError::PaymentLinkError { status: 500 },
        AvtodorError::PaymentLinkRejected,
        AvtodorError::MissingLinkError { result: "ok".to_string() },
    ];
    for e in errors.iter() {
        assert!(!e.describe().is_empty());
    }
}
