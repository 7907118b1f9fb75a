//! The JSON bodies of the check and pay requests.

use avtodor::model::{PaymentDetails, PendingDebt, SearchParams};
use avtodor::protocol::{check_request_body, pay_request_body};

fn params(number: &str, country: &str, phone: &str, email: &str) -> SearchParams {
    SearchParams {
        number: number.to_string(),
        country: country.to_string(),
        phone: phone.to_string(),
        email: email.to_string(),
    }
}

#[test]
fn check_body_lists_all_fields_in_order() {
    let body = check_request_body(&params("A123BC", "RU", "+79000000000", "user@example.com"));
    assert_eq!(
        body,
        "{\"number\":\"A123BC\",\"country\":\"RU\",\"phone\":\"+79000000000\",\"email\":\"user@example.com\"}"
    );
}

#[test]
fn check_body_escapes_quotes_and_backslashes() {
    let body = check_request_body(&params("a\"b\\c", "R", "1", "e"));
    assert_eq!(
        body,
        "{\"number\":\"a\\\"b\\\\c\",\"country\":\"R\",\"phone\":\"1\",\"email\":\"e\"}"
    );
}

#[test]
fn check_body_escapes_control_characters() {
    let body = check_request_body(&params("a\nb\tc\u{0001}", "R", "1", "e"));
    assert_eq!(
        body,
        "{\"number\":\"a\\nb\\tc\\u0001\",\"country\":\"R\",\"phone\":\"1\",\"email\":\"e\"}"
    );
}

#[test]
fn check_body_reads_back_through_a_real_json_parser() {
    let number = "a\"b\\c\nd\u{0001}e/😀";
    let body = check_request_body(&params(number, "RU", "+7 900", "user@example.com"));
    let v: serde_json::Value = serde_json::from_str(&body).unwrap();
    assert_eq!(v.get("number").unwrap().as_str().unwrap(), number);
    assert_eq!(v.get("country").unwrap().as_str().unwrap(), "RU");
    assert_eq!(v.get("phone").unwrap().as_str().unwrap(), "+7 900");
    assert_eq!(v.get("email").unwrap().as_str().unwrap(), "user@example.com");
}

#[test]
fn pay_body_reads_back_through_a_real_json_parser() {
    let details = PaymentDetails::from_debt(PendingDebt { total: 550 });
    let body = pay_request_body(&details);
    let v: serde_json::Value = serde_json::from_str(&body).unwrap();
    assert_eq!(v.get("paymentType").unwrap().as_str().unwrap(), "nspk");
    assert_eq!(v.get("amount").unwrap().as_f64().unwrap(), 5.5);

    let details = PaymentDetails::from_debt(PendingDebt { total: 500 });
    let v: serde_json::Value = serde_json::from_str(&pay_request_body(&details)).unwrap();
    assert!(v.get("amount").unwrap().is_i64());
    assert_eq!(v.get("amount").unwrap().as_i64().unwrap(), 5);
}

#[test]
fn pay_body_writes_whole_amount_without_fraction() {
    let details = PaymentDetails::from_debt(PendingDebt { total: 500 });
    assert_eq!(pay_request_body(&details), "{\"paymentType\":\"nspk\",\"amount\":5}");
}

#[test]
fn pay_body_writes_fractional_amount_exactly() {
    let details = PaymentDetails::from_debt(PendingDebt { total: 550 });
    assert_eq!(pay_request_body(&details), "{\"paymentType\":\"nspk\",\"amount\":5.5}");
    let details = PaymentDetails::from_debt(PendingDebt { total: 501 });
    assert_eq!(pay_request_body(&details), "{\"paymentType\":\"nspk\",\"amount\":5.01}");
}
