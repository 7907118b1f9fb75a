//! The payment amount derived from a debt total.

use avtodor::decimal::amount_decimal;
use avtodor::model::{PaymentDetails, PendingDebt};

#[test]
fn whole_units_render_without_fraction() {
    assert_eq!(amount_decimal(0), "0");
    assert_eq!(amount_decimal(100), "1");
    assert_eq!(amount_decimal(500), "5");
    assert_eq!(amount_decimal(123400), "1234");
}

#[test]
fn whole_units_round_trip_as_numbers() {
    let n: i64 = 500;
    let rendered = amount_decimal(n);
    let value: f64 = rendered.parse().unwrap();
    assert_eq!(value, (n / 100) as f64);
}

#[test]
fn fractional_totals_render_exactly() {
    assert_eq!(amount_decimal(550), "5.5");
    assert_eq!(amount_decimal(501), "5.01");
    assert_eq!(amount_decimal(505), "5.05");
    assert_eq!(amount_decimal(510), "5.1");
    assert_eq!(amount_decimal(1), "0.01");
    assert_eq!(amount_decimal(10), "0.1");
    assert_eq!(amount_decimal(99), "0.99");
    assert_eq!(amount_decimal(12345), "123.45");
}

#[test]
fn fractional_totals_equal_true_division() {
    for n in [550i64, 501, 505, 510, 1, 10, 99, 12345, 333] {
        let rendered = amount_decimal(n);
        let value: f64 = rendered.parse().unwrap();
        assert_eq!(value, n as f64 / 100.0);
    }
}

#[test]
fn from_debt_keeps_the_total_and_tags_nspk() {
    let details = PaymentDetails::from_debt(PendingDebt { total: 550 });
    assert_eq!(details.payment_type, "nspk");
    assert_eq!(details.amount_cents, 550);
    assert_eq!(details.amount_decimal(), "5.5");
}
