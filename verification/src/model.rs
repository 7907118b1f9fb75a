//! The data shapes of the workflow: the search parameters a debt lookup is
//! keyed by, the debt a check reports, the payment details derived from it,
//! and the pay endpoint's reply.

use vstd::prelude::*;

verus! {

/// The identifying fields of a debt lookup. Supplied by the caller and sent
/// as the body of the check request.
#[derive(Debug)]
pub struct SearchParams {
    pub number: String,
    pub country: String,
    pub phone: String,
    pub email: String,
}

/// The result of a debt check: the outstanding total in minor currency
/// units (cents).
#[derive(Debug)]
pub struct PendingDebt {
    pub total: i64,
}

/// The data sent to request a payment link: a fixed payment-type tag and
/// the amount owed, held exactly as cents. Its serialized form writes the
/// amount as `total / 100` currency units.
#[derive(Debug)]
pub struct PaymentDetails {
    pub payment_type: String,
    pub amount_cents: i64,
}

impl PaymentDetails {
    /// A well-formed value carries the fixed tag and a non-negative amount.
    pub open spec fn wf(&self) -> bool {
        &&& self.payment_type@ == "nspk"@
        &&& 0 <= self.amount_cents
    }

    /// Derives the payment details for a debt: the fixed `"nspk"` tag and
    /// the debt's total, kept exactly.
    pub fn from_debt(debt: PendingDebt) -> (r: Self)
        requires
            0 <= debt.total,
        ensures
            r.wf(),
            r.amount_cents == debt.total,
    {
        PaymentDetails { payment_type: String::from_str("nspk"), amount_cents: debt.total }
    }

    /// The amount as the decimal text that denotes exactly
    /// `amount_cents / 100` currency units.
    pub fn amount_decimal(&self) -> (r: String)
        requires
            0 <= self.amount_cents,
        ensures
            r@ == crate::decimal::amount_chars(self.amount_cents as int),
    {
        crate::decimal::amount_decimal(self.amount_cents)
    }
}

/// The pay endpoint's reply: a result status and, on success, a link URL.
#[derive(Debug)]
pub struct PaymentLink {
    pub href: Option<String>,
    pub result: String,
}

} // verus!
