//! The payment rules: what a payment request must satisfy before the
//! persistence collaborator may store it. Amounts are in minor currency
//! units (cents); a refund is negative, every other payment type
//! positive, and the method comes from a fixed list.

use vstd::prelude::*;

use crate::errors::AppError;
use crate::wire::{copy_str, str_eq};

verus! {

/// The kind of a payment transaction.
#[derive(Clone, Copy, Debug, PartialEq, Eq, Structural)]
pub enum PaymentType {
    Deposit,
    Partial,
    Full,
    Refund,
}

/// The accepted payment methods.
pub open spec fn spec_valid_payment_method(m: Seq<char>) -> bool {
    ||| m == "cash"@
    ||| m == "card"@
    ||| m == "bank_transfer"@
    ||| m == "other"@
}

/// Whether the method is one of the accepted payment methods.
pub fn is_valid_payment_method(method: &str) -> (r: bool)
    ensures
        r == spec_valid_payment_method(method@),
{
    str_eq(method, "cash") || str_eq(method, "card") || str_eq(method, "bank_transfer") || str_eq(
        method,
        "other",
    )
}

/// What a payment must satisfy: a non-zero amount whose sign matches the
/// payment type — negative for a refund, positive otherwise — and an
/// accepted method.
pub open spec fn spec_payment_ok(amount_cents: int, payment_type: PaymentType, method: Seq<char>)
    -> bool {
    &&& amount_cents != 0
    &&& (payment_type == PaymentType::Refund ==> amount_cents < 0)
    &&& (payment_type != PaymentType::Refund ==> amount_cents > 0)
    &&& spec_valid_payment_method(method)
}

/// Gate a payment request before it is handed to the persistence
/// collaborator; each failure is a validation error.
pub fn validate_payment(amount_cents: i64, payment_type: PaymentType, method: &str) -> (r: Result<
    (),
    AppError,
>)
    ensures
        r is Ok <==> spec_payment_ok(amount_cents as int, payment_type, method@),
        r is Err ==> r->Err_0 is ValidationError,
{
    if amount_cents == 0 {
        return Err(AppError::ValidationError(copy_str("Payment amount cannot be zero")));
    }
    if matches!(payment_type, PaymentType::Refund) && amount_cents > 0 {
        return Err(AppError::ValidationError(copy_str("Refund amount must be negative")));
    }
    if !matches!(payment_type, PaymentType::Refund) && amount_cents < 0 {
        return Err(
            AppError::ValidationError(
                copy_str("Payment amount must be positive (use refund type for negative amounts)"),
            ),
        );
    }
    if !is_valid_payment_method(method) {
        return Err(
            AppError::ValidationError(
                copy_str("Invalid payment method. Must be one of: cash, card, bank_transfer, other"),
            ),
        );
    }
    Ok(())
}

/// Gate a partial update of an existing payment: a changed amount is
/// checked against the payment type the update leaves in effect, and a
/// changed method against the accepted list. Absent fields change
/// nothing and are not checked.
pub fn validate_payment_update(
    new_amount_cents: Option<i64>,
    new_payment_type: Option<PaymentType>,
    existing_payment_type: PaymentType,
    new_method: Option<&str>,
) -> (r: Result<(), AppError>)
    ensures
        r is Ok <==> {
            let effective = match new_payment_type {
                Some(t) => t,
                None => existing_payment_type,
            };
            &&& (match new_amount_cents {
                Some(a) => {
                    &&& a != 0
                    &&& (effective == PaymentType::Refund ==> a < 0)
                    &&& (effective != PaymentType::Refund ==> a > 0)
                },
                None => true,
            })
            &&& (match new_method {
                Some(m) => spec_valid_payment_method(m@),
                None => true,
            })
        },
        r is Err ==> r->Err_0 is ValidationError,
{
    match new_amount_cents {
        Some(a) => {
            if a == 0 {
                return Err(AppError::ValidationError(copy_str("Payment amount cannot be zero")));
            }
            let effective = match new_payment_type {
                Some(t) => t,
                None => existing_payment_type,
            };
            if matches!(effective, PaymentType::Refund) && a > 0 {
                return Err(
                    AppError::ValidationError(copy_str("Refund amount must be negative")),
                );
            }
            if !matches!(effective, PaymentType::Refund) && a < 0 {
                return Err(
                    AppError::ValidationError(copy_str("Payment amount must be positive")),
                );
            }
        }
        None => {}
    }
    match new_method {
        Some(m) => {
            if !is_valid_payment_method(m) {
                return Err(
                    AppError::ValidationError(
                        copy_str(
                            "Invalid payment method. Must be one of: cash, card, bank_transfer, other",
                        ),
                    ),
                );
            }
        }
        None => {}
    }
    Ok(())
}

/// The balance summary of a booking, over amounts the persistence
/// collaborator reports: what was paid in total and what remains of the
/// booking's price. Wide arithmetic keeps the figures exact; the count
/// bound is the machine limit that keeps them in range.
pub fn payment_summary(total_price_cents: i64, paid_amounts: &Vec<i64>) -> (r: (i128, i128))
    requires
        paid_amounts@.len() <= 0x1_0000_0000,
    ensures
        r.0 == spec_sum(paid_amounts@),
        r.1 == total_price_cents as int - spec_sum(paid_amounts@),
{
    let total_paid = sum_amounts(paid_amounts);
    (total_paid, (total_price_cents as i128) - total_paid)
}

/// The sum of a sequence of amounts.
pub open spec fn spec_sum(s: Seq<i64>) -> int
    decreases s.len(),
{
    if s.len() == 0 {
        0
    } else {
        spec_sum(s.drop_last()) + s.last()
    }
}

/// Sum amounts in wide arithmetic: the magnitude is bounded by the count
/// of amounts times the largest magnitude an amount can carry, which
/// stays far inside the wide range.
pub fn sum_amounts(amounts: &Vec<i64>) -> (r: i128)
    ensures
        r == spec_sum(amounts@),
        -(amounts@.len() as int) * 0x8000_0000_0000_0000 <= r <= (amounts@.len() as int)
            * 0x8000_0000_0000_0000,
{
    let mut acc: i128 = 0;
    let mut i: usize = 0;
    while i < amounts.len()
        invariant
            i <= amounts@.len(),
            acc == spec_sum(amounts@.take(i as int)),
            -(i as int) * 0x8000_0000_0000_0000 <= acc <= (i as int) * 0x8000_0000_0000_0000,
        decreases amounts@.len() - i,
    {
        proof {
            assert(amounts@.take(i + 1).drop_last() =~= amounts@.take(i as int));
        }
        acc = acc + (amounts[i] as i128);
        i += 1;
    }
    proof {
        assert(amounts@.take(amounts@.len() as int) =~= amounts@);
    }
    acc
}

} // verus!
