use identity_verifier::ledger::{derive_attributes, fee_transfer_due, plan_prepayment, plan_registration, LedgerUpdate};
use identity_verifier::types::{hash_eq, Address, CallContext, PaymentPolicy, VerifierError};

fn addr(c: u8) -> Address {
    Address::new([c; 56])
}

fn ctx(authorized: bool, payment_accepted: bool) -> CallContext {
    CallContext { authorized, payment_accepted, timestamp: 42 }
}

#[test]
fn attributes_at_21_are_both_true() {
    let a = derive_attributes(21, 3, true, 9);
    assert!(a.age_over_18);
    assert!(a.age_over_21);
    assert_eq!(a.document_type, 3);
    assert!(a.gender_verified);
    assert_eq!(a.verification_date, 9);
}

#[test]
fn attributes_at_16_are_both_false() {
    let a = derive_attributes(16, 5, false, 0);
    assert!(!a.age_over_18);
    assert!(!a.age_over_21);
}

#[test]
fn attributes_at_18_and_20() {
    assert!(derive_attributes(18, 1, false, 0).age_over_18);
    assert!(!derive_attributes(18, 1, false, 0).age_over_21);
    assert!(!derive_attributes(20, 1, false, 0).age_over_21);
    assert!(!derive_attributes(17, 1, false, 0).age_over_18);
}

#[test]
fn plan_first_registration() {
    let a = addr(b'A');
    let r = plan_registration(PaymentPolicy::Prepaid, Some(a), a, ctx(true, false), false, 0, 0, 5);
    assert_eq!(
        r,
        Ok(LedgerUpdate {
            doc_count: 1,
            prepaid_credits: 0,
            total_verifications: 6,
            fee_charged: false,
            credit_consumed: false,
        })
    );
}

#[test]
fn plan_later_registration_by_policy() {
    let a = addr(b'A');
    let r = plan_registration(PaymentPolicy::Prepaid, Some(a), a, ctx(true, false), false, 2, 3, 0);
    assert_eq!(
        r,
        Ok(LedgerUpdate {
            doc_count: 3,
            prepaid_credits: 2,
            total_verifications: 1,
            fee_charged: false,
            credit_consumed: true,
        })
    );
    let r = plan_registration(PaymentPolicy::PayPerCall, Some(a), a, ctx(true, true), false, 2, 3, 0);
    assert_eq!(
        r,
        Ok(LedgerUpdate {
            doc_count: 3,
            prepaid_credits: 3,
            total_verifications: 1,
            fee_charged: true,
            credit_consumed: false,
        })
    );
}

#[test]
fn plan_registration_errors_in_order() {
    let a = addr(b'A');
    let p = PaymentPolicy::Prepaid;
    assert_eq!(plan_registration(p, None, a, ctx(true, true), false, 0, 0, 0), Err(VerifierError::Uninitialized));
    assert_eq!(plan_registration(p, Some(a), addr(b'B'), ctx(true, true), true, 1, 0, 0), Err(VerifierError::Unauthorized));
    assert_eq!(plan_registration(p, Some(a), a, ctx(false, true), false, 0, 0, 0), Err(VerifierError::Unauthorized));
    assert_eq!(plan_registration(p, Some(a), a, ctx(true, true), true, 1, 0, 0), Err(VerifierError::NullifierAlreadyUsed));
    assert_eq!(plan_registration(p, Some(a), a, ctx(true, true), false, 1, 0, 0), Err(VerifierError::NoPrepaidCredits));
    assert_eq!(
        plan_registration(PaymentPolicy::PayPerCall, Some(a), a, ctx(true, false), false, 1, 0, 0),
        Err(VerifierError::TransferFailed)
    );
    assert_eq!(plan_registration(p, Some(a), a, ctx(true, true), false, u32::MAX, 1, 0), Err(VerifierError::CounterOverflow));
    assert_eq!(plan_registration(p, Some(a), a, ctx(true, true), false, 0, 0, u32::MAX), Err(VerifierError::CounterOverflow));
}

#[test]
fn plan_prepayment_cases() {
    assert_eq!(plan_prepayment(true, ctx(true, true), 0), Ok(1));
    assert_eq!(plan_prepayment(true, ctx(true, true), 41), Ok(42));
    assert_eq!(plan_prepayment(true, ctx(false, true), 0), Err(VerifierError::Unauthorized));
    assert_eq!(plan_prepayment(false, ctx(true, true), 0), Err(VerifierError::Uninitialized));
    assert_eq!(plan_prepayment(true, ctx(true, false), 0), Err(VerifierError::TransferFailed));
    assert_eq!(plan_prepayment(true, ctx(true, true), u32::MAX), Err(VerifierError::CounterOverflow));
}

#[test]
fn fee_transfer_only_after_first_document_pay_per_call() {
    assert!(!fee_transfer_due(PaymentPolicy::PayPerCall, 0));
    assert!(fee_transfer_due(PaymentPolicy::PayPerCall, 1));
    assert!(!fee_transfer_due(PaymentPolicy::Prepaid, 3));
}

#[test]
fn byte_comparisons() {
    assert!(addr(b'A').same_as(&addr(b'A')));
    assert!(!addr(b'A').same_as(&addr(b'B')));
    let mut h = [3u8; 32];
    assert!(hash_eq(&h, &[3u8; 32]));
    h[31] = 4;
    assert!(!hash_eq(&h, &[3u8; 32]));
}
