//! The decisions of each state-changing call, taken on the values that the
//! call reads from storage.

use vstd::prelude::*;
use crate::types::{Address, CallContext, PaymentPolicy, VerifiedAttributes, VerifierError};

verus! {

/// The counters that a successful registration writes back.
#[derive(Clone, Copy, Debug, PartialEq, Eq)]
pub struct LedgerUpdate {
    pub doc_count: u32,
    pub prepaid_credits: u32,
    pub total_verifications: u32,
    /// The fee was transferred inside this call.
    pub fee_charged: bool,
    /// One prepaid credit was consumed by this call.
    pub credit_consumed: bool,
}

/// A user who already holds a document pays for the next one.
pub open spec fn payment_due(doc_count: u32) -> bool {
    doc_count >= 1
}

/// The outcome of a registration, given what is stored: the authority, whether
/// the nullifier was consumed, the user's counters and the global count.
pub open spec fn registration_decision(
    policy: PaymentPolicy,
    stored_admin: Option<Address>,
    admin: Address,
    ctx: CallContext,
    nullifier_used: bool,
    doc_count: u32,
    credits: u32,
    total: u32,
) -> Result<LedgerUpdate, VerifierError> {
    let paying = payment_due(doc_count);
    let prepaid = policy == PaymentPolicy::Prepaid;
    match stored_admin {
        None => Err(VerifierError::Uninitialized),
        Some(a) => if a@ != admin@ || !ctx.authorized {
            Err(VerifierError::Unauthorized)
        } else if nullifier_used {
            Err(VerifierError::NullifierAlreadyUsed)
        } else if paying && prepaid && credits == 0 {
            Err(VerifierError::NoPrepaidCredits)
        } else if paying && !prepaid && !ctx.payment_accepted {
            Err(VerifierError::TransferFailed)
        } else if doc_count == u32::MAX || total == u32::MAX {
            Err(VerifierError::CounterOverflow)
        } else {
            Ok(
                LedgerUpdate {
                    doc_count: (doc_count + 1) as u32,
                    prepaid_credits: if paying && prepaid {
                        (credits - 1) as u32
                    } else {
                        credits
                    },
                    total_verifications: (total + 1) as u32,
                    fee_charged: paying && !prepaid,
                    credit_consumed: paying && prepaid,
                },
            )
        },
    }
}

/// The outcome of a credit purchase: the new balance, or why it failed.
pub open spec fn prepay_decision(admin_set: bool, ctx: CallContext, credits: u32) -> Result<
    u32,
    VerifierError,
> {
    if !ctx.authorized {
        Err(VerifierError::Unauthorized)
    } else if !admin_set {
        Err(VerifierError::Uninitialized)
    } else if !ctx.payment_accepted {
        Err(VerifierError::TransferFailed)
    } else if credits == u32::MAX {
        Err(VerifierError::CounterOverflow)
    } else {
        Ok((credits + 1) as u32)
    }
}

/// Whether a registration for a user holding `doc_count` documents must
/// transfer the fee inside the call.
pub fn fee_transfer_due(policy: PaymentPolicy, doc_count: u32) -> (r: bool)
    ensures
        r == (payment_due(doc_count) && policy == PaymentPolicy::PayPerCall),
{
    doc_count >= 1 && policy == PaymentPolicy::PayPerCall
}

/// Decides a registration from the stored values it reads.
pub fn plan_registration(
    policy: PaymentPolicy,
    stored_admin: Option<Address>,
    admin: Address,
    ctx: CallContext,
    nullifier_used: bool,
    doc_count: u32,
    credits: u32,
    total: u32,
) -> (r: Result<LedgerUpdate, VerifierError>)
    ensures
        r == registration_decision(
            policy,
            stored_admin,
            admin,
            ctx,
            nullifier_used,
            doc_count,
            credits,
            total,
        ),
{
    let stored = match stored_admin {
        None => {
            return Err(VerifierError::Uninitialized);
        },
        Some(a) => a,
    };
    if !stored.same_as(&admin) || !ctx.authorized {
        return Err(VerifierError::Unauthorized);
    }
    if nullifier_used {
        return Err(VerifierError::NullifierAlreadyUsed);
    }
    let paying = doc_count >= 1;
    let prepaid = policy == PaymentPolicy::Prepaid;
    let mut new_credits = credits;
    if paying {
        if prepaid {
            if credits == 0 {
                return Err(VerifierError::NoPrepaidCredits);
            }
            new_credits = credits - 1;
        } else if !ctx.payment_accepted {
            return Err(VerifierError::TransferFailed);
        }
    }
    if doc_count == u32::MAX || total == u32::MAX {
        return Err(VerifierError::CounterOverflow);
    }
    Ok(
        LedgerUpdate {
            doc_count: doc_count + 1,
            prepaid_credits: new_credits,
            total_verifications: total + 1,
            fee_charged: paying && !prepaid,
            credit_consumed: paying && prepaid,
        },
    )
}

/// Decides a credit purchase: the user's new balance.
pub fn plan_prepayment(admin_set: bool, ctx: CallContext, credits: u32) -> (r: Result<
    u32,
    VerifierError,
>)
    ensures
        r == prepay_decision(admin_set, ctx, credits),
{
    if !ctx.authorized {
        Err(VerifierError::Unauthorized)
    } else if !admin_set {
        Err(VerifierError::Uninitialized)
    } else if !ctx.payment_accepted {
        Err(VerifierError::TransferFailed)
    } else if credits == u32::MAX {
        Err(VerifierError::CounterOverflow)
    } else {
        Ok(credits + 1)
    }
}

/// Derives the stored attributes from a proof's public signals.
pub fn derive_attributes(
    min_age_verified: u32,
    document_type: u32,
    gender_verified: bool,
    timestamp: u64,
) -> (r: VerifiedAttributes)
    ensures
        r.age_over_18 == (min_age_verified >= 18),
        r.age_over_21 == (min_age_verified >= 21),
        r.document_type == document_type,
        r.gender_verified == gender_verified,
        r.verification_date == timestamp,
{
    VerifiedAttributes {
        age_over_18: min_age_verified >= 18,
        age_over_21: min_age_verified >= 21,
        document_type,
        gender_verified,
        verification_date: timestamp,
    }
}

} // verus!
