//! Properties of the registry that span several calls.

use vstd::prelude::*;
use crate::ledger::{LedgerUpdate, payment_due, prepay_decision};
use crate::registry::UniversalVerifier;
use crate::types::{Address, CallContext, Hash32, IdentityRecord, PaymentPolicy, VerifierError};

verus! {

/// Once a registration has consumed `nullifier`, no registration with it can
/// succeed again, whoever the user and whatever the attributes: an authorized
/// call fails with `NullifierAlreadyUsed`.
pub proof fn lemma_nullifier_single_use(
    pre: UniversalVerifier,
    post: UniversalVerifier,
    user: Address,
    rec: IdentityRecord,
    nullifier: Hash32,
    upd: LedgerUpdate,
    admin2: Address,
    user2: Address,
    ctx2: CallContext,
)
    requires
        post.registered(pre, user, rec, nullifier, upd),
    ensures
        post.consumed(nullifier@),
        post.registration_outcome(admin2, user2, nullifier, ctx2) is Err,
        (post.admin_spec() is Some && post.admin_spec()->0@ == admin2@ && ctx2.authorized)
            ==> post.registration_outcome(admin2, user2, nullifier, ctx2) == Err::<
            LedgerUpdate,
            VerifierError,
        >(VerifierError::NullifierAlreadyUsed),
{
    assert(post.consumed(nullifier@));
}

/// A consumed nullifier stays consumed through every later registration and
/// credit purchase.
pub proof fn lemma_consumed_stays(
    pre: UniversalVerifier,
    post: UniversalVerifier,
    user: Address,
    rec: IdentityRecord,
    nullifier: Hash32,
    upd: LedgerUpdate,
    credits: u32,
    n: Seq<u8>,
)
    requires
        pre.consumed(n),
        post.registered(pre, user, rec, nullifier, upd) || post.prepaid(pre, user, credits),
    ensures
        post.consumed(n),
{
    if post.registered(pre, user, rec, nullifier, upd) {
        assert(post.consumed(n) == (pre.consumed(n) || n == nullifier@));
    } else {
        assert(post.consumed(n) == pre.consumed(n));
    }
}

/// A user's first registration neither transfers a fee nor consumes a credit;
/// every later one does one of the two, as the registry's policy says, and
/// cannot succeed without it.
pub proof fn lemma_first_document_free(
    s: UniversalVerifier,
    admin: Address,
    user: Address,
    nullifier: Hash32,
    ctx: CallContext,
)
    ensures
        s.registration_outcome(admin, user, nullifier, ctx) matches Ok(upd) ==> {
            &&& upd.fee_charged == (payment_due(s.doc_count(user@)) && s.policy_spec()
                == PaymentPolicy::PayPerCall)
            &&& upd.credit_consumed == (payment_due(s.doc_count(user@)) && s.policy_spec()
                == PaymentPolicy::Prepaid)
            &&& s.doc_count(user@) == 0 ==> !upd.fee_charged && !upd.credit_consumed
                && upd.prepaid_credits == s.credits(user@)
            &&& s.doc_count(user@) >= 1 ==> upd.fee_charged || upd.credit_consumed
        },
        payment_due(s.doc_count(user@)) && s.policy_spec() == PaymentPolicy::PayPerCall
            && !ctx.payment_accepted ==> s.registration_outcome(admin, user, nullifier, ctx) is Err,
        payment_due(s.doc_count(user@)) && s.policy_spec() == PaymentPolicy::Prepaid && s.credits(
            user@,
        ) == 0 ==> s.registration_outcome(admin, user, nullifier, ctx) is Err,
{
}

/// Under prepayment, a committed registration takes exactly one credit from a
/// user who already held a document, and none from a first-time user; other
/// users' balances do not move.
pub proof fn lemma_registration_credit_accounting(
    pre: UniversalVerifier,
    post: UniversalVerifier,
    admin: Address,
    user: Address,
    rec: IdentityRecord,
    nullifier: Hash32,
    ctx: CallContext,
    upd: LedgerUpdate,
)
    requires
        pre.policy_spec() == PaymentPolicy::Prepaid,
        pre.registration_outcome(admin, user, nullifier, ctx) == Ok::<
            LedgerUpdate,
            VerifierError,
        >(upd),
        post.registered(pre, user, rec, nullifier, upd),
    ensures
        post.credits(user@) as int == pre.credits(user@) - if pre.doc_count(user@) >= 1 {
            1int
        } else {
            0int
        },
        forall|u: Seq<u8>| u != user@ ==> #[trigger] post.credits(u) == pre.credits(u),
{
    assert(post.credits(user@) == upd.prepaid_credits);
    assert forall|u: Seq<u8>| u != user@ implies #[trigger] post.credits(u) == pre.credits(u) by {
        assert(post.credits(u) == (if u == user@ {
            upd.prepaid_credits
        } else {
            pre.credits(u)
        }));
    }
}

/// A committed credit purchase adds exactly one credit to the buyer and
/// changes no other balance.
pub proof fn lemma_purchase_adds_one(
    pre: UniversalVerifier,
    post: UniversalVerifier,
    user: Address,
    ctx: CallContext,
    credits: u32,
)
    requires
        prepay_decision(pre.admin_spec() is Some, ctx, pre.credits(user@)) == Ok::<
            u32,
            VerifierError,
        >(credits),
        post.prepaid(pre, user, credits),
    ensures
        post.credits(user@) == pre.credits(user@) + 1,
        forall|u: Seq<u8>| u != user@ ==> #[trigger] post.credits(u) == pre.credits(u),
{
    assert(post.credits(user@) == credits);
    assert forall|u: Seq<u8>| u != user@ implies #[trigger] post.credits(u) == pre.credits(u) by {
        assert(post.credits(u) == (if u == user@ {
            credits
        } else {
            pre.credits(u)
        }));
    }
}

/// Under prepayment, an authorized registration with a fresh nullifier for a
/// user who holds a document and no credit fails with `NoPrepaidCredits`; a
/// failed registration leaves the whole registry as it was.
pub proof fn lemma_no_credit_rejected(
    s: UniversalVerifier,
    admin: Address,
    user: Address,
    nullifier: Hash32,
    ctx: CallContext,
)
    requires
        s.policy_spec() == PaymentPolicy::Prepaid,
        s.admin_spec() is Some,
        s.admin_spec()->0@ == admin@,
        ctx.authorized,
        !s.consumed(nullifier@),
        s.doc_count(user@) >= 1,
        s.credits(user@) == 0,
    ensures
        s.registration_outcome(admin, user, nullifier, ctx) == Err::<LedgerUpdate, VerifierError>(
            VerifierError::NoPrepaidCredits,
        ),
{
}

/// A registration appends one record to its user's history and leaves every
/// record committed before it, of every user, where it was.
pub proof fn lemma_history_kept(
    pre: UniversalVerifier,
    post: UniversalVerifier,
    user: Address,
    rec: IdentityRecord,
    nullifier: Hash32,
    upd: LedgerUpdate,
    u: Seq<u8>,
    i: int,
)
    requires
        post.registered(pre, user, rec, nullifier, upd),
        0 <= i < pre.docs(u).len(),
    ensures
        post.docs(u)[i] == pre.docs(u)[i],
        post.docs(user@).len() == pre.docs(user@).len() + 1,
        post.docs(user@)[pre.docs(user@).len() as int] == rec,
{
    assert(post.docs(u) == if u == user@ {
        pre.docs(u).push(rec)
    } else {
        pre.docs(u)
    });
    assert(post.docs(user@) == pre.docs(user@).push(rec));
}

} // verus!
