//! The registry as one in-memory store: the authority, the nullifier ledger,
//! the per-user counters and documents, and the global count.

use vstd::prelude::*;
use crate::ledger::{
    LedgerUpdate, derive_attributes, fee_transfer_due, payment_due, plan_prepayment,
    plan_registration, prepay_decision, registration_decision,
};
use crate::types::{
    Address, CallContext, Hash32, IdentityRecord, PaymentPolicy, VerifiedAttributes,
    VerifierError, VerifierEvent, hash_eq,
};

verus! {

/// The counters and documents of one user.
pub struct UserLedger {
    pub user: Address,
    pub prepaid_credits: u32,
    /// Every record of the user, by zero-based index; the last is the latest.
    pub documents: Vec<IdentityRecord>,
}

/// Position of the last entry of `s` that belongs to `u`, or -1.
pub open spec fn index_of(s: Seq<UserLedger>, u: Seq<u8>) -> int
    decreases s.len(),
{
    if s.len() == 0 {
        -1
    } else if s.last().user@ == u {
        s.len() - 1
    } else {
        index_of(s.drop_last(), u)
    }
}

proof fn lemma_index_of_bounds(s: Seq<UserLedger>, u: Seq<u8>)
    ensures
        -1 <= index_of(s, u) < s.len(),
        index_of(s, u) >= 0 ==> s[index_of(s, u)].user@ == u,
        index_of(s, u) == -1 ==> forall|k: int| 0 <= k < s.len() ==> s[k].user@ != u,
    decreases s.len(),
{
    if s.len() > 0 && s.last().user@ != u {
        lemma_index_of_bounds(s.drop_last(), u);
        assert forall|k: int| 0 <= k < s.len() - 1 implies s[k] == s.drop_last()[k] by {}
    }
}

proof fn lemma_index_of_update(s: Seq<UserLedger>, j: int, e: UserLedger, u: Seq<u8>)
    requires
        0 <= j < s.len(),
        e.user@ == s[j].user@,
    ensures
        index_of(s.update(j, e), u) == index_of(s, u),
    decreases s.len(),
{
    let t = s.update(j, e);
    assert(t.last().user@ == s.last().user@);
    if j == s.len() - 1 {
        assert(t.drop_last() =~= s.drop_last());
    } else {
        assert(t.drop_last() =~= s.drop_last().update(j, e));
        lemma_index_of_update(s.drop_last(), j, e, u);
    }
}

proof fn lemma_index_of_push(s: Seq<UserLedger>, e: UserLedger, u: Seq<u8>)
    ensures
        index_of(s.push(e), u) == if e.user@ == u {
            s.len() as int
        } else {
            index_of(s, u)
        },
{
    assert(s.push(e).drop_last() =~= s);
}

pub struct UniversalVerifier {
    policy: PaymentPolicy,
    admin: Option<Address>,
    users: Vec<UserLedger>,
    nullifiers: Vec<Hash32>,
    total_verifications: u32,
}

/// The record that a registration writes.
pub open spec fn new_record(
    commitment_hash: Hash32,
    min_age_verified: u32,
    document_type: u32,
    gender_verified: bool,
    timestamp: u64,
) -> IdentityRecord {
    IdentityRecord {
        commitment_hash,
        timestamp,
        attributes_verified: VerifiedAttributes {
            age_over_18: min_age_verified >= 18,
            age_over_21: min_age_verified >= 21,
            document_type,
            gender_verified,
            verification_date: timestamp,
        },
    }
}

impl UniversalVerifier {
    /// Counts fit their stored width.
    pub closed spec fn wf(self) -> bool {
        forall|i: int|
            0 <= i < self.users@.len() ==> self.users@[i].documents@.len() <= u32::MAX
    }

    pub closed spec fn policy_spec(self) -> PaymentPolicy {
        self.policy
    }

    pub closed spec fn admin_spec(self) -> Option<Address> {
        self.admin
    }

    /// Whether nullifier `n` has been consumed.
    pub closed spec fn consumed(self, n: Seq<u8>) -> bool {
        exists|i: int| 0 <= i < self.nullifiers@.len() && self.nullifiers@[i]@ == n
    }

    /// The documents of user `u`, in the order they were registered.
    pub closed spec fn docs(self, u: Seq<u8>) -> Seq<IdentityRecord> {
        let i = index_of(self.users@, u);
        if i >= 0 {
            self.users@[i].documents@
        } else {
            Seq::empty()
        }
    }

    pub closed spec fn credits(self, u: Seq<u8>) -> u32 {
        let i = index_of(self.users@, u);
        if i >= 0 {
            self.users@[i].prepaid_credits
        } else {
            0
        }
    }

    pub closed spec fn total(self) -> u32 {
        self.total_verifications
    }

    pub open spec fn doc_count(self, u: Seq<u8>) -> u32 {
        self.docs(u).len() as u32
    }

    /// What a registration on this state decides.
    pub open spec fn registration_outcome(
        self,
        admin: Address,
        user: Address,
        nullifier: Hash32,
        ctx: CallContext,
    ) -> Result<LedgerUpdate, VerifierError> {
        registration_decision(
            self.policy_spec(),
            self.admin_spec(),
            admin,
            ctx,
            self.consumed(nullifier@),
            self.doc_count(user@),
            self.credits(user@),
            self.total(),
        )
    }

    /// `self` is `pre` after a committed registration of `rec` for `user`
    /// with `nullifier`, whose counters are `upd`.
    pub open spec fn registered(
        self,
        pre: Self,
        user: Address,
        rec: IdentityRecord,
        nullifier: Hash32,
        upd: LedgerUpdate,
    ) -> bool {
        &&& self.wf()
        &&& self.policy_spec() == pre.policy_spec()
        &&& self.admin_spec() == pre.admin_spec()
        &&& forall|n: Seq<u8>| #[trigger] self.consumed(n) == (pre.consumed(n) || n == nullifier@)
        &&& forall|u: Seq<u8>| #[trigger]
            self.docs(u) == if u == user@ {
                pre.docs(u).push(rec)
            } else {
                pre.docs(u)
            }
        &&& forall|u: Seq<u8>| #[trigger]
            self.credits(u) == if u == user@ {
                upd.prepaid_credits
            } else {
                pre.credits(u)
            }
        &&& self.total() == upd.total_verifications
    }

    /// `self` is `pre` after a purchase of credits by `user` that left the
    /// balance `credits`.
    pub open spec fn prepaid(self, pre: Self, user: Address, credits: u32) -> bool {
        &&& self.wf()
        &&& self.policy_spec() == pre.policy_spec()
        &&& self.admin_spec() == pre.admin_spec()
        &&& forall|n: Seq<u8>| #[trigger] self.consumed(n) == pre.consumed(n)
        &&& forall|u: Seq<u8>| #[trigger] self.docs(u) == pre.docs(u)
        &&& forall|u: Seq<u8>| #[trigger]
            self.credits(u) == if u == user@ {
                credits
            } else {
                pre.credits(u)
            }
        &&& self.total() == pre.total()
    }

    /// An empty registry with no authority yet, paying by `policy`.
    pub fn new(policy: PaymentPolicy) -> (r: Self)
        ensures
            r.wf(),
            r.policy_spec() == policy,
            r.admin_spec() is None,
            forall|n: Seq<u8>| !#[trigger] r.consumed(n),
            forall|u: Seq<u8>| #[trigger] r.docs(u) == Seq::<IdentityRecord>::empty(),
            forall|u: Seq<u8>| #[trigger] r.credits(u) == 0,
            r.total() == 0,
    {
        let r = UniversalVerifier {
            policy,
            admin: None,
            users: Vec::new(),
            nullifiers: Vec::new(),
            total_verifications: 0,
        };
        assert forall|u: Seq<u8>| index_of(r.users@, u) == -1 by {}
        r
    }

    fn find_user(&self, user: &Address) -> (r: Option<usize>)
        ensures
            match r {
                Some(i) => i as int == index_of(self.users@, user@),
                None => index_of(self.users@, user@) == -1,
            },
            -1 <= index_of(self.users@, user@) < self.users@.len(),
    {
        proof {
            lemma_index_of_bounds(self.users@, user@);
        }
        let mut i: usize = self.users.len();
        assert(self.users@.subrange(0, i as int) =~= self.users@);
        while i > 0
            invariant
                i <= self.users@.len(),
                index_of(self.users@, user@) == index_of(self.users@.subrange(0, i as int), user@),
            decreases i,
        {
            let s = Ghost(self.users@.subrange(0, i as int));
            if self.users[i - 1].user.same_as(user) {
                return Some(i - 1);
            }
            assert(s@.drop_last() =~= self.users@.subrange(0, i - 1));
            i = i - 1;
        }
        assert(self.users@.subrange(0, 0) =~= Seq::<UserLedger>::empty());
        None
    }
}


impl UniversalVerifier {
    /// Everything but the authority is as in `pre`.
    pub open spec fn same_ledgers(self, pre: Self) -> bool {
        &&& self.wf()
        &&& self.policy_spec() == pre.policy_spec()
        &&& forall|n: Seq<u8>| #[trigger] self.consumed(n) == pre.consumed(n)
        &&& forall|u: Seq<u8>| #[trigger] self.docs(u) == pre.docs(u)
        &&& forall|u: Seq<u8>| #[trigger] self.credits(u) == pre.credits(u)
        &&& self.total() == pre.total()
    }

    /// Sets the authority, once.
    pub fn initialize(&mut self, admin: Address) -> (r: Result<(), VerifierError>)
        requires
            old(self).wf(),
        ensures
            old(self).admin_spec() is Some ==> r == Err::<(), VerifierError>(
                VerifierError::AlreadyInitialized,
            ) && *final(self) == *old(self),
            old(self).admin_spec() is None ==> r is Ok && final(self).admin_spec() == Some(admin)
                && final(self).same_ledgers(*old(self)),
    {
        if self.admin.is_some() {
            return Err(VerifierError::AlreadyInitialized);
        }
        let ghost pre = *self;
        self.admin = Some(admin);
        proof {
            assert forall|n: Seq<u8>| #[trigger] self.consumed(n) == pre.consumed(n) by {
                if self.consumed(n) {
                    let k = choose|k: int|
                        0 <= k < self.nullifiers@.len() && self.nullifiers@[k]@ == n;
                    assert(pre.nullifiers@[k]@ == n);
                }
                if pre.consumed(n) {
                    let k = choose|k: int|
                        0 <= k < pre.nullifiers@.len() && pre.nullifiers@[k]@ == n;
                    assert(self.nullifiers@[k]@ == n);
                }
            }
        }
        Ok(())
    }

    /// The authority, once set.
    pub fn get_admin(&self) -> (r: Result<Address, VerifierError>)
        ensures
            r == match self.admin_spec() {
                Some(a) => Ok::<Address, VerifierError>(a),
                None => Err(VerifierError::Uninitialized),
            },
    {
        match self.admin {
            Some(a) => Ok(a),
            None => Err(VerifierError::Uninitialized),
        }
    }

    /// Whether `nullifier` has been consumed by a registration.
    pub fn is_consumed(&self, nullifier: &Hash32) -> (r: bool)
        ensures
            r == self.consumed(nullifier@),
    {
        let mut i: usize = 0;
        while i < self.nullifiers.len()
            invariant
                i <= self.nullifiers@.len(),
                forall|k: int| 0 <= k < i ==> self.nullifiers@[k]@ != nullifier@,
            decreases self.nullifiers@.len() - i,
        {
            if hash_eq(&self.nullifiers[i], nullifier) {
                return true;
            }
            i = i + 1;
        }
        false
    }

    /// Whether registering a further document for `user` transfers the fee
    /// inside the registration call.
    pub fn fee_due(&self, user: Address) -> (r: bool)
        requires
            self.wf(),
        ensures
            r == (payment_due(self.doc_count(user@)) && self.policy_spec()
                == PaymentPolicy::PayPerCall),
    {
        let count = self.get_user_doc_count(user);
        fee_transfer_due(self.policy, count)
    }

    /// Registers a verified document for `user`, on behalf of the authority.
    pub fn register_verified_identity(
        &mut self,
        admin: Address,
        user: Address,
        commitment_hash: Hash32,
        nullifier: Hash32,
        min_age_verified: u32,
        document_type: u32,
        gender_verified: bool,
        ctx: CallContext,
    ) -> (r: Result<VerifierEvent, VerifierError>)
        requires
            old(self).wf(),
        ensures
            match old(self).registration_outcome(admin, user, nullifier, ctx) {
                Ok(upd) => r == Ok::<VerifierEvent, VerifierError>(
                    VerifierEvent::Verified { user, commitment_hash },
                ) && final(self).registered(
                    *old(self),
                    user,
                    new_record(
                        commitment_hash,
                        min_age_verified,
                        document_type,
                        gender_verified,
                        ctx.timestamp,
                    ),
                    nullifier,
                    upd,
                ),
                Err(e) => r == Err::<VerifierEvent, VerifierError>(e) && *final(self) == *old(
                    self,
                ),
            },
    {
        let idx = self.find_user(&user);
        proof {
            lemma_index_of_bounds(self.users@, user@);
        }
        let (count, credits) = match idx {
            Some(i) => (self.users[i].documents.len() as u32, self.users[i].prepaid_credits),
            None => (0u32, 0u32),
        };
        let used = self.is_consumed(&nullifier);
        let upd = match plan_registration(
            self.policy,
            self.admin,
            admin,
            ctx,
            used,
            count,
            credits,
            self.total_verifications,
        ) {
            Ok(u) => u,
            Err(e) => {
                return Err(e);
            },
        };
        let ghost pre = *self;
        let attributes = derive_attributes(
            min_age_verified,
            document_type,
            gender_verified,
            ctx.timestamp,
        );
        let record = IdentityRecord {
            commitment_hash,
            timestamp: ctx.timestamp,
            attributes_verified: attributes,
        };
        self.nullifiers.push(nullifier);
        match idx {
            Some(i) => {
                self.users[i].documents.push(record);
                self.users[i].prepaid_credits = upd.prepaid_credits;
                proof {
                    assert forall|u: Seq<u8>|
                        index_of(#[trigger] self.users@, u) == index_of(pre.users@, u) by {
                        lemma_index_of_update(pre.users@, i as int, self.users@[i as int], u);
                        assert(self.users@ =~= pre.users@.update(i as int, self.users@[i as int]));
                    }
                }
            },
            None => {
                let mut documents: Vec<IdentityRecord> = Vec::new();
                documents.push(record);
                self.users.push(UserLedger { user, prepaid_credits: upd.prepaid_credits, documents });
                proof {
                    assert forall|u: Seq<u8>|
                        index_of(#[trigger] self.users@, u) == if u == user@ {
                            pre.users@.len() as int
                        } else {
                            index_of(pre.users@, u)
                        } by {
                        lemma_index_of_push(pre.users@, self.users@.last(), u);
                        assert(self.users@ =~= pre.users@.push(self.users@.last()));
                    }
                    assert(pre.docs(user@) =~= Seq::<IdentityRecord>::empty());
                    assert(self.users@.last().documents@ =~= pre.docs(user@).push(record));
                }
            },
        }
        self.total_verifications = upd.total_verifications;
        proof {
            assert forall|n: Seq<u8>| #[trigger]
                self.consumed(n) == (pre.consumed(n) || n == nullifier@) by {
                if pre.consumed(n) {
                    let k = choose|k: int|
                        0 <= k < pre.nullifiers@.len() && pre.nullifiers@[k]@ == n;
                    assert(self.nullifiers@[k] == pre.nullifiers@[k]);
                }
                if n == nullifier@ {
                    assert(self.nullifiers@[pre.nullifiers@.len() as int]@ == n);
                }
            }
            assert forall|u: Seq<u8>| #[trigger] self.docs(u) == (if u == user@ {
                pre.docs(u).push(record)
            } else {
                pre.docs(u)
            }) by {
                lemma_index_of_bounds(pre.users@, u);
                lemma_index_of_bounds(self.users@, u);
            }
            assert forall|u: Seq<u8>| #[trigger] self.credits(u) == (if u == user@ {
                upd.prepaid_credits
            } else {
                pre.credits(u)
            }) by {
                lemma_index_of_bounds(pre.users@, u);
                lemma_index_of_bounds(self.users@, u);
            }
            assert forall|k: int|
                0 <= k < self.users@.len() implies self.users@[k].documents@.len() <= u32::MAX by {
                if k < pre.users@.len() {
                    assert(pre.users@[k].documents@.len() <= u32::MAX);
                }
            }
        }
        Ok(VerifierEvent::Verified { user, commitment_hash })
    }

    /// Buys one credit for a later registration of `user`, paid by `user`.
    pub fn prepay_verification(&mut self, user: Address, ctx: CallContext) -> (r: Result<
        VerifierEvent,
        VerifierError,
    >)
        requires
            old(self).wf(),
        ensures
            match prepay_decision(old(self).admin_spec() is Some, ctx, old(self).credits(user@)) {
                Ok(c) => r == Ok::<VerifierEvent, VerifierError>(
                    VerifierEvent::Prepaid { user, credits: c },
                ) && final(self).prepaid(*old(self), user, c),
                Err(e) => r == Err::<VerifierEvent, VerifierError>(e) && *final(self) == *old(
                    self,
                ),
            },
    {
        let idx = self.find_user(&user);
        proof {
            lemma_index_of_bounds(self.users@, user@);
        }
        let credits = match idx {
            Some(i) => self.users[i].prepaid_credits,
            None => 0u32,
        };
        let c = match plan_prepayment(self.admin.is_some(), ctx, credits) {
            Ok(c) => c,
            Err(e) => {
                return Err(e);
            },
        };
        let ghost pre = *self;
        match idx {
            Some(i) => {
                self.users[i].prepaid_credits = c;
                proof {
                    assert forall|u: Seq<u8>|
                        index_of(#[trigger] self.users@, u) == index_of(pre.users@, u) by {
                        lemma_index_of_update(pre.users@, i as int, self.users@[i as int], u);
                        assert(self.users@ =~= pre.users@.update(i as int, self.users@[i as int]));
                    }
                }
            },
            None => {
                self.users.push(UserLedger { user, prepaid_credits: c, documents: Vec::new() });
                proof {
                    assert forall|u: Seq<u8>|
                        index_of(#[trigger] self.users@, u) == if u == user@ {
                            pre.users@.len() as int
                        } else {
                            index_of(pre.users@, u)
                        } by {
                        lemma_index_of_push(pre.users@, self.users@.last(), u);
                        assert(self.users@ =~= pre.users@.push(self.users@.last()));
                    }
                    assert(pre.docs(user@) =~= Seq::<IdentityRecord>::empty());
                    assert(self.users@.last().documents@ =~= pre.docs(user@));
                }
            },
        }
        proof {
            assert(self.nullifiers@ == pre.nullifiers@);
            assert forall|n: Seq<u8>| #[trigger] self.consumed(n) == pre.consumed(n) by {}
            assert forall|u: Seq<u8>| #[trigger] self.docs(u) == pre.docs(u) by {
                lemma_index_of_bounds(pre.users@, u);
                lemma_index_of_bounds(self.users@, u);
            }
            assert forall|u: Seq<u8>| #[trigger] self.credits(u) == (if u == user@ {
                c
            } else {
                pre.credits(u)
            }) by {
                lemma_index_of_bounds(pre.users@, u);
                lemma_index_of_bounds(self.users@, u);
            }
            assert forall|k: int|
                0 <= k < self.users@.len() implies self.users@[k].documents@.len() <= u32::MAX by {
                if k < pre.users@.len() {
                    assert(pre.users@[k].documents@.len() <= u32::MAX);
                }
            }
        }
        Ok(VerifierEvent::Prepaid { user, credits: c })
    }

    /// The latest record of `user`, if any.
    pub fn check_verification(&self, user: Address) -> (r: Option<IdentityRecord>)
        ensures
            r == if self.docs(user@).len() > 0 {
                Some(self.docs(user@).last())
            } else {
                None
            },
    {
        match self.find_user(&user) {
            Some(i) => {
                let n = self.users[i].documents.len();
                if n > 0 {
                    Some(self.users[i].documents[n - 1])
                } else {
                    None
                }
            },
            None => None,
        }
    }

    /// The record of `user` at zero-based `doc_index`, if any.
    pub fn get_document(&self, user: Address, doc_index: u32) -> (r: Option<IdentityRecord>)
        ensures
            r == if (doc_index as int) < self.docs(user@).len() {
                Some(self.docs(user@)[doc_index as int])
            } else {
                None
            },
    {
        match self.find_user(&user) {
            Some(i) => {
                if (doc_index as usize) < self.users[i].documents.len() {
                    Some(self.users[i].documents[doc_index as usize])
                } else {
                    None
                }
            },
            None => None,
        }
    }

    /// Whether the latest record of `user` shows an age of at least 18.
    pub fn check_age_over_18(&self, user: Address) -> (r: bool)
        ensures
            r == (self.docs(user@).len() > 0
                && self.docs(user@).last().attributes_verified.age_over_18),
    {
        match self.check_verification(user) {
            Some(rec) => rec.attributes_verified.age_over_18,
            None => false,
        }
    }

    /// Whether the latest record of `user` shows an age of at least 21.
    pub fn check_age_over_21(&self, user: Address) -> (r: bool)
        ensures
            r == (self.docs(user@).len() > 0
                && self.docs(user@).last().attributes_verified.age_over_21),
    {
        match self.check_verification(user) {
            Some(rec) => rec.attributes_verified.age_over_21,
            None => false,
        }
    }

    /// The document type of the latest record of `user`, if any.
    pub fn get_document_type(&self, user: Address) -> (r: Option<u32>)
        ensures
            r == if self.docs(user@).len() > 0 {
                Some(self.docs(user@).last().attributes_verified.document_type)
            } else {
                None
            },
    {
        match self.check_verification(user) {
            Some(rec) => Some(rec.attributes_verified.document_type),
            None => None,
        }
    }

    /// How many documents `user` has registered.
    pub fn get_user_doc_count(&self, user: Address) -> (r: u32)
        requires
            self.wf(),
        ensures
            r == self.doc_count(user@),
            r as int == self.docs(user@).len(),
    {
        match self.find_user(&user) {
            Some(i) => {
                proof {
                    lemma_index_of_bounds(self.users@, user@);
                }
                self.users[i].documents.len() as u32
            },
            None => 0,
        }
    }

    /// The unconsumed prepaid credits of `user`.
    pub fn get_prepaid_credits(&self, user: Address) -> (r: u32)
        ensures
            r == self.credits(user@),
    {
        match self.find_user(&user) {
            Some(i) => self.users[i].prepaid_credits,
            None => 0,
        }
    }
}

} // verus!
