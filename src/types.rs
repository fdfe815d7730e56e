use vstd::prelude::*;

verus! {

/// Length of an address in its textual (strkey) form.
pub const ADDRESS_LEN: usize = 56;

/// Fee for every verification after a user's first, in minor units of the
/// payment asset (30 units at 7 decimals).
pub const PAYMENT_AMOUNT: i128 = 300_000_000;

/// Retention window, in ledger time units, renewed on every write of an entry.
pub const RETENTION_PERIOD: u32 = 5184000;

/// A 32-byte value: a commitment hash or a nullifier.
pub type Hash32 = [u8; 32];

/// An account or contract identity, held as its 56-character strkey.
#[derive(Clone, Copy, Debug, PartialEq, Eq)]
pub struct Address {
    pub strkey: [u8; 56],
}

impl View for Address {
    type V = Seq<u8>;

    open spec fn view(&self) -> Seq<u8> {
        self.strkey@
    }
}

impl Address {
    pub fn new(strkey: [u8; 56]) -> (r: Address)
        ensures
            r@ == strkey@,
    {
        Address { strkey }
    }

    /// Whether two addresses are the same identity.
    pub fn same_as(&self, other: &Address) -> (r: bool)
        ensures
            r == (self@ == other@),
    {
        let mut i: usize = 0;
        while i < ADDRESS_LEN
            invariant
                i <= ADDRESS_LEN,
                self@.len() == ADDRESS_LEN,
                other@.len() == ADDRESS_LEN,
                forall|k: int| 0 <= k < i ==> self@[k] == other@[k],
            decreases ADDRESS_LEN - i,
        {
            if self.strkey[i] != other.strkey[i] {
                return false;
            }
            i = i + 1;
        }
        assert(self@ =~= other@);
        true
    }
}

/// Whether two 32-byte values are equal.
pub fn hash_eq(a: &Hash32, b: &Hash32) -> (r: bool)
    ensures
        r == (a@ == b@),
{
    let mut i: usize = 0;
    while i < 32
        invariant
            i <= 32,
            a@.len() == 32,
            b@.len() == 32,
            forall|k: int| 0 <= k < i ==> a@[k] == b@[k],
        decreases 32 - i,
    {
        if a[i] != b[i] {
            return false;
        }
        i = i + 1;
    }
    assert(a@ =~= b@);
    true
}

/// Attributes derived from a proof's public signals.
#[derive(Clone, Copy, Debug, PartialEq, Eq)]
pub struct VerifiedAttributes {
    pub age_over_18: bool,
    pub age_over_21: bool,
    /// 1 = Passport, 2 = PAN, 3 = driving licence, 4 = Aadhaar, 5 = other.
    pub document_type: u32,
    pub gender_verified: bool,
    pub verification_date: u64,
}

/// One verified document of a user; never changed once written.
#[derive(Clone, Copy, Debug, PartialEq, Eq)]
pub struct IdentityRecord {
    pub commitment_hash: Hash32,
    pub timestamp: u64,
    pub attributes_verified: VerifiedAttributes,
}

/// The logical keys of the persistent state.
#[derive(Clone, Copy, Debug, PartialEq, Eq)]
pub enum StorageKey {
    Admin,
    /// The latest record of a user.
    UserIdentity(Address),
    /// A user's record by zero-based index.
    UserDocument(Address, u32),
    UserDocCount(Address),
    UserPrepaidCredits(Address),
    TotalVerifications,
    NullifierUsed(Hash32),
}

/// How verifications after a user's first are paid for.
#[derive(Clone, Copy, Debug, PartialEq, Eq, Structural)]
pub enum PaymentPolicy {
    /// The fee is transferred from the user inside the registration call.
    PayPerCall,
    /// The registration consumes one credit bought earlier by the user.
    Prepaid,
}

#[derive(Clone, Copy, Debug, PartialEq, Eq, Structural)]
pub enum VerifierError {
    AlreadyInitialized,
    Uninitialized,
    Unauthorized,
    NullifierAlreadyUsed,
    NoPrepaidCredits,
    /// The payment asset refused the fee transfer.
    TransferFailed,
    /// A counter reached the largest value it can hold.
    CounterOverflow,
}

/// What the host reports about the call being decided.
#[derive(Clone, Copy, Debug, PartialEq, Eq)]
pub struct CallContext {
    /// The signer that the call requires has authorized it.
    pub authorized: bool,
    /// The fee transfer, where the call makes one, went through.
    pub payment_accepted: bool,
    /// The ledger time of the call.
    pub timestamp: u64,
}

/// What a successful call publishes.
#[derive(Clone, Copy, Debug, PartialEq, Eq)]
pub enum VerifierEvent {
    Verified { user: Address, commitment_hash: Hash32 },
    Prepaid { user: Address, credits: u32 },
}

} // verus!
