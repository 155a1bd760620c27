use vstd::prelude::*;

verus! {

/// A 32-byte account identity: a wallet key or a derived record address.
/// Identities and record addresses share one key space; a record's address
/// is itself a valid identity value.
#[derive(Clone, Copy, Debug, PartialEq, Eq, Hash)]
pub struct AccountId {
    bytes: [u8; 32],
}

impl View for AccountId {
    type V = Seq<u8>;

    closed spec fn view(&self) -> Seq<u8> {
        self.bytes@
    }
}

impl AccountId {
    pub fn new(bytes: [u8; 32]) -> (r: AccountId)
        ensures
            r@ == bytes@,
    {
        AccountId { bytes }
    }

    pub fn to_bytes(&self) -> (r: [u8; 32])
        ensures
            r@ == self@,
    {
        self.bytes
    }

    /// The bytes as a growable vector, for use as a derivation seed.
    pub fn to_byte_vec(&self) -> (r: Vec<u8>)
        ensures
            r@ == self@,
    {
        vstd::slice::slice_to_vec(self.bytes.as_slice())
    }

    /// The all-zero identity: the value that a freshly reserved record
    /// carries in an identity field before one is assigned.
    pub fn zero() -> (r: AccountId)
        ensures
            r@ == zero_id(),
    {
        let r = AccountId { bytes: [0u8; 32] };
        proof {
            assert(r@ =~= zero_id());
        }
        r
    }

    /// Byte-for-byte comparison of two identities.
    pub fn same_as(&self, other: &AccountId) -> (r: bool)
        ensures
            r == (self@ == other@),
    {
        let mut i: usize = 0;
        while i < 32
            invariant
                i <= 32,
                forall|j: int| 0 <= j < i ==> self.bytes@[j] == other.bytes@[j],
            decreases 32 - i,
        {
            if self.bytes[i] != other.bytes[i] {
                return false;
            }
            i += 1;
        }
        proof {
            assert(self@ =~= other@);
        }
        true
    }
}

/// The view of the all-zero identity.
pub open spec fn zero_id() -> Seq<u8> {
    Seq::new(32, |i: int| 0u8)
}

/// The ambient inputs of one operation, passed explicitly: the caller's
/// cryptographic identity and the clock reading at which the operation runs.
#[derive(Clone, Copy, Debug)]
pub struct OpContext {
    pub caller: AccountId,
    pub now: i64,
}

/// The failure taxonomy shared by every operation of the registries.
#[derive(Clone, Copy, Debug, PartialEq, Eq, Structural)]
pub enum AgentError {
    /// Creation was attempted at an address that already holds a record.
    AlreadyExists,
    /// The operation targets an address at which no record exists.
    NotFound,
    /// The caller's identity differs from the record's stored authority.
    Unauthorized,
    /// A variable-length field or a counter would overflow the fixed bound
    /// that its record reserves; the operation is rejected whole.
    CapacityExceeded,
    /// The statistically improbable event that address derivation finds no
    /// viable disambiguation bump for the given inputs.
    AddressUnavailable,
}

} // verus!
