//! The plain types that blocks, validators and the contract runtime share.
use vstd::prelude::*;

verus! {

pub type AccountId = String;

pub type PublicKey = Vec<u8>;

/// The raw bytes of a signature.
pub type Signature = Vec<u8>;

pub type BlockHeight = u64;

pub type BlockHeightDelta = u64;

pub type Balance = u128;

pub type Gas = u64;

pub type PromiseIndex = u64;

pub type ReceiptIndex = u64;

pub type IteratorIndex = u64;

pub type StorageUsage = u64;

#[derive(Debug, PartialEq)]
pub enum ReturnData {
    /// Method returned some value or data.
    Value(Vec<u8>),
    /// The return value of the method should be taken from the return value of another method
    /// identified through receipt index.
    ReceiptIndex(ReceiptIndex),
    /// Method hasn't returned any data or promise.
    Nothing,
}

/// When there is a callback attached to one or more contract calls the execution results of these
/// calls are available to the contract invoked through the callback.
#[derive(Debug, PartialEq)]
pub enum PromiseResult {
    NotReady,
    Successful(Vec<u8>),
    Failed,
}

/// The digest that identifies a block.
#[derive(Clone, Copy, Debug, Eq)]
pub struct CryptoHash(pub [u8; 32]);

impl View for CryptoHash {
    type V = Seq<u8>;

    open spec fn view(&self) -> Seq<u8> {
        self.0@
    }
}

impl PartialEq for CryptoHash {
    fn eq(&self, other: &Self) -> (same: bool) {
        let mut i: usize = 0;
        while i < 32
            invariant
                0 <= i <= 32,
                forall|j: int| 0 <= j < i ==> self@[j] == other@[j],
            decreases 32 - i,
        {
            if self.0[i] != other.0[i] {
                return false;
            }
            i += 1;
        }
        assert(self@ =~= other@);
        true
    }
}

impl vstd::std_specs::cmp::PartialEqSpecImpl for CryptoHash {
    open spec fn obeys_eq_spec() -> bool {
        true
    }

    open spec fn eq_spec(&self, other: &Self) -> bool {
        self@ == other@
    }
}

impl Default for CryptoHash {
    /// The all-zero digest, which stands for "no block yet".
    fn default() -> (hash: Self)
        ensures
            hash@ == Seq::new(32, |i: int| 0u8),
    {
        let hash = CryptoHash([0u8; 32]);
        assert(hash@ =~= Seq::new(32, |i: int| 0u8));
        hash
    }
}

/// What a validator has at stake in the current epoch.
#[derive(Debug, PartialEq, Eq)]
pub struct ValidatorStake {
    pub account_id: AccountId,
    pub public_key: PublicKey,
    pub amount: Balance,
}

} // verus!
