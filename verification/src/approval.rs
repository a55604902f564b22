//! Approvals: the messages by which block producers endorse a block or promise to skip a height.
use crate::signer::Signer;
use crate::types::{AccountId, BlockHeight, CryptoHash, Signature};
use vstd::bytes::u64_to_le_bytes;
use vstd::prelude::*;

verus! {

/// A signed approval of the block `parent_hash` as the parent of a block at `target_height`.
#[derive(Debug, PartialEq, Eq)]
pub struct Approval {
    pub parent_hash: CryptoHash,
    pub reference_hash: Option<CryptoHash>,
    pub target_height: BlockHeight,
    /// Whether the approval endorses the parent (as opposed to a skip message).
    pub is_endorsement: bool,
    pub signature: Signature,
    pub account_id: AccountId,
}

/// What an [`Approval`] says.
pub struct ApprovalView {
    pub parent_hash: Seq<u8>,
    pub reference_hash: Option<Seq<u8>>,
    pub target_height: BlockHeight,
    pub is_endorsement: bool,
    pub signature: Seq<u8>,
    pub account_id: Seq<char>,
}

pub open spec fn optional_hash(hash: Option<CryptoHash>) -> Option<Seq<u8>> {
    match hash {
        Some(hash) => Some(hash@),
        None => None,
    }
}

impl View for Approval {
    type V = ApprovalView;

    open spec fn view(&self) -> ApprovalView {
        ApprovalView {
            parent_hash: self.parent_hash@,
            reference_hash: optional_hash(self.reference_hash),
            target_height: self.target_height,
            is_endorsement: self.is_endorsement,
            signature: self.signature@,
            account_id: self.account_id@,
        }
    }
}

impl Clone for Approval {
    fn clone(&self) -> (copy: Self)
        ensures
            copy@ == self@,
    {
        let signature = self.signature.clone();
        assert(signature@ =~= self.signature@);
        Approval {
            parent_hash: self.parent_hash,
            reference_hash: self.reference_hash,
            target_height: self.target_height,
            is_endorsement: self.is_endorsement,
            signature,
            account_id: self.account_id.clone(),
        }
    }
}

/// An optional hash in an approval's signed bytes: a zero byte, or a one and the hash.
pub open spec fn reference_data(reference_hash: Option<Seq<u8>>) -> Seq<u8> {
    match reference_hash {
        Some(hash) => seq![1u8] + hash,
        None => seq![0u8],
    }
}

/// The bytes that an approval's signature is on: the parent hash, the optional reference hash,
/// the target height in little-endian order, and a byte that tells an endorsement from the rest.
/// This layout is the library's own: it follows from no published format, and whoever checks a
/// signature has to lay out the bytes in the same way.
pub open spec fn approval_data(
    parent_hash: Seq<u8>,
    reference_hash: Option<Seq<u8>>,
    target_height: BlockHeight,
    is_endorsement: bool,
) -> Seq<u8> {
    parent_hash + reference_data(reference_hash) + vstd::bytes::spec_u64_to_le_bytes(target_height)
        + seq![if is_endorsement { 1u8 } else { 0u8 }]
}

impl ApprovalView {
    /// The approval that the holder of `key_pair` makes under the name `account_id`.
    pub open spec fn signed(
        parent_hash: Seq<u8>,
        reference_hash: Option<Seq<u8>>,
        target_height: BlockHeight,
        is_endorsement: bool,
        key_pair: Seq<u8>,
        account_id: Seq<char>,
    ) -> ApprovalView {
        ApprovalView {
            parent_hash,
            reference_hash,
            target_height,
            is_endorsement,
            signature: crate::signer::ed25519_signature(
                key_pair,
                approval_data(parent_hash, reference_hash, target_height, is_endorsement),
            ),
            account_id,
        }
    }
}

/// Appends the bytes of `hash` to `data`.
fn push_hash(data: &mut Vec<u8>, hash: &CryptoHash)
    ensures
        final(data)@ == old(data)@ + hash@,
{
    let mut i: usize = 0;
    while i < 32
        invariant
            0 <= i <= 32,
            data@ == old(data)@ + hash@.take(i as int),
        decreases 32 - i,
    {
        data.push(hash.0[i]);
        i += 1;
        assert(hash@.take(i as int) =~= hash@.take(i - 1).push(hash@[i - 1]));
    }
    assert(hash@.take(32) =~= hash@);
}

impl Approval {
    /// Makes an approval and signs it.
    pub fn new(
        parent_hash: CryptoHash,
        reference_hash: Option<CryptoHash>,
        target_height: BlockHeight,
        is_endorsement: bool,
        signer: &Signer,
        account_id: AccountId,
    ) -> (approval: Approval)
        ensures
            approval@ == ApprovalView::signed(
                parent_hash@,
                optional_hash(reference_hash),
                target_height,
                is_endorsement,
                signer.key_pair(),
                account_id@,
            ),
    {
        let data = Approval::get_data_for_sig(
            &parent_hash,
            &reference_hash,
            target_height,
            is_endorsement,
        );
        let signature = signer.sign(data.as_slice());
        Approval {
            parent_hash,
            reference_hash,
            target_height,
            is_endorsement,
            signature,
            account_id,
        }
    }

    /// The bytes that the signature of an approval is on.
    pub fn get_data_for_sig(
        parent_hash: &CryptoHash,
        reference_hash: &Option<CryptoHash>,
        target_height: BlockHeight,
        is_endorsement: bool,
    ) -> (data: Vec<u8>)
        ensures
            data@ == approval_data(
                parent_hash@,
                optional_hash(*reference_hash),
                target_height,
                is_endorsement,
            ),
    {
        let mut data: Vec<u8> = Vec::new();
        push_hash(&mut data, parent_hash);
        match reference_hash {
            Some(hash) => {
                data.push(1);
                push_hash(&mut data, hash);
            },
            None => {
                data.push(0);
            },
        }
        let mut height = u64_to_le_bytes(target_height);
        data.append(&mut height);
        data.push(if is_endorsement { 1 } else { 0 });
        assert(data@ =~= approval_data(
            parent_hash@,
            optional_hash(*reference_hash),
            target_height,
            is_endorsement,
        ));
        data
    }
}

/// The signed bytes bind all that an approval says: if two approvals, each over a 32-byte parent
/// hash and, where there is one, a 32-byte reference hash, are signed over the same bytes, they
/// agree on the parent, the reference, the target height and on whether they endorse.
pub proof fn law_signed_data_binds_the_approval(a: ApprovalView, b: ApprovalView)
    requires
        a.parent_hash.len() == 32,
        b.parent_hash.len() == 32,
        a.reference_hash matches Some(hash) ==> hash.len() == 32,
        b.reference_hash matches Some(hash) ==> hash.len() == 32,
        approval_data(a.parent_hash, a.reference_hash, a.target_height, a.is_endorsement)
            == approval_data(b.parent_hash, b.reference_hash, b.target_height, b.is_endorsement),
    ensures
        a.parent_hash == b.parent_hash,
        a.reference_hash == b.reference_hash,
        a.target_height == b.target_height,
        a.is_endorsement == b.is_endorsement,
{
    vstd::bytes::lemma_auto_spec_u64_to_from_le_bytes();
    let x = approval_data(a.parent_hash, a.reference_hash, a.target_height, a.is_endorsement);
    let y = approval_data(b.parent_hash, b.reference_hash, b.target_height, b.is_endorsement);
    let n = x.len();
    assert(a.parent_hash =~= x.take(32));
    assert(b.parent_hash =~= y.take(32));
    assert(x[32] == y[32]);
    match a.reference_hash {
        Some(hash) => {
            assert(hash =~= x.subrange(33, 65));
            assert(b.reference_hash is Some);
            assert(b.reference_hash->0 =~= y.subrange(33, 65));
        },
        None => {
            assert(b.reference_hash is None);
        },
    }
    assert(vstd::bytes::spec_u64_to_le_bytes(a.target_height) =~= x.subrange(n - 9, n - 1));
    assert(vstd::bytes::spec_u64_to_le_bytes(b.target_height) =~= y.subrange(n - 9, n - 1));
    assert(x[n - 1] == y[n - 1]);
}

} // verus!
