//! What is handed to an inbox's validator manager to deliver a message: the
//! arguments of the `process` call and its gas limit.

use vstd::prelude::*;
use crate::accumulator::Proof;
use crate::checkpoint::{MultisigSignedCheckpoint, Signature};
use crate::message::{push_word, AbacusMessage};
use crate::primitives::{Address, H256};
use crate::settings::ContractLocator;

verus! {

/// A 256-bit unsigned number in four 64-bit limbs, the least significant
/// first.
#[derive(Clone, Copy, Debug, PartialEq, Eq)]
pub struct U256 {
    pub limbs: [u64; 4],
}

/// The number that four limbs stand for.
pub open spec fn limbs_value(limbs: Seq<u64>) -> nat {
    (limbs[0] + limbs[1] * 0x1_0000_0000_0000_0000nat + limbs[2]
        * 0x1_0000_0000_0000_0000_0000_0000_0000_0000nat + limbs[3]
        * 0x1_0000_0000_0000_0000_0000_0000_0000_0000_0000_0000_0000_0000nat) as nat
}

/// The largest 256-bit number.
pub open spec fn u256_max() -> nat {
    0xffff_ffff_ffff_ffff_ffff_ffff_ffff_ffff_ffff_ffff_ffff_ffff_ffff_ffff_ffff_ffffnat
}

/// What is added to a gas estimate to be safe.
pub const GAS_MARGIN: u64 = 100_000;

impl View for U256 {
    type V = nat;

    open spec fn view(&self) -> nat {
        limbs_value(self.limbs@)
    }
}

/// The sum of two 256-bit numbers, or the largest 256-bit number where the
/// sum is above it.
pub open spec fn saturating_sum(a: nat, b: nat) -> nat {
    if a + b <= u256_max() {
        a + b
    } else {
        u256_max()
    }
}

/// Adds with `saturating_add` of `ethers::types::U256`: the sum, or the
/// largest 256-bit number where the sum does not fit.
#[verifier::external_body]
pub(crate) fn u256_saturating_add(a: &U256, b: &U256) -> (sum: U256)
    ensures
        sum@ == saturating_sum(a@, b@),
{
    U256 { limbs: ethers::types::U256(a.limbs).saturating_add(ethers::types::U256(b.limbs)).0 }
}

impl U256 {
    /// A 64-bit number as a 256-bit number.
    pub fn from_u64(x: u64) -> (n: U256)
        ensures
            n@ == x,
    {
        let n = U256 { limbs: [x, 0, 0, 0] };
        assert(n.limbs@[0] == x && n.limbs@[1] == 0 && n.limbs@[2] == 0 && n.limbs@[3] == 0);
        n
    }
}

/// The gas limit for a delivery whose gas was estimated at `estimate`: the
/// estimate and the safety margin, or the largest 256-bit number where that
/// does not fit.
pub fn gas_limit(estimate: &U256) -> (limit: U256)
    ensures
        limit@ == saturating_sum(estimate@, GAS_MARGIN as nat),
{
    let margin = U256::from_u64(GAS_MARGIN);
    u256_saturating_add(estimate, &margin)
}

/// A signature as the validator manager takes it: `r`, `s`, then the lowest
/// byte of `v`.
pub open spec fn signature_bytes(sig: Signature) -> Seq<u8> {
    sig.r@ + sig.s@ + seq![(sig.v % 256) as u8]
}

impl Signature {
    /// The 65 bytes of the signature: `r`, `s`, then the lowest byte of `v`.
    pub fn to_vec(&self) -> (out: Vec<u8>)
        ensures
            out@ == signature_bytes(*self),
    {
        let mut out: Vec<u8> = Vec::new();
        push_word(&mut out, &self.r);
        push_word(&mut out, &self.s);
        let ghost head = out@;
        out.push((self.v % 256) as u8);
        assert(out@ =~= head + seq![(self.v % 256) as u8]);
        out
    }
}

/// The arguments of the validator manager's `process` call.
#[derive(Clone, Debug)]
pub struct ProcessCall {
    /// The inbox that is to take the message.
    pub inbox: Address,
    /// The root of the checkpoint.
    pub root: H256,
    /// The index of the checkpoint.
    pub index: u32,
    /// The validators' signatures over the checkpoint, 65 bytes each.
    pub signatures: Vec<Vec<u8>>,
    /// The encoded message.
    pub message: Vec<u8>,
    /// The siblings of the inclusion proof.
    pub proof: [H256; 32],
    /// The position of the message's leaf.
    pub leaf_index: u32,
}

/// Builds validator managers for one inbox.
#[derive(Clone, Copy, Debug)]
pub struct InboxValidatorManagerBuilder {
    pub inbox_address: Address,
}

/// An inbox's validator manager on an Ethereum chain.
#[derive(Clone, Debug)]
pub struct EthereumInboxValidatorManager {
    /// The address of the validator manager contract, as a word.
    pub contract: H256,
    /// The domain of the chain.
    pub domain: u32,
    /// The name of the chain.
    pub chain_name: String,
    /// The inbox that the validator manager serves.
    pub inbox_address: Address,
}

impl InboxValidatorManagerBuilder {
    /// The validator manager at `locator` for this builder's inbox.
    pub fn make_with_locator(&self, locator: &ContractLocator) -> (vm:
        EthereumInboxValidatorManager)
        ensures
            vm.contract == locator.address,
            vm.domain == locator.domain,
            vm.chain_name@ == locator.chain_name@,
            vm.inbox_address == self.inbox_address,
    {
        EthereumInboxValidatorManager::new(locator, self.inbox_address)
    }
}

impl EthereumInboxValidatorManager {
    /// The validator manager at `locator` that serves the inbox at
    /// `inbox_address`.
    pub fn new(locator: &ContractLocator, inbox_address: Address) -> (vm:
        EthereumInboxValidatorManager)
        ensures
            vm.contract == locator.address,
            vm.domain == locator.domain,
            vm.chain_name@ == locator.chain_name@,
            vm.inbox_address == inbox_address,
    {
        EthereumInboxValidatorManager {
            contract: locator.address,
            domain: locator.domain,
            chain_name: locator.chain_name.clone(),
            inbox_address,
        }
    }

    /// The arguments with which the message is delivered under the
    /// checkpoint.
    pub fn process(
        &self,
        multisig_signed_checkpoint: &MultisigSignedCheckpoint,
        message: &AbacusMessage,
        proof: &Proof,
    ) -> (call: ProcessCall)
        ensures
            call.inbox == self.inbox_address,
            call.root == multisig_signed_checkpoint.checkpoint.root,
            call.index == multisig_signed_checkpoint.checkpoint.index,
            call.signatures@.len() == multisig_signed_checkpoint.signatures@.len(),
            forall|i: int|
                0 <= i < call.signatures@.len() ==> (#[trigger] call.signatures@[i])@
                    == signature_bytes(multisig_signed_checkpoint.signatures@[i]),
            call.message@ == message.encoding(),
            call.proof == proof.path,
            call.leaf_index == proof.index,
    {
        let mut signatures: Vec<Vec<u8>> = Vec::new();
        let mut i: usize = 0;
        while i < multisig_signed_checkpoint.signatures.len()
            invariant
                i <= multisig_signed_checkpoint.signatures.len(),
                signatures@.len() == i,
                forall|j: int|
                    0 <= j < i ==> (#[trigger] signatures@[j])@ == signature_bytes(
                        multisig_signed_checkpoint.signatures@[j],
                    ),
            decreases multisig_signed_checkpoint.signatures.len() - i,
        {
            signatures.push(multisig_signed_checkpoint.signatures[i].to_vec());
            i = i + 1;
        }
        ProcessCall {
            inbox: self.inbox_address,
            root: multisig_signed_checkpoint.checkpoint.root,
            index: multisig_signed_checkpoint.checkpoint.index,
            signatures,
            message: message.to_vec(),
            proof: proof.path,
            leaf_index: proof.index,
        }
    }
}

} // verus!
