//! The prover sync: it feeds the committed messages, in the order of their
//! leaf indices, into the accumulator, and yields an inclusion proof for
//! each one.
//!
//! For each new leaf the sync yields the proof of that leaf under the root
//! that includes it; the proofs of earlier leaves are left as they were
//! written. Such a proof is read off the nodes that the accumulator
//! retains, at a cost that does not grow with the tree. The proof of any
//! leaf under any later root can be had from `prover()`, at a cost of as
//! many hashes as that root has leaves below it.

use vstd::prelude::*;
use crate::accumulator::{Proof, Prover, MAX_LEAVES};
use crate::merkle_spec::{sibling_path, tree_root};
use crate::message::CommittedMessage;

verus! {

/// Why the prover sync stopped for good.
#[derive(Clone, Copy, Debug, PartialEq, Eq, Structural)]
pub enum ProverSyncError {
    /// The message stored under a leaf index names another leaf index.
    MismatchedLeafIndex { expected: u32, found: u32 },
    /// The accumulator holds as many leaves as it can.
    TreeFull,
}

/// The accumulator that mirrors the outbox, and the leaf index it waits for.
pub struct ProverSync {
    prover: Prover,
}

impl View for ProverSync {
    type V = Seq<Seq<u8>>;

    /// The leaves ingested so far, in order.
    closed spec fn view(&self) -> Seq<Seq<u8>> {
        self.prover@
    }
}

/// Whether each stored proof is for the leaf at its index and leads to the
/// root that the accumulator had at some leaf count that includes the leaf.
pub open spec fn proofs_consistent(leaves: Seq<Seq<u8>>, proofs: Map<u32, Proof>) -> bool {
    forall|i: u32| #[trigger]
        proofs.contains_key(i) ==> {
            &&& i < leaves.len()
            &&& proofs[i].index == i
            &&& proofs[i].leaf@ == leaves[i as int]
            &&& exists|count: int|
                i < count <= leaves.len() && proofs[i].spec_root() == #[trigger] tree_root(
                    leaves.take(count),
                )
        }
}

impl ProverSync {
    /// The accumulator is sound.
    pub closed spec fn wf(&self) -> bool {
        self.prover.wf()
    }

    /// A sync that has seen no message.
    pub fn new() -> (sync: ProverSync)
        ensures
            sync.wf(),
            sync@ == Seq::<Seq<u8>>::empty(),
    {
        ProverSync { prover: Prover::new() }
    }

    /// The leaf index whose message the sync waits for: the number of leaves
    /// ingested.
    pub fn tip(&self) -> (tip: u64)
        requires
            self.wf(),
        ensures
            tip == self@.len(),
            tip <= MAX_LEAVES,
    {
        self.prover.count()
    }

    /// The accumulator, for proofs under earlier roots.
    pub fn prover(&self) -> (prover: &Prover)
        requires
            self.wf(),
        ensures
            prover.wf(),
            prover@ == self@,
    {
        &self.prover
    }

    /// Takes what the store holds under the leaf index `tip()`. Where the
    /// store holds nothing yet, nothing changes and there is nothing to
    /// write. Where it holds the message of that leaf, its leaf goes into the
    /// accumulator, and the result is the proof to write under that leaf
    /// index: it leads to the accumulator's new root. A message that names
    /// another leaf index shows a corrupt store.
    pub fn on_lookup(&mut self, found: Option<&CommittedMessage>) -> (res: Result<
        Option<Proof>,
        ProverSyncError,
    >)
        requires
            old(self).wf(),
        ensures
            final(self).wf(),
            found is None ==> res == Ok::<Option<Proof>, ProverSyncError>(None) && final(self)@
                == old(self)@,
            found matches Some(m) ==> {
                if old(self)@.len() >= MAX_LEAVES {
                    res == Err::<Option<Proof>, ProverSyncError>(ProverSyncError::TreeFull)
                        && final(self)@ == old(self)@
                } else if m.leaf_index != old(self)@.len() {
                    res == Err::<Option<Proof>, ProverSyncError>(
                        ProverSyncError::MismatchedLeafIndex {
                            expected: old(self)@.len() as u32,
                            found: m.leaf_index,
                        },
                    ) && final(self)@ == old(self)@
                } else {
                    &&& final(self)@ == old(self)@.push(m.leaf())
                    &&& res matches Ok(Some(p))
                    &&& p.index == m.leaf_index
                    &&& p.leaf@ == m.leaf()
                    &&& p.path_words() == sibling_path(final(self)@, m.leaf_index as nat)
                    &&& p.spec_root() == tree_root(final(self)@)
                }
            },
    {
        match found {
            None => Ok(None),
            Some(message) => {
                let tip = self.prover.count();
                if tip >= MAX_LEAVES {
                    return Err(ProverSyncError::TreeFull);
                }
                if message.leaf_index as u64 != tip {
                    return Err(
                        ProverSyncError::MismatchedLeafIndex {
                            expected: tip as u32,
                            found: message.leaf_index,
                        },
                    );
                }
                let leaf = message.to_leaf();
                match self.prover.prove_next(leaf) {
                    Ok(proof) => {
                        let _ = self.prover.ingest(leaf);
                        Ok(Some(proof))
                    },
                    Err(_) => Err(ProverSyncError::TreeFull),
                }
            },
        }
    }
}

/// Writing the proof that the sync yields for a new leaf keeps the stored
/// proofs consistent with the accumulator: every stored proof still leads to
/// a root that the accumulator had at a leaf count that includes its leaf.
pub proof fn law_stored_proofs_stay_consistent(
    leaves: Seq<Seq<u8>>,
    proofs: Map<u32, Proof>,
    leaf: Seq<u8>,
    proof_of_leaf: Proof,
)
    requires
        proofs_consistent(leaves, proofs),
        leaves.len() < MAX_LEAVES,
        proof_of_leaf.index == leaves.len(),
        proof_of_leaf.leaf@ == leaf,
        proof_of_leaf.spec_root() == tree_root(leaves.push(leaf)),
    ensures
        proofs_consistent(leaves.push(leaf), proofs.insert(leaves.len() as u32, proof_of_leaf)),
{
    let longer = leaves.push(leaf);
    let stored = proofs.insert(leaves.len() as u32, proof_of_leaf);
    assert forall|i: u32| #[trigger] stored.contains_key(i) implies {
        &&& i < longer.len()
        &&& stored[i].index == i
        &&& stored[i].leaf@ == longer[i as int]
        &&& exists|count: int|
            i < count <= longer.len() && stored[i].spec_root() == #[trigger] tree_root(
                longer.take(count),
            )
    } by {
        if i == leaves.len() {
            assert(longer.take(longer.len() as int) =~= longer);
            assert(stored[i].spec_root() == tree_root(longer.take(longer.len() as int)));
        } else {
            assert(proofs.contains_key(i));
            let count = choose|count: int|
                i < count <= leaves.len() && proofs[i].spec_root() == #[trigger] tree_root(
                    leaves.take(count),
                );
            assert(longer.take(count) =~= leaves.take(count));
            assert(stored[i].spec_root() == tree_root(longer.take(count)));
        }
    }
}

} // verus!
