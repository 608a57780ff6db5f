//! The incremental Merkle accumulator that mirrors the outbox, and the
//! inclusion proofs checked against its roots.

use vstd::prelude::*;
use crate::hashing::keccak256;
use crate::merkle_spec::{
    ancestor, climb, hash_pair, law_sibling_path_replays_to_root, lemma_ancestor_agree,
    lemma_ancestor_top, lemma_ancestor_zero, lemma_empty_node, lemma_node_prefix,
    lemma_width_bound, lemma_width_of_successor, node, sibling, sibling_path, tree_root, width,
    zero_hash,
};
use crate::primitives::H256;

verus! {

/// The depth of the accumulator: an inclusion path has this many siblings.
pub const TREE_DEPTH: usize = 32;

/// The largest number of leaves the accumulator takes.
pub const MAX_LEAVES: u64 = 0xffff_ffff;

/// The byte strings that a sequence of words stands for.
pub open spec fn words(s: Seq<H256>) -> Seq<Seq<u8>> {
    Seq::new(s.len(), |i: int| s[i]@)
}

/// The hash of an inner node from its two children.
pub fn hash_concat(left: &H256, right: &H256) -> (out: H256)
    ensures
        out@ == hash_pair(left@, right@),
{
    let mut buf: Vec<u8> = Vec::with_capacity(64);
    let mut i: usize = 0;
    while i < 32
        invariant
            i <= 32,
            buf@ == left@.take(i as int),
        decreases 32 - i,
    {
        buf.push(left.bytes[i]);
        assert(buf@ =~= left@.take(i + 1));
        i = i + 1;
    }
    i = 0;
    while i < 32
        invariant
            i <= 32,
            buf@ == left@ + right@.take(i as int),
        decreases 32 - i,
    {
        buf.push(right.bytes[i]);
        assert(buf@ =~= left@ + right@.take(i + 1));
        i = i + 1;
    }
    assert(buf@ =~= left@ + right@);
    keccak256(&buf)
}

/// An inclusion proof: a leaf, its position, and the siblings of its
/// ancestors from the leaf's level upwards.
#[derive(Clone, Copy, Debug, PartialEq, Eq)]
pub struct Proof {
    pub leaf: H256,
    pub index: u32,
    pub path: [H256; 32],
}

impl Proof {
    /// The siblings as byte strings.
    pub open spec fn path_words(&self) -> Seq<Seq<u8>> {
        words(self.path@)
    }

    /// The root that replaying the path from the leaf yields.
    pub open spec fn spec_root(&self) -> Seq<u8> {
        climb(self.leaf@, self.index as nat, self.path_words())
    }

    /// Replays the path from the leaf and returns the root it leads to.
    pub fn root(&self) -> (r: H256)
        ensures
            r@ == self.spec_root(),
    {
        let mut cur = self.leaf;
        let mut idx: u32 = self.index;
        let mut k: usize = 0;
        assert(self.path_words().skip(0) =~= self.path_words());
        while k < 32
            invariant
                k <= 32,
                self.path_words().len() == 32,
                climb(cur@, idx as nat, self.path_words().skip(k as int)) == self.spec_root(),
            decreases 32 - k,
        {
            let sib = self.path[k];
            let ghost rest = self.path_words().skip(k as int);
            assert(rest[0] == sib@);
            assert(rest.drop_first() =~= self.path_words().skip(k + 1));
            let next = if idx % 2 == 1 {
                hash_concat(&sib, &cur)
            } else {
                hash_concat(&cur, &sib)
            };
            cur = next;
            idx = idx / 2;
            k = k + 1;
        }
        cur
    }
}

/// Whether level `k` of `branch` is as the accumulator needs it after
/// `count` leaves: where the count's bit `k` is set, the level holds the root
/// of the last complete subtree of height `k`.
pub open spec fn retained(branch: Seq<H256>, leaves: Seq<Seq<u8>>, count: nat, k: int) -> bool {
    ancestor(count, k as nat) % 2 == 1 ==> branch[k]@ == node(
        leaves,
        k as nat,
        (ancestor(count, k as nat) - 1) as nat,
    )
}

/// The accumulator would exceed its capacity.
#[derive(Clone, Copy, Debug, PartialEq, Eq, Structural)]
pub struct TreeFull;

/// The light accumulator: one retained node per level and the leaf count.
/// It yields the root of the tree over all the leaves it was given, without
/// keeping them.
pub struct IncrementalMerkle {
    branch: [H256; 32],
    count: u64,
    leaves: Ghost<Seq<Seq<u8>>>,
}

impl View for IncrementalMerkle {
    type V = Seq<Seq<u8>>;

    /// The leaves ingested so far, in order.
    closed spec fn view(&self) -> Seq<Seq<u8>> {
        self.leaves@
    }
}

impl IncrementalMerkle {
    /// The retained node of each level whose bit is set in the count is the
    /// root of the last complete subtree of that height.
    pub closed spec fn wf(&self) -> bool {
        &&& self.count == self.leaves@.len()
        &&& self.count <= MAX_LEAVES
        &&& forall|k: int|
            0 <= k < 32 ==> #[trigger] retained(self.branch@, self.leaves@, self.count as nat, k)
    }

    /// The accumulator with no leaf.
    pub fn new() -> (tree: IncrementalMerkle)
        ensures
            tree.wf(),
            tree@ == Seq::<Seq<u8>>::empty(),
    {
        let tree = IncrementalMerkle {
            branch: [H256::zero(); 32],
            count: 0,
            leaves: Ghost(Seq::empty()),
        };
        assert forall|k: int| 0 <= k < 32 implies #[trigger] retained(
            tree.branch@,
            tree.leaves@,
            0,
            k,
        ) by {
            lemma_ancestor_zero(k as nat);
        }
        tree
    }

    /// The number of leaves ingested.
    pub fn count(&self) -> (n: u64)
        requires
            self.wf(),
        ensures
            n == self@.len(),
            n <= MAX_LEAVES,
    {
        self.count
    }

    /// Appends a leaf. A full accumulator is left as it is.
    pub fn ingest(&mut self, leaf: H256) -> (res: Result<(), TreeFull>)
        requires
            old(self).wf(),
        ensures
            final(self).wf(),
            old(self)@.len() < MAX_LEAVES ==> res is Ok && final(self)@ == old(self)@.push(leaf@),
            old(self)@.len() >= MAX_LEAVES ==> res is Err && final(self)@ == old(self)@,
    {
        if self.count >= MAX_LEAVES {
            return Err(TreeFull);
        }
        let ghost before = self.leaves@;
        let ghost after = before.push(leaf@);
        let ghost old_count = self.count as nat;
        let new_count: u64 = self.count + 1;
        let mut cur = leaf;
        let mut size: u64 = new_count;
        let mut i: usize = 0;
        while i < 32
            invariant
                i <= 32,
                old(self).wf(),
                *self == *old(self),
                before == self.leaves@,
                after == before.push(leaf@),
                old_count == self.count,
                new_count == old_count + 1,
                new_count <= MAX_LEAVES,
                size >= 1,
                size == ancestor(new_count as nat, i as nat),
                ancestor(old_count, i as nat) == size - 1,
                cur@ == node(after, i as nat, (size - 1) as nat),
                forall|k: int| 0 <= k < i ==> #[trigger] ancestor(new_count as nat, k as nat) % 2 == 0,
            decreases 32 - i,
        {
            if size % 2 == 1 {
                self.branch[i] = cur;
                self.count = new_count;
                self.leaves = Ghost(after);
                proof {
                    assert forall|k: int| 0 <= k < 32 implies #[trigger] retained(
                        self.branch@,
                        after,
                        new_count as nat,
                        k,
                    ) by {
                        assert(retained(old(self).branch@, before, old_count, k));
                        if k > i {
                            assert(ancestor(old_count, (i + 1) as nat) == ancestor(
                                new_count as nat,
                                (i + 1) as nat,
                            ));
                            lemma_ancestor_agree(
                                old_count,
                                new_count as nat,
                                (i + 1) as nat,
                                k as nat,
                            );
                            if ancestor(old_count, k as nat) % 2 == 1 {
                                let pos = (ancestor(old_count, k as nat) - 1) as nat;
                                lemma_node_prefix(after, before, old_count, k as nat, pos);
                            }
                            assert(old(self).branch@[k] == self.branch@[k]);
                        } else if k == i {
                            assert(self.branch@[k] == cur);
                        }
                    }
                    assert(self.count == self.leaves@.len());
                }
                return Ok(());
            }
            proof {
                let left = (size - 2) as nat;
                lemma_node_prefix(after, before, old_count, i as nat, left);
                assert(retained(old(self).branch@, before, old_count, i as int));
                assert(self.branch@[i as int]@ == node(before, i as nat, left));
            }
            cur = hash_concat(&self.branch[i], &cur);
            size = size / 2;
            i = i + 1;
        }
        proof {
            lemma_ancestor_top(new_count as nat);
        }
        Err(TreeFull)
    }

    /// The inclusion proof that `leaf` has once it is ingested next, under
    /// the root that the accumulator has then. Nothing is ingested. The
    /// siblings to the left are the retained nodes, those to the right are
    /// empty. A full accumulator has no next leaf.
    pub fn prove_next(&self, leaf: H256) -> (res: Result<Proof, TreeFull>)
        requires
            self.wf(),
        ensures
            res is Ok <==> self@.len() < MAX_LEAVES,
            res matches Ok(p) ==> {
                &&& p.leaf == leaf
                &&& p.index == self@.len()
                &&& p.path_words() == sibling_path(self@.push(leaf@), self@.len())
                &&& p.spec_root() == tree_root(self@.push(leaf@))
            },
    {
        if self.count >= MAX_LEAVES {
            return Err(TreeFull);
        }
        let ghost after = self.leaves@.push(leaf@);
        let mut path: [H256; 32] = [H256::zero(); 32];
        let mut zero = H256::zero();
        let mut size: u64 = self.count;
        let mut k: usize = 0;
        while k < 32
            invariant
                k <= 32,
                self.wf(),
                after == self.leaves@.push(leaf@),
                size == ancestor(self.count as nat, k as nat),
                zero@ == zero_hash(k as nat),
                forall|m: int|
                    0 <= m < k ==> path@[m]@ == node(
                        after,
                        m as nat,
                        sibling(#[trigger] ancestor(self.count as nat, m as nat)),
                    ),
            decreases 32 - k,
        {
            proof {
                assert(retained(self.branch@, self.leaves@, self.count as nat, k as int));
                if size % 2 == 1 {
                    lemma_node_prefix(
                        after,
                        self.leaves@,
                        self.count as nat,
                        k as nat,
                        (size - 1) as nat,
                    );
                } else {
                    lemma_width_of_successor(self.count as nat, k as nat);
                    lemma_empty_node(after, k as nat, (size + 1) as nat);
                }
            }
            let entry = if size % 2 == 1 {
                self.branch[k]
            } else {
                zero
            };
            path[k] = entry;
            zero = hash_concat(&zero, &zero);
            size = size / 2;
            k = k + 1;
        }
        let proof_out = Proof { leaf, index: self.count as u32, path };
        proof {
            assert(proof_out.path_words() =~= sibling_path(after, self.count as nat));
            law_sibling_path_replays_to_root(after, self.count as nat);
        }
        Ok(proof_out)
    }

    /// The root of the depth-32 tree over the leaves ingested so far.
    pub fn root(&self) -> (r: H256)
        requires
            self.wf(),
        ensures
            r@ == tree_root(self@),
    {
        let mut cur = H256::zero();
        let mut zero = H256::zero();
        let mut size: u64 = self.count;
        let mut i: usize = 0;
        while i < 32
            invariant
                i <= 32,
                self.wf(),
                size == ancestor(self.count as nat, i as nat),
                zero@ == zero_hash(i as nat),
                cur@ == node(self.leaves@, i as nat, size as nat),
            decreases 32 - i,
        {
            proof {
                lemma_width_bound(self.count as nat, i as nat);
                lemma_empty_node(self.leaves@, i as nat, (size + 1) as nat);
                assert(retained(self.branch@, self.leaves@, self.count as nat, i as int));
            }
            let next = if size % 2 == 1 {
                hash_concat(&self.branch[i], &cur)
            } else {
                hash_concat(&cur, &zero)
            };
            zero = hash_concat(&zero, &zero);
            cur = next;
            size = size / 2;
            i = i + 1;
        }
        proof {
            lemma_ancestor_top(self.count as nat);
        }
        cur
    }
}

/// Why the prover could not answer.
#[derive(Clone, Copy, Debug, PartialEq, Eq, Structural)]
pub enum ProverError {
    /// The tree holds as many leaves as it can.
    Full,
    /// No such leaf had been ingested at the requested leaf count.
    IndexTooHigh,
    /// The proof does not lead to the current root.
    InvalidProof,
}

/// The full accumulator: it keeps every leaf, and so can prove the inclusion
/// of any of them under the root of any earlier leaf count.
pub struct Prover {
    leaves: Vec<H256>,
    light: IncrementalMerkle,
}

impl View for Prover {
    type V = Seq<Seq<u8>>;

    /// The leaves ingested so far, in order.
    closed spec fn view(&self) -> Seq<Seq<u8>> {
        words(self.leaves@)
    }
}

impl Prover {
    /// The retained leaves are those that the light accumulator has hashed.
    pub closed spec fn wf(&self) -> bool {
        &&& self.light.wf()
        &&& self.light@ == words(self.leaves@)
    }

    /// The prover over no leaf.
    pub fn new() -> (prover: Prover)
        ensures
            prover.wf(),
            prover@ == Seq::<Seq<u8>>::empty(),
    {
        let prover = Prover { leaves: Vec::new(), light: IncrementalMerkle::new() };
        assert(words(prover.leaves@) =~= Seq::<Seq<u8>>::empty());
        prover
    }

    /// The number of leaves ingested.
    pub fn count(&self) -> (n: u64)
        requires
            self.wf(),
        ensures
            n == self@.len(),
            n <= MAX_LEAVES,
    {
        self.light.count()
    }

    /// The root over all the leaves ingested.
    pub fn root(&self) -> (r: H256)
        requires
            self.wf(),
        ensures
            r@ == tree_root(self@),
    {
        self.light.root()
    }

    /// Appends a leaf and returns the new root. A full tree is left as it is.
    pub fn ingest(&mut self, leaf: H256) -> (res: Result<H256, ProverError>)
        requires
            old(self).wf(),
        ensures
            final(self).wf(),
            old(self)@.len() < MAX_LEAVES ==> final(self)@ == old(self)@.push(leaf@) && (res
                matches Ok(r) && r@ == tree_root(final(self)@)),
            old(self)@.len() >= MAX_LEAVES ==> final(self)@ == old(self)@ && res == Err::<
                H256,
                ProverError,
            >(ProverError::Full),
    {
        match self.light.ingest(leaf) {
            Ok(()) => {
                self.leaves.push(leaf);
                assert(words(self.leaves@) =~= words(old(self).leaves@).push(leaf@));
                Ok(self.light.root())
            },
            Err(_) => Err(ProverError::Full),
        }
    }

    /// The inclusion proof that `leaf` has once it is ingested next, under
    /// the root that the tree has then. Nothing is ingested.
    pub fn prove_next(&self, leaf: H256) -> (res: Result<Proof, ProverError>)
        requires
            self.wf(),
        ensures
            res is Ok <==> self@.len() < MAX_LEAVES,
            res matches Ok(p) ==> {
                &&& p.leaf == leaf
                &&& p.index == self@.len()
                &&& p.path_words() == sibling_path(self@.push(leaf@), self@.len())
                &&& p.spec_root() == tree_root(self@.push(leaf@))
            },
            res matches Err(e) ==> e == ProverError::Full,
    {
        match self.light.prove_next(leaf) {
            Ok(proof) => Ok(proof),
            Err(_) => Err(ProverError::Full),
        }
    }

    /// Proves the inclusion of leaf `index` under the current root.
    pub fn prove(&self, index: u32) -> (res: Result<Proof, ProverError>)
        requires
            self.wf(),
        ensures
            index < self@.len() <==> res is Ok,
            res matches Ok(p) ==> (p.index == index && p.leaf@ == self@[index as int]
                && p.path_words() == sibling_path(self@, index as nat) && p.spec_root()
                == tree_root(self@)),
            res matches Err(e) ==> e == ProverError::IndexTooHigh,
    {
        let count = self.count();
        assert(self@.take(count as int) =~= self@);
        self.prove_at(index, count)
    }

    /// Proves the inclusion of leaf `index` under the root that the tree had
    /// when it held its first `count` leaves.
    pub fn prove_at(&self, index: u32, count: u64) -> (res: Result<Proof, ProverError>)
        requires
            self.wf(),
        ensures
            (index < count && count <= self@.len()) <==> res is Ok,
            res matches Ok(p) ==> (p.index == index && p.leaf@ == self@[index as int]
                && p.path_words() == sibling_path(self@.take(count as int), index as nat)
                && p.spec_root() == tree_root(self@.take(count as int))),
            res matches Err(e) ==> e == ProverError::IndexTooHigh,
    {
        let total = self.count();
        if !((index as u64) < count && count <= total) {
            return Err(ProverError::IndexTooHigh);
        }
        let ghost prefix = self@.take(count as int);
        let mut layer: Vec<H256> = Vec::new();
        let mut j: usize = 0;
        while j < count as usize
            invariant
                j <= count,
                count <= self.leaves.len(),
                count <= MAX_LEAVES,
                layer.len() == j,
                forall|t: int| 0 <= t < j ==> layer@[t] == self.leaves@[t],
            decreases count - j,
        {
            layer.push(self.leaves[j]);
            j = j + 1;
        }
        let mut path: [H256; 32] = [H256::zero(); 32];
        let mut zero = H256::zero();
        let mut idx: u64 = index as u64;
        let mut k: usize = 0;
        while k < 32
            invariant
                k <= 32,
                count <= MAX_LEAVES,
                prefix == self@.take(count as int),
                prefix.len() == count,
                idx == ancestor(index as nat, k as nat),
                zero@ == zero_hash(k as nat),
                layer.len() == width(count as nat, k as nat),
                layer.len() <= MAX_LEAVES,
                forall|t: int| 0 <= t < layer.len() ==> layer@[t]@ == node(prefix, k as nat, t as nat),
                forall|m: int|
                    0 <= m < k ==> path@[m]@ == node(
                        prefix,
                        m as nat,
                        sibling(#[trigger] ancestor(index as nat, m as nat)),
                    ),
            decreases 32 - k,
        {
            let n = layer.len();
            let sib: u64 = if idx % 2 == 0 {
                idx + 1
            } else {
                idx - 1
            };
            proof {
                if sib >= n {
                    lemma_empty_node(prefix, k as nat, sib as nat);
                }
            }
            let entry = if sib < n as u64 {
                layer[sib as usize]
            } else {
                zero
            };
            path[k] = entry;
            let half: usize = n / 2 + n % 2;
            let mut next: Vec<H256> = Vec::new();
            let mut t: usize = 0;
            while t < half
                invariant
                    t <= half,
                    half == n / 2 + n % 2,
                    n == layer.len(),
                    n == width(count as nat, k as nat),
                    n <= MAX_LEAVES,
                    prefix.len() == count,
                    zero@ == zero_hash(k as nat),
                    next.len() == t,
                    forall|u: int|
                        0 <= u < n ==> layer@[u]@ == node(prefix, k as nat, u as nat),
                    forall|u: int|
                        0 <= u < t ==> next@[u]@ == node(prefix, (k + 1) as nat, u as nat),
                decreases half - t,
            {
                let left = layer[2 * t];
                proof {
                    if 2 * t + 1 >= n {
                        lemma_empty_node(prefix, k as nat, (2 * t + 1) as nat);
                    }
                }
                let right = if 2 * t + 1 < n {
                    layer[2 * t + 1]
                } else {
                    zero
                };
                let parent = hash_concat(&left, &right);
                next.push(parent);
                t = t + 1;
            }
            layer = next;
            zero = hash_concat(&zero, &zero);
            idx = idx / 2;
            k = k + 1;
        }
        let proof_out = Proof { leaf: self.leaves[index as usize], index, path };
        proof {
            assert(proof_out.path_words() =~= sibling_path(prefix, index as nat));
            assert(prefix[index as int] == self@[index as int]);
            law_sibling_path_replays_to_root(prefix, index as nat);
        }
        Ok(proof_out)
    }

    /// Whether the proof leads to the current root.
    pub fn verify(&self, proof: &Proof) -> (res: Result<(), ProverError>)
        requires
            self.wf(),
        ensures
            res is Ok <==> proof.spec_root() == tree_root(self@),
            res matches Err(e) ==> e == ProverError::InvalidProof,
    {
        let expected = self.root();
        let actual = proof.root();
        if expected.same(&actual) {
            Ok(())
        } else {
            Err(ProverError::InvalidProof)
        }
    }
}

} // verus!
