//! Selection of a checkpoint that a quorum of the configured validators
//! signed.

use vstd::prelude::*;
use crate::checkpoint::{
    recovered_signer, Checkpoint, MultisigSignedCheckpoint, Signature, SignedCheckpoint,
};
use crate::primitives::{
    lemma_lex_irreflexive, lemma_lex_total, lemma_lex_transitive, lex_less, Address,
};

verus! {

/// Whether the addresses stand in strictly ascending order of their bytes.
pub open spec fn strictly_ascending(v: Seq<Address>) -> bool {
    forall|i: int, j: int| 0 <= i < j < v.len() ==> lex_less(#[trigger] v[i]@, #[trigger] v[j]@)
}

/// Whether no address occurs twice.
pub open spec fn distinct(v: Seq<Address>) -> bool {
    forall|i: int, j: int| 0 <= i < j < v.len() ==> #[trigger] v[i]@ != #[trigger] v[j]@
}

/// Whether an address occurs in the sequence.
pub open spec fn has_address(v: Seq<Address>, a: Seq<u8>) -> bool {
    exists|i: int| 0 <= i < v.len() && #[trigger] v[i]@ == a
}

/// What was fetched for the validator at position `k`: nothing where the
/// list of votes is too short.
pub open spec fn vote_at(votes: Seq<Option<SignedCheckpoint>>, k: int) -> Option<SignedCheckpoint> {
    if 0 <= k < votes.len() {
        votes[k]
    } else {
        None
    }
}

/// Whether the validator at position `k` published a checkpoint at `index`
/// under its own signature.
pub open spec fn valid_vote(
    validators: Seq<Address>,
    votes: Seq<Option<SignedCheckpoint>>,
    index: u32,
    k: int,
) -> bool {
    &&& 0 <= k < validators.len()
    &&& vote_at(votes, k) matches Some(sc)
    &&& sc.checkpoint.index == index
    &&& sc.signer() == Some(validators[k]@)
}

/// Whether the validator at position `k` published exactly checkpoint `c`
/// under its own signature.
pub open spec fn supports(
    validators: Seq<Address>,
    votes: Seq<Option<SignedCheckpoint>>,
    c: Checkpoint,
    k: int,
) -> bool {
    &&& 0 <= k < validators.len()
    &&& vote_at(votes, k) matches Some(sc)
    &&& sc.checkpoint == c
    &&& sc.signer() == Some(validators[k]@)
}

/// The signatures over `c` of the first `n` validators that support it, in
/// the validators' order.
pub open spec fn supporting_signatures(
    validators: Seq<Address>,
    votes: Seq<Option<SignedCheckpoint>>,
    c: Checkpoint,
    n: nat,
) -> Seq<Signature>
    decreases n,
{
    if n == 0 {
        Seq::empty()
    } else {
        let before = supporting_signatures(validators, votes, c, (n - 1) as nat);
        if supports(validators, votes, c, n - 1) {
            before.push(vote_at(votes, n - 1)->0.signature)
        } else {
            before
        }
    }
}

/// How many validators support `c`.
pub open spec fn support(
    validators: Seq<Address>,
    votes: Seq<Option<SignedCheckpoint>>,
    c: Checkpoint,
) -> nat {
    supporting_signatures(validators, votes, c, validators.len()).len()
}

/// Whether the vote at position `k` is valid at `index` and its checkpoint
/// has the support of at least `threshold` validators.
pub open spec fn quorum_vote(
    validators: Seq<Address>,
    votes: Seq<Option<SignedCheckpoint>>,
    threshold: nat,
    index: u32,
    k: int,
) -> bool {
    &&& valid_vote(validators, votes, index, k)
    &&& support(validators, votes, vote_at(votes, k)->0.checkpoint) >= threshold
}

/// Whether some vote at `index` has a quorum behind it.
pub open spec fn has_quorum(
    validators: Seq<Address>,
    votes: Seq<Option<SignedCheckpoint>>,
    threshold: nat,
    index: u32,
) -> bool {
    exists|k: int| quorum_vote(validators, votes, threshold, index, k)
}

/// Whether `k` is the first position whose vote has a quorum behind it.
pub open spec fn first_quorum_vote(
    validators: Seq<Address>,
    votes: Seq<Option<SignedCheckpoint>>,
    threshold: nat,
    index: u32,
    k: int,
) -> bool {
    &&& quorum_vote(validators, votes, threshold, index, k)
    &&& forall|j: int| 0 <= j < k ==> !quorum_vote(validators, votes, threshold, index, j)
}

/// Why a validator set was refused.
#[derive(Clone, Copy, Debug, PartialEq, Eq, Structural)]
pub enum MultisigConfigError {
    /// The threshold is zero.
    ThresholdZero,
    /// The threshold is above the number of validators.
    ThresholdAboveValidators,
    /// A validator is named twice.
    DuplicateValidator,
}

/// The validator set and its quorum as the contracts speak of them.
pub struct SyncerView {
    pub validators: Seq<Address>,
    pub threshold: nat,
}

/// The configured validators, in ascending order of address, and the number
/// of them that must agree.
#[derive(Clone, Debug)]
pub struct MultisigCheckpointSyncer {
    validators: Vec<Address>,
    threshold: usize,
}

impl View for MultisigCheckpointSyncer {
    type V = SyncerView;

    closed spec fn view(&self) -> SyncerView {
        SyncerView { validators: self.validators@, threshold: self.threshold as nat }
    }
}

impl MultisigCheckpointSyncer {
    /// The validators are in strictly ascending order and the threshold is
    /// between one and their number.
    pub open spec fn wf(&self) -> bool {
        &&& strictly_ascending(self@.validators)
        &&& 1 <= self@.threshold <= self@.validators.len()
    }

    /// Builds the syncer from the configured validators, in any order, and
    /// the threshold.
    pub fn new(validators: Vec<Address>, threshold: usize) -> (res: Result<
        MultisigCheckpointSyncer,
        MultisigConfigError,
    >)
        ensures
            res is Ok <==> 1 <= threshold <= validators.len() && distinct(validators@),
            res matches Ok(syncer) ==> syncer.wf() && syncer@.threshold == threshold
                && syncer@.validators.len() == validators.len() && (forall|a: Seq<u8>|
                has_address(syncer@.validators, a) <==> has_address(validators@, a)),
            res matches Err(e) ==> e == (if threshold == 0 {
                MultisigConfigError::ThresholdZero
            } else if threshold > validators.len() {
                MultisigConfigError::ThresholdAboveValidators
            } else {
                MultisigConfigError::DuplicateValidator
            }),
    {
        if threshold == 0 {
            return Err(MultisigConfigError::ThresholdZero);
        }
        if threshold > validators.len() {
            return Err(MultisigConfigError::ThresholdAboveValidators);
        }
        let mut sorted: Vec<Address> = Vec::new();
        let mut i: usize = 0;
        while i < validators.len()
            invariant
                i <= validators.len(),
                1 <= threshold <= validators.len(),
                sorted.len() == i,
                strictly_ascending(sorted@),
                distinct(validators@.take(i as int)),
                forall|a: Seq<u8>|
                    has_address(sorted@, a) <==> has_address(validators@.take(i as int), a),
            decreases validators.len() - i,
        {
            let next = validators[i];
            let mut p: usize = 0;
            while p < sorted.len() && sorted[p].precedes(&next)
                invariant
                    p <= sorted.len(),
                    forall|q: int| 0 <= q < p ==> lex_less(#[trigger] sorted@[q]@, next@),
                decreases sorted.len() - p,
            {
                p = p + 1;
            }
            let ghost prefix = validators@.take(i as int);
            let ghost longer = validators@.take(i + 1);
            if p < sorted.len() && sorted[p].same(&next) {
                proof {
                    assert(has_address(sorted@, next@));
                    assert(has_address(prefix, next@));
                    let w = choose|w: int| 0 <= w < prefix.len() && #[trigger] prefix[w]@ == next@;
                    assert(validators@[w]@ == validators@[i as int]@);
                }
                return Err(MultisigConfigError::DuplicateValidator);
            }
            let ghost before = sorted@;
            sorted.insert(p, next);
            proof {
                assert forall|x: int, y: int| 0 <= x < y < sorted@.len() implies lex_less(
                    #[trigger] sorted@[x]@,
                    #[trigger] sorted@[y]@,
                ) by {
                    if p < before.len() {
                        lemma_lex_total(before[p as int]@, next@);
                        assert(lex_less(next@, before[p as int]@));
                    }
                    if y == p {
                        assert(sorted@[x] == before[x]);
                    } else if x == p {
                        assert(sorted@[y] == before[y - 1]);
                        if y - 1 > p {
                            lemma_lex_transitive(next@, before[p as int]@, before[y - 1]@);
                        }
                    } else {
                        let bx = if x < p {
                            x
                        } else {
                            x - 1
                        };
                        let by = if y < p {
                            y
                        } else {
                            y - 1
                        };
                        assert(sorted@[x] == before[bx]);
                        assert(sorted@[y] == before[by]);
                    }
                }
                assert forall|a: Seq<u8>| has_address(sorted@, a) <==> has_address(
                    longer,
                    a,
                ) by {
                    if has_address(sorted@, a) {
                        let w = choose|w: int| 0 <= w < sorted@.len() && #[trigger] sorted@[w]@ == a;
                        if w == p {
                            assert(longer[i as int]@ == a);
                        } else {
                            let bw = if w < p {
                                w
                            } else {
                                w - 1
                            };
                            assert(before[bw]@ == a);
                            assert(has_address(before, a));
                            assert(has_address(prefix, a));
                            let u = choose|u: int| 0 <= u < prefix.len() && #[trigger] prefix[u]@ == a;
                            assert(longer[u]@ == a);
                        }
                    }
                    if has_address(longer, a) {
                        let u = choose|u: int| 0 <= u < longer.len() && #[trigger] longer[u]@ == a;
                        if u == i {
                            assert(sorted@[p as int]@ == a);
                        } else {
                            assert(prefix[u]@ == a);
                            assert(has_address(prefix, a));
                            assert(has_address(before, a));
                            let w = choose|w: int| 0 <= w < before.len() && #[trigger] before[w]@ == a;
                            let sw = if w < p {
                                w
                            } else {
                                w + 1
                            };
                            assert(sorted@[sw]@ == a);
                        }
                    }
                }
                assert forall|x: int, y: int| 0 <= x < y < longer.len() implies #[trigger] longer[x]@
                    != #[trigger] longer[y]@ by {
                    if y == i {
                        if longer[x]@ == next@ {
                            assert(prefix[x]@ == next@);
                            assert(has_address(prefix, next@));
                            assert(has_address(before, next@));
                            let w = choose|w: int| 0 <= w < before.len() && #[trigger] before[w]@ == next@;
                            if w < p {
                                lemma_lex_irreflexive(next@);
                            } else {
                                if w > p {
                                    lemma_lex_total(before[p as int]@, next@);
                                    lemma_lex_transitive(next@, before[p as int]@, before[w]@);
                                } else {
                                    assert(before[p as int] == next);
                                }
                                lemma_lex_irreflexive(next@);
                            }
                        }
                    } else {
                        assert(prefix[x] == longer[x]);
                        assert(prefix[y] == longer[y]);
                    }
                }
            }
            i = i + 1;
        }
        assert(validators@.take(validators.len() as int) =~= validators@);
        Ok(MultisigCheckpointSyncer { validators: sorted, threshold })
    }
}

/// Whether the vote at position `k` carries the signature of the validator
/// at that position.
pub open spec fn genuine(
    validators: Seq<Address>,
    votes: Seq<Option<SignedCheckpoint>>,
    k: int,
) -> bool {
    &&& 0 <= k < validators.len()
    &&& vote_at(votes, k) matches Some(sc)
    &&& sc.signer() == Some(validators[k]@)
}

impl MultisigCheckpointSyncer {
    /// The validators, in ascending order of address. The votes handed to
    /// `quorum_at` stand in this order.
    pub fn validators(&self) -> (v: &Vec<Address>)
        ensures
            v@ == self@.validators,
    {
        &self.validators
    }

    /// The position of a validator in `validators()`, if it is one of them.
    pub fn position_of(&self, validator: &Address) -> (pos: Option<usize>)
        ensures
            pos matches Some(k) ==> k < self@.validators.len() && self@.validators[k as int]@
                == validator@,
            pos is None ==> !has_address(self@.validators, validator@),
    {
        let mut k: usize = 0;
        while k < self.validators.len()
            invariant
                k <= self.validators.len(),
                forall|j: int| 0 <= j < k ==> self.validators@[j]@ != validator@,
            decreases self.validators.len() - k,
        {
            if self.validators[k].same(validator) {
                return Some(k);
            }
            k = k + 1;
        }
        None
    }

    /// The number of validators that must agree.
    pub fn threshold(&self) -> (t: usize)
        ensures
            t == self@.threshold,
    {
        self.threshold
    }

    /// For each validator, whether what was fetched from it carries its own
    /// signature.
    fn check_signatures(&self, votes: &Vec<Option<SignedCheckpoint>>) -> (flags: Vec<bool>)
        ensures
            flags.len() == self@.validators.len(),
            forall|k: int|
                0 <= k < flags.len() ==> flags@[k] == genuine(self@.validators, votes@, k),
    {
        let mut flags: Vec<bool> = Vec::new();
        let mut k: usize = 0;
        while k < self.validators.len()
            invariant
                k <= self.validators.len(),
                flags.len() == k,
                forall|j: int| 0 <= j < k ==> flags@[j] == genuine(self@.validators, votes@, j),
            decreases self.validators.len() - k,
        {
            let flag = if k < votes.len() {
                match votes[k] {
                    Some(sc) => sc.signed_by(&self.validators[k]),
                    None => false,
                }
            } else {
                false
            };
            flags.push(flag);
            k = k + 1;
        }
        flags
    }

    /// The signatures over `c` of the validators that support it, in the
    /// validators' order.
    fn collect_support(
        &self,
        votes: &Vec<Option<SignedCheckpoint>>,
        flags: &Vec<bool>,
        c: &Checkpoint,
    ) -> (sigs: Vec<Signature>)
        requires
            flags.len() == self@.validators.len(),
            forall|k: int|
                0 <= k < flags.len() ==> flags@[k] == genuine(self@.validators, votes@, k),
        ensures
            sigs@ == supporting_signatures(
                self@.validators,
                votes@,
                *c,
                self@.validators.len(),
            ),
    {
        let mut sigs: Vec<Signature> = Vec::new();
        let mut j: usize = 0;
        while j < self.validators.len()
            invariant
                j <= self.validators.len(),
                flags.len() == self@.validators.len(),
                forall|k: int|
                    0 <= k < flags.len() ==> flags@[k] == genuine(self@.validators, votes@, k),
                sigs@ == supporting_signatures(self@.validators, votes@, *c, j as nat),
            decreases self.validators.len() - j,
        {
            if flags[j] {
                assert(genuine(self@.validators, votes@, j as int));
                let sc = votes[j].unwrap();
                if sc.checkpoint.same(c) {
                    sigs.push(sc.signature);
                }
            }
            j = j + 1;
        }
        sigs
    }

    /// Looks for a quorum among what the validators published at `index`.
    /// `votes` holds, for each validator in the order of `validators()`,
    /// what was fetched from its backend. The result is the checkpoint of the
    /// first vote that at least the threshold of validators support, with the
    /// signatures of all its supporters in ascending order of their address.
    pub fn quorum_at(&self, index: u32, votes: &Vec<Option<SignedCheckpoint>>) -> (res: Option<
        MultisigSignedCheckpoint,
    >)
        requires
            self.wf(),
        ensures
            res is Some <==> has_quorum(self@.validators, votes@, self@.threshold, index),
            res matches Some(m) ==> (exists|k: int|
                first_quorum_vote(self@.validators, votes@, self@.threshold, index, k)
                    && m.checkpoint == vote_at(votes@, k)->0.checkpoint) && m.signatures@
                == supporting_signatures(
                self@.validators,
                votes@,
                m.checkpoint,
                self@.validators.len(),
            ),
    {
        let flags = self.check_signatures(votes);
        let mut k: usize = 0;
        while k < self.validators.len()
            invariant
                k <= self.validators.len(),
                flags.len() == self@.validators.len(),
                forall|j: int|
                    0 <= j < flags.len() ==> flags@[j] == genuine(self@.validators, votes@, j),
                forall|j: int|
                    0 <= j < k ==> !quorum_vote(
                        self@.validators,
                        votes@,
                        self@.threshold,
                        index,
                        j,
                    ),
            decreases self.validators.len() - k,
        {
            if flags[k] {
                assert(genuine(self@.validators, votes@, k as int));
                let sc = votes[k].unwrap();
                if sc.checkpoint.index == index {
                    let sigs = self.collect_support(votes, &flags, &sc.checkpoint);
                    if sigs.len() >= self.threshold {
                        assert(first_quorum_vote(
                            self@.validators,
                            votes@,
                            self@.threshold,
                            index,
                            k as int,
                        ));
                        return Some(
                            MultisigSignedCheckpoint { checkpoint: sc.checkpoint, signatures: sigs },
                        );
                    }
                }
            }
            k = k + 1;
        }
        None
    }
}

/// The address whose key made `sig` over checkpoint `c`, if any did.
pub open spec fn signer_of(sig: Signature, c: Checkpoint) -> Option<Seq<u8>> {
    recovered_signer(sig.r@, sig.s@, sig.v, c.signed_digest())
}

/// Whether `addr` is one of the first `n` validators.
pub open spec fn among_first(validators: Seq<Address>, n: nat, addr: Seq<u8>) -> bool {
    exists|k: int| 0 <= k < n && k < validators.len() && #[trigger] validators[k]@ == addr
}

/// The signatures collected from the first `n` validators are at most `n`,
/// each is by one of those validators over `c`, and their signers ascend.
pub proof fn lemma_supporting_signatures(
    validators: Seq<Address>,
    votes: Seq<Option<SignedCheckpoint>>,
    c: Checkpoint,
    n: nat,
)
    requires
        strictly_ascending(validators),
        n <= validators.len(),
    ensures
        supporting_signatures(validators, votes, c, n).len() <= n,
        forall|a: int|
            0 <= a < supporting_signatures(validators, votes, c, n).len() ==> {
                &&& signer_of(#[trigger] supporting_signatures(validators, votes, c, n)[a], c)
                    is Some
                &&& among_first(
                    validators,
                    n,
                    signer_of(supporting_signatures(validators, votes, c, n)[a], c)->0,
                )
            },
        forall|a: int, b: int|
            0 <= a < b < supporting_signatures(validators, votes, c, n).len() ==> lex_less(
                signer_of(#[trigger] supporting_signatures(validators, votes, c, n)[a], c)->0,
                signer_of(#[trigger] supporting_signatures(validators, votes, c, n)[b], c)->0,
            ),
    decreases n,
{
    if n > 0 {
        lemma_supporting_signatures(validators, votes, c, (n - 1) as nat);
        let before = supporting_signatures(validators, votes, c, (n - 1) as nat);
        let now = supporting_signatures(validators, votes, c, n);
        assert forall|a: int| 0 <= a < now.len() implies {
            &&& signer_of(#[trigger] now[a], c) is Some
            &&& among_first(validators, n, signer_of(now[a], c)->0)
        } by {
            if a < before.len() {
                assert(now[a] == before[a]);
                let addr = signer_of(before[a], c)->0;
                assert(among_first(validators, (n - 1) as nat, addr));
                let k = choose|k: int|
                    0 <= k < n - 1 && k < validators.len() && #[trigger] validators[k]@ == addr;
                assert(validators[k]@ == addr);
            } else {
                assert(validators[n - 1]@ == signer_of(now[a], c)->0);
            }
        }
        assert forall|a: int, b: int| 0 <= a < b < now.len() implies lex_less(
            signer_of(#[trigger] now[a], c)->0,
            signer_of(#[trigger] now[b], c)->0,
        ) by {
            assert(now[a] == before[a]);
            if b < before.len() {
                assert(now[b] == before[b]);
            } else {
                let addr = signer_of(before[a], c)->0;
                assert(among_first(validators, (n - 1) as nat, addr));
                let k = choose|k: int|
                    0 <= k < n - 1 && k < validators.len() && #[trigger] validators[k]@ == addr;
                assert(lex_less(validators[k]@, validators[n - 1]@));
            }
        }
    }
}

/// The signatures of a bundle are sound: each is the signature of a
/// configured validator over the bundle's one checkpoint, no two of them are
/// the same, and they stand in ascending order of their signers.
pub proof fn law_bundle_signatures(
    validators: Seq<Address>,
    votes: Seq<Option<SignedCheckpoint>>,
    c: Checkpoint,
)
    requires
        strictly_ascending(validators),
    ensures
        forall|a: int|
            0 <= a < supporting_signatures(validators, votes, c, validators.len()).len() ==> {
                &&& signer_of(
                    #[trigger] supporting_signatures(validators, votes, c, validators.len())[a],
                    c,
                ) is Some
                &&& has_address(
                    validators,
                    signer_of(
                        supporting_signatures(validators, votes, c, validators.len())[a],
                        c,
                    )->0,
                )
            },
        forall|a: int, b: int|
            0 <= a < b < supporting_signatures(validators, votes, c, validators.len()).len()
                ==> {
                &&& #[trigger] supporting_signatures(validators, votes, c, validators.len())[a]
                    != #[trigger] supporting_signatures(validators, votes, c, validators.len())[b]
                &&& lex_less(
                    signer_of(supporting_signatures(validators, votes, c, validators.len())[a], c)->0,
                    signer_of(supporting_signatures(validators, votes, c, validators.len())[b], c)->0,
                )
            },
{
    let sigs = supporting_signatures(validators, votes, c, validators.len());
    lemma_supporting_signatures(validators, votes, c, validators.len());
    assert forall|a: int| 0 <= a < sigs.len() implies has_address(
        validators,
        signer_of(#[trigger] sigs[a], c)->0,
    ) by {
        let addr = signer_of(sigs[a], c)->0;
        assert(among_first(validators, validators.len(), addr));
        let k = choose|k: int|
            0 <= k < validators.len() && k < validators.len() && #[trigger] validators[k]@ == addr;
        assert(validators[k]@ == addr);
    }
    assert forall|a: int, b: int| 0 <= a < b < sigs.len() implies #[trigger] sigs[a]
        != #[trigger] sigs[b] by {
        lemma_lex_irreflexive(signer_of(sigs[a], c)->0);
    }
}

/// Where the collected signatures are as many as the validators looked at,
/// every one of those validators supports the checkpoint.
pub proof fn lemma_full_support(
    validators: Seq<Address>,
    votes: Seq<Option<SignedCheckpoint>>,
    c: Checkpoint,
    n: nat,
)
    requires
        n <= validators.len(),
    ensures
        supporting_signatures(validators, votes, c, n).len() <= n,
        supporting_signatures(validators, votes, c, n).len() == n ==> forall|k: int|
            0 <= k < n ==> supports(validators, votes, c, k),
    decreases n,
{
    if n > 0 {
        lemma_full_support(validators, votes, c, (n - 1) as nat);
    }
}

/// With the threshold at the number of validators, a quorum means that all
/// validators published the same checkpoint under their own signatures.
pub proof fn law_full_threshold_needs_all(
    validators: Seq<Address>,
    votes: Seq<Option<SignedCheckpoint>>,
    c: Checkpoint,
)
    requires
        support(validators, votes, c) >= validators.len(),
    ensures
        forall|k: int| 0 <= k < validators.len() ==> supports(validators, votes, c, k),
{
    lemma_full_support(validators, votes, c, validators.len());
}

/// A supporter among the first `n` validators leaves at least one signature.
pub proof fn lemma_supporter_counts(
    validators: Seq<Address>,
    votes: Seq<Option<SignedCheckpoint>>,
    c: Checkpoint,
    n: nat,
    k: int,
)
    requires
        supports(validators, votes, c, k),
        k < n <= validators.len(),
    ensures
        supporting_signatures(validators, votes, c, n).len() >= 1,
    decreases n,
{
    if n - 1 > k {
        lemma_supporter_counts(validators, votes, c, (n - 1) as nat, k);
    }
}

/// With the threshold at one, a single validator's own signature over a
/// checkpoint at the index is a quorum.
pub proof fn law_single_signature_suffices(
    validators: Seq<Address>,
    votes: Seq<Option<SignedCheckpoint>>,
    index: u32,
    k: int,
)
    requires
        valid_vote(validators, votes, index, k),
    ensures
        has_quorum(validators, votes, 1, index),
{
    let c = vote_at(votes, k)->0.checkpoint;
    lemma_supporter_counts(validators, votes, c, validators.len(), k);
    assert(quorum_vote(validators, votes, 1, index, k));
}

/// Whether each index is above all that follow it.
pub open spec fn strictly_descending(v: Seq<u32>) -> bool {
    forall|i: int, j: int| 0 <= i < j < v.len() ==> #[trigger] v[i] > #[trigger] v[j]
}

/// Whether some backend reported `x` as its latest index.
pub open spec fn reported(latest: Seq<Option<u32>>, x: u32) -> bool {
    exists|i: int| 0 <= i < latest.len() && #[trigger] latest[i] == Some(x)
}

/// Puts `x` into a descending list, unless it is there already.
fn insert_descending(out: &mut Vec<u32>, x: u32)
    requires
        strictly_descending(old(out)@),
    ensures
        strictly_descending(final(out)@),
        forall|y: u32| final(out)@.contains(y) <==> (old(out)@.contains(y) || y == x),
{
    let ghost before = out@;
    let mut p: usize = 0;
    while p < out.len() && out[p] > x
        invariant
            p <= out.len(),
            out@ == before,
            forall|q: int| 0 <= q < p ==> out@[q] > x,
        decreases out.len() - p,
    {
        p = p + 1;
    }
    if p < out.len() && out[p] == x {
        assert(before.contains(x));
        return ;
    }
    out.insert(p, x);
    proof {
        assert forall|a: int, b: int| 0 <= a < b < out@.len() implies #[trigger] out@[a]
            > #[trigger] out@[b] by {
            let ba = if a < p {
                a
            } else {
                a - 1
            };
            let bb = if b < p {
                b
            } else {
                b - 1
            };
            if a != p {
                assert(out@[a] == before[ba]);
            }
            if b != p {
                assert(out@[b] == before[bb]);
            }
        }
        let after = out@;
        assert(after == before.insert(p as int, x));
        assert forall|y: u32| after.contains(y) <==> (before.contains(y) || y == x) by {
            if after.contains(y) {
                let w = choose|w: int| 0 <= w < after.len() && after[w] == y;
                if w != p {
                    let bw = if w < p {
                        w
                    } else {
                        w - 1
                    };
                    assert(before[bw] == y);
                    assert(before.contains(y));
                }
            }
            if before.contains(y) {
                let w = choose|w: int| 0 <= w < before.len() && before[w] == y;
                let sw = if w < p {
                    w
                } else {
                    w + 1
                };
                assert(after[sw] == y);
                assert(after.contains(y));
            }
            if y == x {
                assert(after[p as int] == y);
                assert(after.contains(y));
            }
        }
    }
}

/// One more report adds its index to those reported, and nothing else.
proof fn lemma_reported_step(latest: Seq<Option<u32>>, i: int, y: u32)
    requires
        0 <= i < latest.len(),
    ensures
        reported(latest.take(i + 1), y) <==> (reported(latest.take(i), y) || latest[i] == Some(y)),
{
    let seen = latest.take(i);
    let more = latest.take(i + 1);
    if reported(more, y) {
        let w = choose|w: int| 0 <= w < more.len() && #[trigger] more[w] == Some(y);
        if w < i {
            assert(seen[w] == Some(y));
        }
    }
    if reported(seen, y) {
        let w = choose|w: int| 0 <= w < seen.len() && #[trigger] seen[w] == Some(y);
        assert(more[w] == Some(y));
    }
    if latest[i] == Some(y) {
        assert(more[i] == Some(y));
    }
}

/// The indices worth looking at: those that a backend reported as its latest
/// and that are not below `minimum_index`, each once, highest first.
pub fn candidate_indices(latest: &Vec<Option<u32>>, minimum_index: u32) -> (out: Vec<u32>)
    ensures
        strictly_descending(out@),
        forall|x: u32| #[trigger] out@.contains(x) <==> is_candidate(latest@, minimum_index, x),
{
    let mut out: Vec<u32> = Vec::new();
    let mut i: usize = 0;
    assert forall|x: u32| !reported(latest@.take(0), x) by {}
    while i < latest.len()
        invariant
            i <= latest.len(),
            strictly_descending(out@),
            forall|x: u32|
                out@.contains(x) <==> (x >= minimum_index && reported(latest@.take(i as int), x)),
        decreases latest.len() - i,
    {
        let ghost before = out@;
        match latest[i] {
            Some(x) => {
                if x >= minimum_index {
                    insert_descending(&mut out, x);
                }
            },
            None => {},
        }
        proof {
            assert forall|y: u32| out@.contains(y) <==> (y >= minimum_index && reported(
                latest@.take(i + 1),
                y,
            )) by {
                lemma_reported_step(latest@, i as int, y);
            }
        }
        i = i + 1;
    }
    assert(latest@.take(latest.len() as int) =~= latest@);
    out
}

/// A search for the newest checkpoint with a quorum, as the contracts speak
/// of it.
pub struct SearchView {
    /// The indices to look at, highest first.
    pub candidates: Seq<u32>,
    /// How many of them were looked at and had no quorum.
    pub position: nat,
    /// Whether the candidate at `position` had a quorum.
    pub found: bool,
    /// What was fetched for each candidate that had no quorum.
    pub seen: Seq<Seq<Option<SignedCheckpoint>>>,
}

/// A search in progress: the candidate indices and how far the search has
/// come among them.
pub struct QuorumSearch {
    candidates: Vec<u32>,
    position: usize,
    found: bool,
    seen: Ghost<Seq<Seq<Option<SignedCheckpoint>>>>,
}

impl View for QuorumSearch {
    type V = SearchView;

    closed spec fn view(&self) -> SearchView {
        SearchView {
            candidates: self.candidates@,
            position: self.position as nat,
            found: self.found,
            seen: self.seen@,
        }
    }
}

impl QuorumSearch {
    /// The candidates descend, and every candidate behind the search's
    /// position was fetched and had no quorum among `validators`.
    pub open spec fn wf(&self, validators: Seq<Address>, threshold: nat) -> bool {
        &&& strictly_descending(self@.candidates)
        &&& self@.position <= self@.candidates.len()
        &&& self@.found ==> self@.position < self@.candidates.len()
        &&& self@.seen.len() == self@.position
        &&& forall|p: int|
            0 <= p < self@.position ==> !has_quorum(
                validators,
                #[trigger] self@.seen[p],
                threshold,
                self@.candidates[p],
            )
    }

    /// The index whose checkpoints are to be fetched next, if the search is
    /// not over.
    pub fn pending(&self) -> (next: Option<u32>)
        ensures
            next == (if !self@.found && self@.position < self@.candidates.len() {
                Some(self@.candidates[self@.position as int])
            } else {
                None
            }),
    {
        if !self.found && self.position < self.candidates.len() {
            Some(self.candidates[self.position])
        } else {
            None
        }
    }
}

impl MultisigCheckpointSyncer {
    /// Starts a search from the latest indices that the backends reported.
    /// Nothing below `minimum_index` is looked at.
    pub fn begin_search(&self, latest: &Vec<Option<u32>>, minimum_index: u32) -> (search:
        QuorumSearch)
        ensures
            search.wf(self@.validators, self@.threshold),
            search@.position == 0,
            !search@.found,
            forall|x: u32|
                #[trigger] search@.candidates.contains(x) <==> is_candidate(
                    latest@,
                    minimum_index,
                    x,
                ),
    {
        QuorumSearch {
            candidates: candidate_indices(latest, minimum_index),
            position: 0,
            found: false,
            seen: Ghost(Seq::empty()),
        }
    }

    /// Judges what was fetched for the pending candidate. With a quorum the
    /// search ends and the bundle is returned: it is for the highest
    /// candidate that has one, all higher candidates having been judged
    /// before. Without a quorum the search moves to the next candidate. A
    /// search that is over stays as it is.
    pub fn try_candidate(
        &self,
        search: &mut QuorumSearch,
        votes: &Vec<Option<SignedCheckpoint>>,
    ) -> (res: Option<MultisigSignedCheckpoint>)
        requires
            self.wf(),
            old(search).wf(self@.validators, self@.threshold),
        ensures
            final(search).wf(self@.validators, self@.threshold),
            final(search)@.candidates == old(search)@.candidates,
            (old(search)@.found || old(search)@.position >= old(search)@.candidates.len())
                ==> res is None && final(search)@ == old(search)@,
            (!old(search)@.found && old(search)@.position < old(search)@.candidates.len()) ==> {
                let index = old(search)@.candidates[old(search)@.position as int];
                &&& res is Some <==> has_quorum(self@.validators, votes@, self@.threshold, index)
                &&& res matches Some(m) ==> m.checkpoint.index == index && (exists|k: int|
                    first_quorum_vote(self@.validators, votes@, self@.threshold, index, k)
                        && m.checkpoint == vote_at(votes@, k)->0.checkpoint) && m.signatures@
                    == supporting_signatures(
                    self@.validators,
                    votes@,
                    m.checkpoint,
                    self@.validators.len(),
                ) && (forall|p: int|
                    0 <= p < old(search)@.position ==> #[trigger] old(search)@.candidates[p]
                        > m.checkpoint.index)
                &&& res is Some ==> final(search)@.found && final(search)@.position == old(search)@.position && final(search)@.seen == old(search)@.seen
                &&& res is None ==> !final(search)@.found && final(search)@.position == old(search)@.position + 1 && final(search)@.seen == old(search)@.seen.push(votes@)
            },
    {
        if search.found || search.position >= search.candidates.len() {
            return None;
        }
        let index = search.candidates[search.position];
        match self.quorum_at(index, votes) {
            Some(m) => {
                search.found = true;
                Some(m)
            },
            None => {
                search.position = search.position + 1;
                search.seen = Ghost(search.seen@.push(votes@));
                None
            },
        }
    }
}

/// What the backends hold at `index` according to a table of fetched
/// votes: the votes of the first entry for that index, and no votes where
/// the table has no entry for it.
pub open spec fn votes_at(
    fetched: Seq<(u32, Vec<Option<SignedCheckpoint>>)>,
    index: u32,
) -> Seq<Option<SignedCheckpoint>>
    decreases fetched.len(),
{
    if fetched.len() == 0 {
        Seq::empty()
    } else if fetched[0].0 == index {
        fetched[0].1@
    } else {
        votes_at(fetched.drop_first(), index)
    }
}

/// Whether `index` is worth looking at: a backend reported it as its latest
/// and it is not below the minimum.
pub open spec fn is_candidate(latest: Seq<Option<u32>>, minimum_index: u32, index: u32) -> bool {
    index >= minimum_index && reported(latest, index)
}

/// Whether `index` is a candidate at which the fetched votes hold a quorum.
pub open spec fn quorum_index(
    validators: Seq<Address>,
    threshold: nat,
    latest: Seq<Option<u32>>,
    minimum_index: u32,
    fetched: Seq<(u32, Vec<Option<SignedCheckpoint>>)>,
    index: u32,
) -> bool {
    is_candidate(latest, minimum_index, index) && has_quorum(
        validators,
        votes_at(fetched, index),
        threshold,
        index,
    )
}

/// The position of the first entry for `index` in the table.
fn find_votes(fetched: &Vec<(u32, Vec<Option<SignedCheckpoint>>)>, index: u32) -> (pos: Option<
    usize,
>)
    ensures
        pos matches Some(k) ==> k < fetched.len() && fetched@[k as int].1@ == votes_at(
            fetched@,
            index,
        ),
        pos is None ==> votes_at(fetched@, index) == Seq::<Option<SignedCheckpoint>>::empty(),
{
    let mut k: usize = 0;
    assert(fetched@.skip(0) =~= fetched@);
    while k < fetched.len()
        invariant
            k <= fetched.len(),
            votes_at(fetched@, index) == votes_at(fetched@.skip(k as int), index),
        decreases fetched.len() - k,
    {
        let ghost rest = fetched@.skip(k as int);
        assert(rest[0] == fetched@[k as int]);
        assert(rest.drop_first() =~= fetched@.skip(k + 1));
        if fetched[k].0 == index {
            return Some(k);
        }
        k = k + 1;
    }
    assert(fetched@.skip(k as int).len() == 0);
    None
}

impl MultisigCheckpointSyncer {
    /// The newest checkpoint with a quorum, given all that was fetched:
    /// `latest` holds the latest index of each backend, and `fetched` holds,
    /// for the indices that were fetched, what each validator's backend
    /// holds there, in the order of `validators()`. The result is the bundle
    /// at the highest candidate index at which the votes hold a quorum, and
    /// nothing where there is no such index.
    pub fn latest_multisig(
        &self,
        minimum_index: u32,
        latest: &Vec<Option<u32>>,
        fetched: &Vec<(u32, Vec<Option<SignedCheckpoint>>)>,
    ) -> (res: Option<MultisigSignedCheckpoint>)
        requires
            self.wf(),
        ensures
            res is Some <==> exists|x: u32| #[trigger]
                quorum_index(
                    self@.validators,
                    self@.threshold,
                    latest@,
                    minimum_index,
                    fetched@,
                    x,
                ),
            res matches Some(m) ==> {
                &&& quorum_index(
                    self@.validators,
                    self@.threshold,
                    latest@,
                    minimum_index,
                    fetched@,
                    m.checkpoint.index,
                )
                &&& forall|y: u32|
                    y > m.checkpoint.index ==> !#[trigger] quorum_index(
                        self@.validators,
                        self@.threshold,
                        latest@,
                        minimum_index,
                        fetched@,
                        y,
                    )
                &&& exists|k: int|
                    first_quorum_vote(
                        self@.validators,
                        votes_at(fetched@, m.checkpoint.index),
                        self@.threshold,
                        m.checkpoint.index,
                        k,
                    ) && m.checkpoint == vote_at(votes_at(fetched@, m.checkpoint.index), k)->0.checkpoint
                &&& m.signatures@ == supporting_signatures(
                    self@.validators,
                    votes_at(fetched@, m.checkpoint.index),
                    m.checkpoint,
                    self@.validators.len(),
                )
            },
    {
        let no_votes: Vec<Option<SignedCheckpoint>> = Vec::new();
        let mut search = self.begin_search(latest, minimum_index);
        loop
            invariant
                self.wf(),
                search.wf(self@.validators, self@.threshold),
                !search@.found,
                no_votes@ == Seq::<Option<SignedCheckpoint>>::empty(),
                forall|x: u32|
                    #[trigger] search@.candidates.contains(x) <==> is_candidate(
                        latest@,
                        minimum_index,
                        x,
                    ),
                forall|p: int|
                    0 <= p < search@.position ==> #[trigger] search@.seen[p] == votes_at(
                        fetched@,
                        search@.candidates[p],
                    ),
            decreases search@.candidates.len() - search@.position,
        {
            let index = match search.pending() {
                Some(index) => index,
                None => {
                    proof {
                        assert forall|x: u32|
                            !#[trigger] quorum_index(
                                self@.validators,
                                self@.threshold,
                                latest@,
                                minimum_index,
                                fetched@,
                                x,
                            ) by {
                            if is_candidate(latest@, minimum_index, x) {
                                assert(search@.candidates.contains(x));
                                let p = choose|p: int|
                                    0 <= p < search@.candidates.len() && search@.candidates[p]
                                        == x;
                                assert(search@.seen[p] == votes_at(fetched@, x));
                            }
                        }
                    }
                    return None;
                },
            };
            let ghost before = search@;
            let found = match find_votes(fetched, index) {
                Some(k) => self.try_candidate(&mut search, &fetched[k].1),
                None => self.try_candidate(&mut search, &no_votes),
            };
            match found {
                Some(m) => {
                    proof {
                        assert(before.candidates.contains(index));
                        assert forall|y: u32| y > m.checkpoint.index implies !#[trigger] quorum_index(
                            self@.validators,
                            self@.threshold,
                            latest@,
                            minimum_index,
                            fetched@,
                            y,
                        ) by {
                            if is_candidate(latest@, minimum_index, y) {
                                assert(before.candidates.contains(y));
                                let p = choose|p: int|
                                    0 <= p < before.candidates.len() && before.candidates[p] == y;
                                if p >= before.position {
                                    if p > before.position {
                                        assert(before.candidates[before.position as int]
                                            > before.candidates[p]);
                                    }
                                }
                                assert(before.seen[p] == votes_at(fetched@, y));
                            }
                        }
                        assert(quorum_index(
                            self@.validators,
                            self@.threshold,
                            latest@,
                            minimum_index,
                            fetched@,
                            m.checkpoint.index,
                        ));
                    }
                    return Some(m);
                },
                None => {
                    assert(search@.seen[search@.position - 1] == votes_at(fetched@, index));
                },
            }
        }
    }
}

} // verus!
