//! Fixed-width byte words: 32-byte hashes and 20-byte account addresses.

use vstd::prelude::*;
use vstd::std_specs::cmp::PartialEqSpecImpl;

verus! {

/// A 32-byte word: a hash, a Merkle root, or a left-padded address.
#[derive(Clone, Copy, Debug)]
pub struct H256 {
    pub bytes: [u8; 32],
}

impl View for H256 {
    type V = Seq<u8>;

    open spec fn view(&self) -> Seq<u8> {
        self.bytes@
    }
}

/// Thirty-two zero bytes.
pub open spec fn zero_word() -> Seq<u8> {
    Seq::new(32, |i: int| 0u8)
}

impl H256 {
    /// The all-zero word.
    pub fn zero() -> (h: H256)
        ensures
            h@ == zero_word(),
    {
        let h = H256 { bytes: [0u8; 32] };
        assert(h@ =~= zero_word());
        h
    }

    /// Whether two words hold the same bytes.
    pub fn same(&self, other: &H256) -> (b: bool)
        ensures
            b == (self@ == other@),
            b == (*self == *other),
    {
        let mut i: usize = 0;
        while i < 32
            invariant
                i <= 32,
                forall|j: int| 0 <= j < i ==> self.bytes@[j] == other.bytes@[j],
            decreases 32 - i,
        {
            if self.bytes[i] != other.bytes[i] {
                return false;
            }
            i = i + 1;
        }
        assert(self.bytes@ =~= other.bytes@);
        assert(self.bytes =~= other.bytes);
        true
    }
}

impl PartialEq for H256 {
    fn eq(&self, other: &H256) -> (b: bool) {
        self.same(other)
    }
}

impl PartialEqSpecImpl for H256 {
    open spec fn obeys_eq_spec() -> bool {
        true
    }

    open spec fn eq_spec(&self, other: &H256) -> bool {
        self@ == other@
    }
}

impl Eq for H256 {}

/// A 20-byte account address.
#[derive(Clone, Copy, Debug)]
pub struct Address {
    pub bytes: [u8; 20],
}

impl View for Address {
    type V = Seq<u8>;

    open spec fn view(&self) -> Seq<u8> {
        self.bytes@
    }
}

/// Whether `a` comes before `b` in the order of byte strings: at the first
/// position where they differ, `a` holds the smaller byte.
pub open spec fn lex_less(a: Seq<u8>, b: Seq<u8>) -> bool {
    exists|i: int| differ_first_at(a, b, i) && a[i] < b[i]
}

/// Whether `i` is the first position at which `a` and `b` differ.
pub open spec fn differ_first_at(a: Seq<u8>, b: Seq<u8>, i: int) -> bool {
    &&& 0 <= i < a.len()
    &&& i < b.len()
    &&& a[i] != b[i]
    &&& forall|j: int| 0 <= j < i ==> a[j] == b[j]
}

/// Two byte strings differ first at one position only.
pub proof fn lemma_differ_first_unique(a: Seq<u8>, b: Seq<u8>, i: int, j: int)
    requires
        differ_first_at(a, b, i),
        differ_first_at(a, b, j),
    ensures
        i == j,
{
}

/// No byte string comes before itself.
pub proof fn lemma_lex_irreflexive(a: Seq<u8>)
    ensures
        !lex_less(a, a),
{
}

/// Of two byte strings, at most one comes before the other.
pub proof fn lemma_lex_asymmetric(a: Seq<u8>, b: Seq<u8>)
    requires
        lex_less(a, b),
    ensures
        !lex_less(b, a),
{
    let i = choose|i: int| differ_first_at(a, b, i) && a[i] < b[i];
    if lex_less(b, a) {
        let j = choose|j: int| differ_first_at(b, a, j) && b[j] < a[j];
        assert(differ_first_at(a, b, j));
        lemma_differ_first_unique(a, b, i, j);
    }
}

/// The order of byte strings is transitive.
pub proof fn lemma_lex_transitive(a: Seq<u8>, b: Seq<u8>, c: Seq<u8>)
    requires
        lex_less(a, b),
        lex_less(b, c),
    ensures
        lex_less(a, c),
{
    let i = choose|i: int| differ_first_at(a, b, i) && a[i] < b[i];
    let j = choose|j: int| differ_first_at(b, c, j) && b[j] < c[j];
    let m = if i <= j {
        i
    } else {
        j
    };
    assert(differ_first_at(a, c, m) && a[m] < c[m]);
}

/// Of two different byte strings of one length, one comes before the other.
pub proof fn lemma_lex_total(a: Seq<u8>, b: Seq<u8>)
    requires
        a.len() == b.len(),
        a != b,
    ensures
        lex_less(a, b) || lex_less(b, a),
{
    let i = first_difference(a, b, a.len() as int);
    lemma_first_difference(a, b, a.len() as int);
    if i == a.len() {
        assert(a =~= b);
    }
    assert(differ_first_at(a, b, i));
    assert(differ_first_at(b, a, i));
}

/// The first position below `n` at which `a` and `b` differ, or `n` if they
/// agree on all of them.
pub open spec fn first_difference(a: Seq<u8>, b: Seq<u8>, n: int) -> int
    decreases n,
{
    if n <= 0 {
        0
    } else {
        let before = first_difference(a, b, n - 1);
        if before < n - 1 {
            before
        } else if a[n - 1] != b[n - 1] {
            n - 1
        } else {
            n
        }
    }
}

/// What `first_difference` finds: the strings agree before it, and differ at
/// it unless it is `n`.
pub proof fn lemma_first_difference(a: Seq<u8>, b: Seq<u8>, n: int)
    requires
        0 <= n <= a.len(),
        n <= b.len(),
    ensures
        0 <= first_difference(a, b, n) <= n,
        forall|j: int| 0 <= j < first_difference(a, b, n) ==> a[j] == b[j],
        first_difference(a, b, n) < n ==> a[first_difference(a, b, n)] != b[first_difference(
            a,
            b,
            n,
        )],
    decreases n,
{
    if n > 0 {
        lemma_first_difference(a, b, n - 1);
    }
}

impl Address {
    /// Whether two addresses hold the same bytes.
    pub fn same(&self, other: &Address) -> (b: bool)
        ensures
            b == (self@ == other@),
            b == (*self == *other),
    {
        let mut i: usize = 0;
        while i < 20
            invariant
                i <= 20,
                forall|j: int| 0 <= j < i ==> self.bytes@[j] == other.bytes@[j],
            decreases 20 - i,
        {
            if self.bytes[i] != other.bytes[i] {
                return false;
            }
            i = i + 1;
        }
        assert(self.bytes@ =~= other.bytes@);
        assert(self.bytes =~= other.bytes);
        true
    }

    /// Whether this address comes before `other` in the order of byte
    /// strings.
    pub fn precedes(&self, other: &Address) -> (b: bool)
        ensures
            b == lex_less(self@, other@),
    {
        let mut i: usize = 0;
        while i < 20
            invariant
                i <= 20,
                forall|j: int| 0 <= j < i ==> self.bytes@[j] == other.bytes@[j],
            decreases 20 - i,
        {
            if self.bytes[i] != other.bytes[i] {
                let less = self.bytes[i] < other.bytes[i];
                proof {
                    assert(differ_first_at(self@, other@, i as int));
                    if !less {
                        assert(differ_first_at(other@, self@, i as int));
                        assert(lex_less(other@, self@));
                        lemma_lex_asymmetric(other@, self@);
                    }
                }
                return less;
            }
            i = i + 1;
        }
        proof {
            assert(self@ =~= other@);
            lemma_lex_irreflexive(self@);
        }
        false
    }
}

impl PartialEq for Address {
    fn eq(&self, other: &Address) -> (b: bool) {
        self.same(other)
    }
}

impl PartialEqSpecImpl for Address {
    open spec fn obeys_eq_spec() -> bool {
        true
    }

    open spec fn eq_spec(&self, other: &Address) -> bool {
        self@ == other@
    }
}

impl Eq for Address {}

/// An address as a 32-byte word: twelve zero bytes, then the address.
pub open spec fn padded_address(address: Seq<u8>) -> Seq<u8> {
    Seq::new(12, |i: int| 0u8) + address
}

impl H256 {
    /// The word that stands for an address in messages and locators.
    pub fn from_address(address: &Address) -> (h: H256)
        ensures
            h@ == padded_address(address@),
    {
        let mut bytes: [u8; 32] = [0u8; 32];
        let mut i: usize = 0;
        while i < 20
            invariant
                i <= 20,
                forall|j: int| 0 <= j < 12 ==> bytes@[j] == 0u8,
                forall|j: int| 0 <= j < i ==> bytes@[12 + j] == address.bytes@[j],
            decreases 20 - i,
        {
            bytes[12 + i] = address.bytes[i];
            i = i + 1;
        }
        let h = H256 { bytes };
        assert(h@ =~= padded_address(address@));
        h
    }
}

} // verus!
