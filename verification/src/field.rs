use vstd::prelude::*;
use vstd::arithmetic::div_mod::lemma_fundamental_div_mod_converse;
use halo2_proofs::pasta::Fp;

verus! {

/// The modulus of the field: the Pallas base field prime.
pub open spec fn p_int() -> int {
    0x40000000000000000000000000000000224698fc094cf91b992d30ed00000001int
}

/// A field element, stored as the four little-endian 64-bit limbs of its
/// canonical (fully reduced) representative. All arithmetic is delegated to
/// the external field implementation; this type only fixes the canonical
/// encoding so that equality of elements is equality of limbs.
#[derive(Clone, Copy, PartialEq, Eq, Structural, Hash, Debug)]
pub struct Felt {
    l0: u64,
    l1: u64,
    l2: u64,
    l3: u64,
}

impl Felt {
    /// The integer a value stands for, read from its limbs in base 2^64.
    pub closed spec fn val(self) -> int {
        self.l0 + self.l1 * 0x10000000000000000int
            + self.l2 * 0x100000000000000000000000000000000int
            + self.l3 * 0x1000000000000000000000000000000000000000000000000int
    }

    /// The limbs are the canonical representative: below the modulus.
    pub closed spec fn wf(self) -> bool {
        self.val() < p_int()
    }

    /// The element with value `n`.
    pub fn from_u64(n: u64) -> (r: Felt)
        ensures
            r.wf(),
            r.val() == n,
    {
        Felt { l0: n, l1: 0, l2: 0, l3: 0 }
    }

    /// The additive identity.
    pub fn zero() -> (r: Felt)
        ensures
            r.wf(),
            r.val() == 0,
    {
        Felt::from_u64(0)
    }

    /// The multiplicative identity.
    pub fn one() -> (r: Felt)
        ensures
            r.wf(),
            r.val() == 1,
    {
        Felt::from_u64(1)
    }

    /// Whether a value is the additive identity, decided on the limbs.
    pub fn is_zero(&self) -> (r: bool)
        ensures
            r == (self.val() == 0),
    {
        proof {
            lemma_val_nonneg(*self);
        }
        self.l0 == 0 && self.l1 == 0 && self.l2 == 0 && self.l3 == 0
    }
}

/// A value read from limbs is never negative.
pub proof fn lemma_val_nonneg(a: Felt)
    ensures
        0 <= a.val(),
{
    assert(a.l1 * 0x10000000000000000int >= 0);
    assert(a.l2 * 0x100000000000000000000000000000000int >= 0);
    assert(a.l3 * 0x1000000000000000000000000000000000000000000000000int >= 0);
}

/// Two well-formed elements are the same value exactly when they are the
/// same limbs: the canonical representative is unique.
pub proof fn lemma_felt_eq_by_val(a: Felt, b: Felt)
    requires
        a.wf(),
        b.wf(),
    ensures
        (a == b) <==> (a.val() == b.val()),
{
    if a.val() == b.val() {
        lemma_limbs_unique(a, b);
    }
}

proof fn lemma_limbs_unique(a: Felt, b: Felt)
    requires
        a.val() == b.val(),
    ensures
        a == b,
{
    let qa: int = a.l1 + a.l2 * 0x10000000000000000int
        + a.l3 * 0x100000000000000000000000000000000int;
    let qb: int = b.l1 + b.l2 * 0x10000000000000000int
        + b.l3 * 0x100000000000000000000000000000000int;
    assert(a.val() == qa * 0x10000000000000000int + a.l0);
    assert(b.val() == qb * 0x10000000000000000int + b.l0);
    lemma_fundamental_div_mod_converse(a.val(), 0x10000000000000000int, qa, a.l0 as int);
    lemma_fundamental_div_mod_converse(b.val(), 0x10000000000000000int, qb, b.l0 as int);
    let ra: int = a.l2 + a.l3 * 0x10000000000000000int;
    let rb: int = b.l2 + b.l3 * 0x10000000000000000int;
    assert(qa == ra * 0x10000000000000000int + a.l1);
    assert(qb == rb * 0x10000000000000000int + b.l1);
    lemma_fundamental_div_mod_converse(qa, 0x10000000000000000int, ra, a.l1 as int);
    lemma_fundamental_div_mod_converse(qb, 0x10000000000000000int, rb, b.l1 as int);
    lemma_fundamental_div_mod_converse(ra, 0x10000000000000000int, a.l3 as int, a.l2 as int);
    lemma_fundamental_div_mod_converse(rb, 0x10000000000000000int, b.l3 as int, b.l2 as int);
}

/// Relies on pasta_curves' `Fp`: `from_raw` maps little-endian limbs to the
/// congruent field element, `+` is addition modulo the field prime, and the
/// `[u8; 32]` conversion returns the canonical little-endian representative.
#[verifier::external_body]
pub(crate) fn felt_add(a: &Felt, b: &Felt) -> (r: Felt)
    ensures
        r.wf(),
        r.val() == (a.val() + b.val()) % p_int(),
{
    let s: [u8; 32] =
        <[u8; 32]>::from(&(Fp::from_raw([a.l0, a.l1, a.l2, a.l3]) + Fp::from_raw([b.l0, b.l1, b.l2, b.l3])));
    Felt {
        l0: u64::from_le_bytes(s[0..8].try_into().unwrap()),
        l1: u64::from_le_bytes(s[8..16].try_into().unwrap()),
        l2: u64::from_le_bytes(s[16..24].try_into().unwrap()),
        l3: u64::from_le_bytes(s[24..32].try_into().unwrap()),
    }
}

/// Relies on pasta_curves' `Fp`: `*` is multiplication modulo the field
/// prime, with `from_raw` and the `[u8; 32]` conversion as in `felt_add`.
#[verifier::external_body]
pub(crate) fn felt_mul(a: &Felt, b: &Felt) -> (r: Felt)
    ensures
        r.wf(),
        r.val() == (a.val() * b.val()) % p_int(),
{
    let s: [u8; 32] =
        <[u8; 32]>::from(&(Fp::from_raw([a.l0, a.l1, a.l2, a.l3]) * Fp::from_raw([b.l0, b.l1, b.l2, b.l3])));
    Felt {
        l0: u64::from_le_bytes(s[0..8].try_into().unwrap()),
        l1: u64::from_le_bytes(s[8..16].try_into().unwrap()),
        l2: u64::from_le_bytes(s[16..24].try_into().unwrap()),
        l3: u64::from_le_bytes(s[24..32].try_into().unwrap()),
    }
}

/// Relies on pasta_curves' `Fp`: unary `-` is negation modulo the field
/// prime, with `from_raw` and the `[u8; 32]` conversion as in `felt_add`.
#[verifier::external_body]
pub(crate) fn felt_neg(a: &Felt) -> (r: Felt)
    ensures
        r.wf(),
        r.val() == (p_int() - a.val() % p_int()) % p_int(),
{
    let s: [u8; 32] = <[u8; 32]>::from(&(-Fp::from_raw([a.l0, a.l1, a.l2, a.l3])));
    Felt {
        l0: u64::from_le_bytes(s[0..8].try_into().unwrap()),
        l1: u64::from_le_bytes(s[8..16].try_into().unwrap()),
        l2: u64::from_le_bytes(s[16..24].try_into().unwrap()),
        l3: u64::from_le_bytes(s[24..32].try_into().unwrap()),
    }
}

} // verus!
