//! The constraint-system and commitment backend: bulletproofs over the
//! Ristretto group, with merlin transcripts.  Everything here is either
//! a declaration of an outside type or a thin trusted wrapper around a
//! single outside call; the logic that drives these calls lives in the
//! verified modules.

use vstd::prelude::*;

use crate::codec::Fe;
use bulletproofs::r1cs::ConstraintSystem;

verus! {

use vstd::seq::Seq;

#[verifier::external_type_specification]
#[verifier::external_body]
pub struct ExScalar(curve25519_dalek_ng::scalar::Scalar);

#[verifier::external_type_specification]
#[verifier::external_body]
pub struct ExVariable(bulletproofs::r1cs::Variable);

#[verifier::external_type_specification]
#[verifier::external_body]
pub struct ExLinearCombination(bulletproofs::r1cs::LinearCombination);

#[verifier::external_type_specification]
#[verifier::external_body]
pub struct ExPedersenGens(bulletproofs::PedersenGens);

#[verifier::external_type_specification]
#[verifier::external_body]
pub struct ExBulletproofGens(bulletproofs::BulletproofGens);

#[verifier::external_type_specification]
#[verifier::external_body]
pub struct ExTranscript(merlin::Transcript);

#[verifier::external_type_specification]
#[verifier::external_body]
pub struct ExR1CSProof(bulletproofs::r1cs::R1CSProof);

#[verifier::external_type_specification]
#[verifier::external_body]
pub struct ExR1CSError(bulletproofs::r1cs::R1CSError);

/// A proving session of the backend, opaque to verification.  Verus
/// cannot take `Prover`'s own generic bound, so the session is held in
/// a hidden field instead of being declared directly.
#[verifier::external_body]
pub struct ProverCs<'g> {
    inner: bulletproofs::r1cs::Prover<'g, merlin::Transcript>,
}

/// A verifying session of the backend, opaque to verification, held the
/// same way as `ProverCs`.
#[verifier::external_body]
pub struct VerifierCs {
    inner: bulletproofs::r1cs::Verifier<merlin::Transcript>,
}

/// How many low-level (multiplier) variable slots this variable may
/// reference: 0 for the constant one, one past the slot index for a
/// multiplier variable, and unbounded for a committed variable, which
/// these sessions never create.  A variable is safe to hand to a
/// session exactly when its bound lies within the slots that session
/// has created.
pub uninterp spec fn var_bound(v: bulletproofs::r1cs::Variable) -> nat;

/// The largest `var_bound` among a combination's terms; 0 when empty.
pub uninterp spec fn lc_bound(lc: bulletproofs::r1cs::LinearCombination) -> nat;

/// How many low-level variable slots a proving session has created.
pub uninterp spec fn prover_slots(p: ProverCs) -> nat;

/// Whether a proving session is internally consistent: everything it
/// has stored references only multiplier slots it has created and no
/// external commitment (none is ever registered), so no later call can
/// index out of range.
pub uninterp spec fn prover_ok(p: ProverCs) -> bool;

/// How many low-level variable slots a verifying session has created.
pub uninterp spec fn verifier_slots(v: VerifierCs) -> nat;

/// Whether a verifying session is internally consistent, as for
/// `prover_ok`.
pub uninterp spec fn verifier_ok(v: VerifierCs) -> bool;

/// The little-endian bytes of the Ristretto group order, the prime
/// `2^252 + 27742317777372353535851937790883648493`.
pub open spec fn ell_bytes() -> Seq<u8> {
    seq![
        0xedu8, 0xd3u8, 0xf5u8, 0x5cu8, 0x1au8, 0x63u8, 0x12u8, 0x58u8,
        0xd6u8, 0x9cu8, 0xf7u8, 0xa2u8, 0xdeu8, 0xf9u8, 0xdeu8, 0x14u8,
        0x00u8, 0x00u8, 0x00u8, 0x00u8, 0x00u8, 0x00u8, 0x00u8, 0x00u8,
        0x00u8, 0x00u8, 0x00u8, 0x00u8, 0x00u8, 0x00u8, 0x00u8, 0x10u8,
    ]
}

/// Relies on `curve25519_dalek_ng::constants::BASEPOINT_ORDER`: its byte
/// literal in the crate's source is exactly `ell_bytes()`.
#[verifier::external_body]
pub fn basepoint_order_bytes() -> (r: Vec<u8>)
    ensures
        r@ =~= ell_bytes(),
{
    curve25519_dalek_ng::constants::BASEPOINT_ORDER.to_bytes().to_vec()
}

/// What `Scalar::from_bits` makes of 32 little-endian bytes: a
/// function of the bytes alone.
pub uninterp spec fn scalar_of(b: Seq<u8>) -> curve25519_dalek_ng::scalar::Scalar;

/// Relies on `Scalar::from_bits`: packs 32 little-endian bytes into a
/// scalar, masking the top bit; same bytes, same scalar.
#[verifier::external_body]
pub fn scalar_from_fe(fe: &Fe) -> (r: curve25519_dalek_ng::scalar::Scalar)
    requires
        fe.wf(),
    ensures
        r == scalar_of(fe@),
{
    let mut b: [u8; 32] = [0u8; 32];
    b.copy_from_slice(fe.bytes.as_slice());
    curve25519_dalek_ng::scalar::Scalar::from_bits(b)
}

/// Relies on `Mul for Scalar`: field multiplication.
#[verifier::external_body]
pub fn scalar_mul(
    a: &curve25519_dalek_ng::scalar::Scalar,
    b: &curve25519_dalek_ng::scalar::Scalar,
) -> curve25519_dalek_ng::scalar::Scalar {
    (*a) * (*b)
}

/// Relies on `Variable::One`: the constant-one variable, which no
/// session indexes.
#[verifier::external_body]
pub fn variable_one() -> (r: bulletproofs::r1cs::Variable)
    ensures
        var_bound(r) == 0,
{
    bulletproofs::r1cs::Variable::One()
}

/// Relies on `LinearCombination::default`: the empty combination.
#[verifier::external_body]
pub fn lc_empty() -> (r: bulletproofs::r1cs::LinearCombination)
    ensures
        lc_bound(r) == 0,
{
    bulletproofs::r1cs::LinearCombination::default()
}

/// Relies on `Mul<Variable> for Scalar`: the one-term combination
/// `s * v`.
#[verifier::external_body]
pub fn lc_term(
    s: curve25519_dalek_ng::scalar::Scalar,
    v: bulletproofs::r1cs::Variable,
) -> (r: bulletproofs::r1cs::LinearCombination)
    ensures
        lc_bound(r) == var_bound(v),
{
    s * v
}

/// Relies on `Add for LinearCombination`: concatenation of terms.
#[verifier::external_body]
pub fn lc_add(
    a: bulletproofs::r1cs::LinearCombination,
    b: bulletproofs::r1cs::LinearCombination,
) -> (r: bulletproofs::r1cs::LinearCombination)
    ensures
        lc_bound(r) == (if lc_bound(a) >= lc_bound(b) {
            lc_bound(a)
        } else {
            lc_bound(b)
        }),
{
    a + b
}

/// Relies on `Sub<LinearCombination> for Variable`: the combination
/// `v - lc`.
#[verifier::external_body]
pub fn var_sub_lc(
    v: bulletproofs::r1cs::Variable,
    lc: bulletproofs::r1cs::LinearCombination,
) -> (r: bulletproofs::r1cs::LinearCombination)
    ensures
        lc_bound(r) == (if var_bound(v) >= lc_bound(lc) {
            var_bound(v)
        } else {
            lc_bound(lc)
        }),
{
    v - lc
}

/// Relies on `Copy for Variable`.
#[verifier::external_body]
pub fn var_copy(v: &bulletproofs::r1cs::Variable) -> (r: bulletproofs::r1cs::Variable)
    ensures
        r == *v,
{
    *v
}

/// Relies on `PedersenGens::default`: the standard commitment generators.
#[verifier::external_body]
pub fn pedersen_default() -> bulletproofs::PedersenGens {
    bulletproofs::PedersenGens::default()
}

/// Relies on `BulletproofGens::new`: generators for up to `cap`
/// multipliers and `parties` parties.
#[verifier::external_body]
pub fn bp_gens_new(cap: usize, parties: usize) -> bulletproofs::BulletproofGens {
    bulletproofs::BulletproofGens::new(cap, parties)
}

/// Relies on `Transcript::new`, keyed by the fixed domain label the
/// proof envelope's scheme implies.
#[verifier::external_body]
pub fn transcript_new() -> merlin::Transcript {
    merlin::Transcript::new(b"r1cs")
}

/// Relies on `Prover::new`: a fresh, consistent session with no slots.
#[verifier::external_body]
pub fn prover_new<'g>(pc: &'g bulletproofs::PedersenGens, t: merlin::Transcript) -> (r: ProverCs<
    'g,
>)
    ensures
        prover_ok(r),
        prover_slots(r) == 0,
{
    ProverCs { inner: bulletproofs::r1cs::Prover::new(pc, t) }
}

/// Relies on `Verifier::new`: a fresh, consistent session with no
/// slots.
#[verifier::external_body]
pub fn verifier_new(t: merlin::Transcript) -> (r: VerifierCs)
    ensures
        verifier_ok(r),
        verifier_slots(r) == 0,
{
    VerifierCs { inner: bulletproofs::r1cs::Verifier::new(t) }
}

/// Relies on `Prover::allocate`: with an assignment present it always
/// returns a fresh low-level variable.
#[verifier::external_body]
pub fn prover_allocate<'g>(
    p: &mut ProverCs<'g>,
    s: curve25519_dalek_ng::scalar::Scalar,
) -> (r: Result<bulletproofs::r1cs::Variable, bulletproofs::r1cs::R1CSError>)
    requires
        prover_ok(*old(p)),
    ensures
        r is Ok,
        prover_ok(*final(p)),
        prover_slots(*final(p)) >= prover_slots(*old(p)),
        var_bound(r->Ok_0) <= prover_slots(*final(p)),
{
    p.inner.allocate(Some(s))
}

/// Relies on `Verifier::allocate`: it ignores the assignment and always
/// returns a fresh low-level variable.
#[verifier::external_body]
pub fn verifier_allocate(
    v: &mut VerifierCs,
    s: curve25519_dalek_ng::scalar::Scalar,
) -> (r: Result<bulletproofs::r1cs::Variable, bulletproofs::r1cs::R1CSError>)
    requires
        verifier_ok(*old(v)),
    ensures
        r is Ok,
        verifier_ok(*final(v)),
        verifier_slots(*final(v)) >= verifier_slots(*old(v)),
        var_bound(r->Ok_0) <= verifier_slots(*final(v)),
{
    v.inner.allocate(Some(s))
}

/// Relies on `Prover::multiply`: registers a multiplication and
/// returns its output variable.  It evaluates both combinations, so
/// every variable in them must name a slot this session has created.
#[verifier::external_body]
pub fn prover_multiply<'g>(
    p: &mut ProverCs<'g>,
    a: bulletproofs::r1cs::LinearCombination,
    b: bulletproofs::r1cs::LinearCombination,
) -> (r: bulletproofs::r1cs::Variable)
    requires
        prover_ok(*old(p)),
        lc_bound(a) <= prover_slots(*old(p)),
        lc_bound(b) <= prover_slots(*old(p)),
    ensures
        prover_ok(*final(p)),
        prover_slots(*final(p)) >= prover_slots(*old(p)),
        var_bound(r) <= prover_slots(*final(p)),
{
    let (_, _, o) = p.inner.multiply(a, b);
    o
}

/// Relies on `Verifier::multiply`: registers a multiplication and
/// returns its output variable.  The combinations are stored and
/// flattened at verification, so every variable in them must name a
/// slot this session has created.
#[verifier::external_body]
pub fn verifier_multiply(
    v: &mut VerifierCs,
    a: bulletproofs::r1cs::LinearCombination,
    b: bulletproofs::r1cs::LinearCombination,
) -> (r: bulletproofs::r1cs::Variable)
    requires
        verifier_ok(*old(v)),
        lc_bound(a) <= verifier_slots(*old(v)),
        lc_bound(b) <= verifier_slots(*old(v)),
    ensures
        verifier_ok(*final(v)),
        verifier_slots(*final(v)) >= verifier_slots(*old(v)),
        var_bound(r) <= verifier_slots(*final(v)),
{
    let (_, _, o) = v.inner.multiply(a, b);
    o
}

/// Relies on `Prover::constrain`: asserts that the combination is
/// zero.  The combination is stored and flattened when the proof is
/// produced, so it must reference only this session's slots.
#[verifier::external_body]
pub fn prover_constrain<'g>(p: &mut ProverCs<'g>, lc: bulletproofs::r1cs::LinearCombination)
    requires
        prover_ok(*old(p)),
        lc_bound(lc) <= prover_slots(*old(p)),
    ensures
        prover_ok(*final(p)),
        prover_slots(*final(p)) == prover_slots(*old(p)),
{
    p.inner.constrain(lc)
}

/// Relies on `Verifier::constrain`: asserts that the combination is
/// zero; stored and flattened at verification, so it must reference
/// only this session's slots.
#[verifier::external_body]
pub fn verifier_constrain(v: &mut VerifierCs, lc: bulletproofs::r1cs::LinearCombination)
    requires
        verifier_ok(*old(v)),
        lc_bound(lc) <= verifier_slots(*old(v)),
    ensures
        verifier_ok(*final(v)),
        verifier_slots(*final(v)) == verifier_slots(*old(v)),
{
    v.inner.constrain(lc)
}

/// Relies on `Prover::prove`: flattens the stored constraints, which
/// a consistent session keeps within its own slots.
#[verifier::external_body]
pub fn prover_prove<'g>(
    p: ProverCs<'g>,
    bp: &bulletproofs::BulletproofGens,
) -> Result<bulletproofs::r1cs::R1CSProof, bulletproofs::r1cs::R1CSError>
    requires
        prover_ok(p),
{
    p.inner.prove(bp)
}

/// Relies on `Verifier::verify`: true exactly when the backend accepts
/// the proof.  It flattens the stored constraints, which a consistent
/// session keeps within its own slots.
#[verifier::external_body]
pub fn verifier_verify(
    v: VerifierCs,
    proof: &bulletproofs::r1cs::R1CSProof,
    pc: &bulletproofs::PedersenGens,
    bp: &bulletproofs::BulletproofGens,
) -> bool
    requires
        verifier_ok(v),
{
    v.inner.verify(proof, pc, bp).is_ok()
}

/// Relies on `R1CSProof::to_bytes`.
#[verifier::external_body]
pub fn proof_to_bytes(p: &bulletproofs::r1cs::R1CSProof) -> Vec<u8> {
    p.to_bytes()
}

/// Whether `R1CSProof::from_bytes` accepts a byte string: a function
/// of the bytes alone.
pub uninterp spec fn proof_parse_ok(b: Seq<u8>) -> bool;

/// Relies on `R1CSProof::from_bytes`: `None` exactly when the bytes
/// are not a well-formed serialized proof, deterministically in them.
#[verifier::external_body]
pub fn proof_from_bytes(b: &[u8]) -> (r: Option<bulletproofs::r1cs::R1CSProof>)
    ensures
        r is Some <==> proof_parse_ok(b@),
{
    bulletproofs::r1cs::R1CSProof::from_bytes(b).ok()
}

} // verus!
