//! The variable index space and the constraint-system session.
//!
//! A variable index means: 0 the constant one; `1..=n_inputs` a public
//! input; anything else a private variable, allocated in the backend on
//! first use and cached so that every later reference resolves to the
//! same backend variable.  The session records, as a ghost trace, every
//! backend operation it performs, so the contracts can say exactly what
//! is emitted for which input.

use vstd::prelude::*;

use crate::backend::{
    lc_add, lc_bound, lc_empty, lc_term, prover_allocate, prover_constrain, prover_multiply,
    prover_new, prover_ok, prover_slots, scalar_from_fe, scalar_mul, transcript_new, var_bound,
    var_copy, var_sub_lc, verifier_allocate, verifier_constrain, verifier_multiply, verifier_new,
    verifier_ok, verifier_slots, ProverCs, VerifierCs,
};
use crate::backend::variable_one;
use crate::codec::{one32, zero32, Fe};
use crate::errors::Error;
use std::collections::HashMap;

verus! {

broadcast use vstd::std_specs::hash::group_hash_axioms;

/// A symbolic name for a backend variable: the constant one, the result
/// of the `k`-th low-level allocation, or the output of the `k`-th
/// multiplication.
pub enum VRef {
    One,
    Alloc(nat),
    MulOut(nat),
}

/// One term of an emitted linear combination: a variable and the two
/// byte-level factors whose field product is its coefficient.
pub struct TermV {
    pub v: VRef,
    pub c1: Seq<u8>,
    pub c2: Seq<u8>,
}

/// One backend operation, as the session's ghost trace records it.
pub enum Event {
    /// A low-level variable allocated with the given 32-byte value
    /// (the verifier's sessions always pass zero).
    Alloc { value: Seq<u8> },
    /// A multiplication over two linear combinations.
    Mul { a: Seq<TermV>, b: Seq<TermV> },
    /// The constraint `out_k - c == 0` for the output of the `k`-th
    /// multiplication gate.
    ConstrainEq { k: nat, c: Seq<TermV> },
}

/// How many allocations a trace holds.
pub open spec fn count_allocs(tr: Seq<Event>) -> nat
    decreases tr.len(),
{
    if tr.len() == 0 {
        0
    } else {
        count_allocs(tr.drop_last()) + (if tr.last() is Alloc {
            1nat
        } else {
            0nat
        })
    }
}

/// How many multiplications a trace holds.
pub open spec fn count_muls(tr: Seq<Event>) -> nat
    decreases tr.len(),
{
    if tr.len() == 0 {
        0
    } else {
        count_muls(tr.drop_last()) + (if tr.last() is Mul {
            1nat
        } else {
            0nat
        })
    }
}

pub broadcast proof fn lemma_counts_push(tr: Seq<Event>, e: Event)
    ensures
        #[trigger] count_allocs(tr.push(e)) == count_allocs(tr) + (if e is Alloc {
            1nat
        } else {
            0nat
        }),
        #[trigger] count_muls(tr.push(e)) == count_muls(tr) + (if e is Mul {
            1nat
        } else {
            0nat
        }),
{
    assert(tr.push(e).drop_last() =~= tr);
    assert(tr.push(e).last() == e);
}

/// The backend session of one role.
pub enum Backend<'g> {
    Prover(ProverCs<'g>),
    Verifier(VerifierCs),
}

/// One proving or verifying session: the backend object together with
/// the ghost trace of every operation already issued to it.
pub struct CsSession<'g> {
    pub backend: Backend<'g>,
    pub trace: Ghost<Seq<Event>>,
}

/// A linear combination under construction: the backend value paired
/// with the ghost description of its terms.
pub struct LcB {
    pub lc: bulletproofs::r1cs::LinearCombination,
    pub terms: Ghost<Seq<TermV>>,
}

impl LcB {
    /// The empty combination, the additive identity.
    pub fn empty() -> (r: LcB)
        ensures
            r.terms@ =~= Seq::<TermV>::empty(),
            lc_bound(r.lc) == 0,
    {
        LcB { lc: lc_empty(), terms: Ghost(Seq::empty()) }
    }

    /// Append the term `(c1 * c2) * var`.
    pub fn add_term(
        self,
        c1: &Fe,
        c2: &Fe,
        var: bulletproofs::r1cs::Variable,
        vr: Ghost<VRef>,
    ) -> (r: LcB)
        requires
            c1.wf(),
            c2.wf(),
        ensures
            r.terms@ =~= self.terms@.push(TermV { v: vr@, c1: c1@, c2: c2@ }),
            lc_bound(r.lc) == (if lc_bound(self.lc) >= var_bound(var) {
                lc_bound(self.lc)
            } else {
                var_bound(var)
            }),
    {
        let s = scalar_mul(&scalar_from_fe(c1), &scalar_from_fe(c2));
        let ghost t = self.terms@.push(TermV { v: vr@, c1: c1@, c2: c2@ });
        LcB { lc: lc_add(self.lc, lc_term(s, var)), terms: Ghost(t) }
    }
}

impl<'g> CsSession<'g> {
    /// Which role this session serves.
    pub open spec fn is_prover(&self) -> bool {
        self.backend is Prover
    }

    /// How many low-level variable slots the backend session holds.
    pub open spec fn slots(&self) -> nat {
        match self.backend {
            Backend::Prover(p) => prover_slots(p),
            Backend::Verifier(v) => verifier_slots(v),
        }
    }

    /// Whether the backend session is internally consistent: it has
    /// stored nothing that references a slot it did not create.
    pub open spec fn bok(&self) -> bool {
        match self.backend {
            Backend::Prover(p) => prover_ok(p),
            Backend::Verifier(v) => verifier_ok(v),
        }
    }

    /// A fresh proving session over the given commitment generators.
    pub fn new_prover(pc: &'g bulletproofs::PedersenGens) -> (s: CsSession<'g>)
        ensures
            s.trace@ =~= Seq::<Event>::empty(),
            s.is_prover(),
            s.bok(),
            s.slots() == 0,
    {
        CsSession {
            backend: Backend::Prover(prover_new(pc, transcript_new())),
            trace: Ghost(Seq::empty()),
        }
    }

    /// A fresh verifying session.
    pub fn new_verifier() -> (s: CsSession<'g>)
        ensures
            s.trace@ =~= Seq::<Event>::empty(),
            !s.is_prover(),
            s.bok(),
            s.slots() == 0,
    {
        CsSession { backend: Backend::Verifier(verifier_new(transcript_new())), trace: Ghost(Seq::empty()) }
    }

    /// Allocate one low-level variable carrying `value`.
    pub fn allocate(&mut self, value: &Fe) -> (r: bulletproofs::r1cs::Variable)
        requires
            value.wf(),
            old(self).bok(),
        ensures
            final(self).trace@ =~= old(self).trace@.push(Event::Alloc { value: value@ }),
            final(self).is_prover() == old(self).is_prover(),
            final(self).bok(),
            final(self).slots() >= old(self).slots(),
            var_bound(r) <= final(self).slots(),
    {
        let s = scalar_from_fe(value);
        let v = match &mut self.backend {
            Backend::Prover(p) => {
                match prover_allocate(p, s) {
                    Ok(v) => v,
                    Err(_) => {
                        proof {
                            assert(false);
                        }
                        vstd::pervasive::unreached()
                    },
                }
            },
            Backend::Verifier(vr) => {
                match verifier_allocate(vr, s) {
                    Ok(v) => v,
                    Err(_) => {
                        proof {
                            assert(false);
                        }
                        vstd::pervasive::unreached()
                    },
                }
            },
        };
        proof {
            self.trace@ = self.trace@.push(Event::Alloc { value: value@ });
        }
        v
    }

    /// Register the multiplication `a * b`; the result is the
    /// output variable together with the multiplication's number.
    pub fn multiply(&mut self, a: LcB, b: LcB) -> (r: (bulletproofs::r1cs::Variable, Ghost<nat>))
        requires
            old(self).bok(),
            lc_bound(a.lc) <= old(self).slots(),
            lc_bound(b.lc) <= old(self).slots(),
        ensures
            final(self).trace@ =~= old(self).trace@.push(
                Event::Mul { a: a.terms@, b: b.terms@ },
            ),
            final(self).is_prover() == old(self).is_prover(),
            r.1@ == count_muls(old(self).trace@),
            final(self).bok(),
            final(self).slots() >= old(self).slots(),
            var_bound(r.0) <= final(self).slots(),
    {
        let ghost k = count_muls(self.trace@);
        let v = match &mut self.backend {
            Backend::Prover(p) => prover_multiply(p, a.lc, b.lc),
            Backend::Verifier(vr) => verifier_multiply(vr, a.lc, b.lc),
        };
        proof {
            self.trace@ = self.trace@.push(Event::Mul { a: a.terms@, b: b.terms@ });
        }
        (v, Ghost(k))
    }

    /// Constrain the output of multiplication `k` to equal the combination `c`.
    pub fn constrain_eq(
        &mut self,
        out: bulletproofs::r1cs::Variable,
        k: Ghost<nat>,
        c: LcB,
    )
        requires
            old(self).bok(),
            var_bound(out) <= old(self).slots(),
            lc_bound(c.lc) <= old(self).slots(),
        ensures
            final(self).trace@ =~= old(self).trace@.push(Event::ConstrainEq { k: k@, c: c.terms@ }),
            final(self).is_prover() == old(self).is_prover(),
            final(self).bok(),
            final(self).slots() >= old(self).slots(),
    {
        let lc = var_sub_lc(out, c.lc);
        match &mut self.backend {
            Backend::Prover(p) => prover_constrain(p, lc),
            Backend::Verifier(vr) => verifier_constrain(vr, lc),
        }
        proof {
            self.trace@ = self.trace@.push(Event::ConstrainEq { k: k@, c: c.terms@ });
        }
    }
}

/// A resolved single-variable term: the backend variable, its symbolic
/// name, and the base factor its coefficient carries (the public-input
/// value for a public index, 1 otherwise).
pub struct ResolvedTerm {
    pub var: bulletproofs::r1cs::Variable,
    pub vref: Ghost<VRef>,
    pub base: Fe,
}

/// The loaded assignment and the index-to-variable cache of one session.
pub struct R1csInputs {
    pub input: Vec<Fe>,
    pub witness: Vec<Fe>,
    pub var: HashMap<usize, bulletproofs::r1cs::Variable>,
    pub svar: Ghost<Map<usize, VRef>>,
}

/// Whether resolving `idx` can succeed: always, except for a prover
/// asked for an uncached private index beyond the loaded witnesses.
pub open spec fn resolve_ok(
    sv: Map<usize, VRef>,
    ninput: nat,
    nwit: nat,
    idx: usize,
    prover: bool,
) -> bool {
    idx == 0 || idx <= ninput || sv.contains_key(idx) || !prover || idx - 1 - ninput < nwit
}

impl R1csInputs {
    /// Every cached backend variable was produced by the given
    /// session: its bound lies within the slots that session holds.
    /// Feeding a resolver to a session it is not paired with is ruled
    /// out by every emission contract.
    pub open spec fn paired(&self, cs: CsSession) -> bool {
        forall|k: usize| #[trigger]
            self.var@.contains_key(k) ==> var_bound(self.var@[k]) <= cs.slots()
    }

    /// Every held field element has the backend width, and the symbolic
    /// cache names exactly the indices the backend cache holds.
    pub open spec fn wf(&self) -> bool {
        &&& forall|i: int| 0 <= i < self.input@.len() ==> (#[trigger] self.input@[i]).wf()
        &&& forall|i: int| 0 <= i < self.witness@.len() ==> (#[trigger] self.witness@[i]).wf()
        &&& forall|k: usize|
            self.var@.contains_key(k) <==> #[trigger] self.svar@.contains_key(k)
    }

    /// An empty resolver with no loaded values.
    pub fn new() -> (r: R1csInputs)
        ensures
            r.wf(),
            r.input@.len() == 0,
            r.witness@.len() == 0,
            r.svar@ =~= Map::<usize, VRef>::empty(),
            r.var@ =~= Map::<usize, bulletproofs::r1cs::Variable>::empty(),
    {
        R1csInputs {
            input: Vec::new(),
            witness: Vec::new(),
            var: HashMap::new(),
            svar: Ghost(Map::empty()),
        }
    }

    /// The value a variable index denotes for the prover: 1 for index
    /// 0, then the public inputs, then the witnesses.
    pub fn as_scalar(&self, idx: usize) -> (r: Fe)
        requires
            self.wf(),
            idx <= self.input@.len() + self.witness@.len(),
        ensures
            r.wf(),
            idx == 0 ==> r@ =~= one32(),
            1 <= idx <= self.input@.len() ==> r@ =~= self.input@[idx - 1]@,
            idx > self.input@.len() ==> r@ =~= self.witness@[idx - 1 - self.input@.len()]@,
    {
        if idx == 0 {
            Fe::one()
        } else if idx <= self.input.len() {
            self.input[idx - 1].duplicate()
        } else {
            self.witness[idx - 1 - self.input.len()].duplicate()
        }
    }

    /// Record that `idx` now stands for the backend variable `v`.
    pub fn set_var(
        &mut self,
        idx: usize,
        v: bulletproofs::r1cs::Variable,
        vr: Ghost<VRef>,
    )
        requires
            old(self).wf(),
        ensures
            final(self).wf(),
            final(self).svar@ =~= old(self).svar@.insert(idx, vr@),
            final(self).var@ =~= old(self).var@.insert(idx, v),
            final(self).input == old(self).input,
            final(self).witness == old(self).witness,
    {
        self.var.insert(idx, v);
        proof {
            self.svar@ = self.svar@.insert(idx, vr@);
        }
    }

    /// Allocate a fresh backend variable for `idx` carrying `c`, cache
    /// it, and hand it back.
    pub fn allocate(&mut self, cs: &mut CsSession, idx: usize, c: &Fe) -> (r: (
        bulletproofs::r1cs::Variable,
        Ghost<VRef>,
    ))
        requires
            old(self).wf(),
            c.wf(),
            old(cs).bok(),
            old(self).paired(*old(cs)),
        ensures
            final(self).wf(),
            final(cs).is_prover() == old(cs).is_prover(),
            final(cs).trace@ =~= old(cs).trace@.push(Event::Alloc { value: c@ }),
            r.1@ == VRef::Alloc(count_allocs(old(cs).trace@)),
            final(self).svar@ =~= old(self).svar@.insert(idx, r.1@),
            final(self).var@ =~= old(self).var@.insert(idx, r.0),
            final(self).input == old(self).input,
            final(self).witness == old(self).witness,
            final(cs).bok(),
            final(cs).slots() >= old(cs).slots(),
            final(self).paired(*final(cs)),
            var_bound(r.0) <= final(cs).slots(),
    {
        let ghost k = count_allocs(cs.trace@);
        let v = cs.allocate(c);
        self.set_var(idx, v, Ghost(VRef::Alloc(k)));
        (v, Ghost(VRef::Alloc(k)))
    }

    /// The cached backend variable for `idx`, or a fresh one on first
    /// use: the prover allocates it with its witness value, the
    /// verifier with zero.  Re-resolution never allocates again.
    pub fn get_or_allocate(&mut self, cs: &mut CsSession, idx: usize, is_prover: bool) -> (r:
        Result<(bulletproofs::r1cs::Variable, Ghost<VRef>), Error>)
        requires
            old(self).wf(),
            is_prover == old(cs).is_prover(),
            idx == 0 || idx > old(self).input@.len(),
            old(cs).bok(),
            old(self).paired(*old(cs)),
        ensures
            final(self).wf(),
            final(cs).is_prover() == old(cs).is_prover(),
            final(self).input == old(self).input,
            final(self).witness == old(self).witness,
            final(cs).bok(),
            final(cs).slots() >= old(cs).slots(),
            final(self).paired(*final(cs)),
            r is Ok ==> var_bound(r->Ok_0.0) <= final(cs).slots(),
            r is Ok <==> resolve_ok(
                old(self).svar@,
                old(self).input@.len() as nat,
                old(self).witness@.len() as nat,
                idx,
                is_prover,
            ),
            r is Err ==> *final(self) == *old(self) && *final(cs) == *old(cs) && r->Err_0
                == Error::IndexOutOfRange,
            idx == 0 ==> r is Ok && *final(self) == *old(self) && *final(cs) == *old(cs)
                && r->Ok_0.1@ == VRef::One,
            idx != 0 && old(self).svar@.contains_key(idx) ==> r is Ok && *final(self) == *old(self)
                && *final(cs) == *old(cs) && r->Ok_0.1@ == old(self).svar@[idx] && r->Ok_0.0
                == old(self).var@[idx],
            idx != 0 && !old(self).svar@.contains_key(idx) && r is Ok ==> final(self).svar@
                =~= old(self).svar@.insert(idx, VRef::Alloc(count_allocs(old(cs).trace@)))
                && final(self).var@ =~= old(self).var@.insert(idx, r->Ok_0.0) && r->Ok_0.1@
                == VRef::Alloc(count_allocs(old(cs).trace@)) && final(cs).trace@ =~= old(cs).trace@.push(
                Event::Alloc {
                    value: if is_prover {
                        old(self).witness@[idx - 1 - old(self).input@.len()]@
                    } else {
                        zero32()
                    },
                },
            ),
    {
        if idx == 0 {
            return Ok((variable_one(), Ghost(VRef::One)));
        }
        let cached = match self.var.get(&idx) {
            Some(v) => Some(var_copy(v)),
            None => None,
        };
        match cached {
            Some(v) => {
                let ghost vr = self.svar@[idx];
                Ok((v, Ghost(vr)))
            },
            None => {
                if is_prover {
                    let widx = idx - 1 - self.input.len();
                    if widx >= self.witness.len() {
                        return Err(Error::IndexOutOfRange);
                    }
                    let c = self.witness[widx].duplicate();
                    Ok(self.allocate(cs, idx, &c))
                } else {
                    let c = Fe::zero();
                    Ok(self.allocate(cs, idx, &c))
                }
            },
        }
    }

    /// Resolve `idx` as a one-variable linear term: the constant one
    /// for 0, the constant one weighted by the input value for a
    /// public index, and the cached or freshly allocated private
    /// variable otherwise.
    pub fn as_linear_term(&mut self, cs: &mut CsSession, idx: usize, is_prover: bool) -> (r:
        Result<ResolvedTerm, Error>)
        requires
            old(self).wf(),
            is_prover == old(cs).is_prover(),
            old(cs).bok(),
            old(self).paired(*old(cs)),
        ensures
            final(self).wf(),
            final(cs).is_prover() == old(cs).is_prover(),
            final(self).input == old(self).input,
            final(self).witness == old(self).witness,
            final(cs).bok(),
            final(cs).slots() >= old(cs).slots(),
            final(self).paired(*final(cs)),
            r is Ok ==> var_bound(r->Ok_0.var) <= final(cs).slots(),
            r is Ok ==> r->Ok_0.base.wf(),
            r is Ok <==> (idx <= old(self).input@.len() || resolve_ok(
                old(self).svar@,
                old(self).input@.len() as nat,
                old(self).witness@.len() as nat,
                idx,
                is_prover,
            )),
            r is Err ==> *final(self) == *old(self) && *final(cs) == *old(cs) && r->Err_0
                == Error::IndexOutOfRange,
            idx == 0 ==> r is Ok && *final(self) == *old(self) && *final(cs) == *old(cs)
                && r->Ok_0.vref@ == VRef::One && r->Ok_0.base@ =~= one32(),
            1 <= idx <= old(self).input@.len() ==> r is Ok && *final(self) == *old(self)
                && *final(cs) == *old(cs) && r->Ok_0.vref@ == VRef::One && r->Ok_0.base@ =~= old(self).input@[idx - 1]@,
            idx > old(self).input@.len() && r is Ok ==> r->Ok_0.base@ =~= one32(),
            idx != 0 && idx > old(self).input@.len() && old(self).svar@.contains_key(idx) ==> r
                is Ok && *final(self) == *old(self) && *final(cs) == *old(cs) && r->Ok_0.vref@ == old(self).svar@[idx] && r->Ok_0.var == old(self).var@[idx],
            idx > old(self).input@.len() && !old(self).svar@.contains_key(idx) && r is Ok ==> final(self).svar@ =~= old(self).svar@.insert(idx, VRef::Alloc(count_allocs(old(cs).trace@)))
                && final(self).var@ =~= old(self).var@.insert(idx, r->Ok_0.var) && r->Ok_0.vref@
                == VRef::Alloc(count_allocs(old(cs).trace@)) && final(cs).trace@ =~= old(cs).trace@.push(
                Event::Alloc {
                    value: if is_prover {
                        old(self).witness@[idx - 1 - old(self).input@.len()]@
                    } else {
                        zero32()
                    },
                },
            ),
    {
        if idx == 0 {
            return Ok(
                ResolvedTerm { var: variable_one(), vref: Ghost(VRef::One), base: Fe::one() },
            );
        }
        if idx <= self.input.len() {
            return Ok(
                ResolvedTerm {
                    var: variable_one(),
                    vref: Ghost(VRef::One),
                    base: self.input[idx - 1].duplicate(),
                },
            );
        }
        match self.get_or_allocate(cs, idx, is_prover) {
            Ok((v, vr)) => Ok(ResolvedTerm { var: v, vref: vr, base: Fe::one() }),
            Err(e) => Err(e),
        }
    }
}

} // verus!
