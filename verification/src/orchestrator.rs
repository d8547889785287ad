//! The two entry points of the pipeline.  Proving parses the header,
//! checks the field characteristic, sizes the generators, loads the
//! assignment, emits every constraint against a prover session and
//! wraps the backend proof in the canonical envelope.  Verifying runs
//! the identical emission against a verifier session — with no witness
//! values — and reports the backend's accept-or-reject as a boolean.
//! Every stage before the backend call is deterministic in the text,
//! and the contracts here say exactly when each succeeds.

use vstd::prelude::*;

use crate::backend::{
    bp_gens_new, ell_bytes, pedersen_default, proof_from_bytes, proof_parse_ok, proof_to_bytes,
    prover_prove, scalar_from_fe, scalar_of, verifier_verify,
};
use crate::codec::{
    bit_len, dec_value, decimal_to_canonical, decimal_to_le32, is_dec, le32, le_value, p2, p256, Fe,
};
use crate::constraints::{
    chars_bytes, emit_constraint_line, fes_bytes, lemma_run_lines_extends_none, line_rec,
    lines_bytes, m_init, m_of, run_lines, step_rec,
};
use crate::envelope::{decode_envelope, encode_envelope, env_proof_bytes, render_envelope, text_envelope};
use crate::errors::Error;
use crate::header::{
    generator_capacity, line_header, parse_header, string_bytes, validate_characteristic,
};
use crate::jsonval::{jmodel, json_get, json_index, json_array_len, json_as_string, json_of, json_parse_str, JVal};
use crate::resolver::{Backend, CsSession, R1csInputs};
use std::collections::HashMap;

verus! {

use vstd::string::StringSliceAdditionalSpecFns;

/// The fixed-width scalar a decimal string denotes: exactly the scalar
/// the backend packs from the 32 little-endian bytes of its value.
/// The caller owes a canonical value, strictly below the group order,
/// so the packing never wraps or masks; `decimal_to_canonical` is the
/// total form of this conversion.
pub fn string_to_scalar(input: String) -> (r: curve25519_dalek_ng::scalar::Scalar)
    requires
        is_dec(string_bytes(input)),
        dec_value(string_bytes(input)) < le_value(ell_bytes()),
    ensures
        r == scalar_of(le32(dec_value(string_bytes(input)))),
{
    match decimal_to_canonical(input.as_str()) {
        Some(fe) => scalar_from_fe(&fe),
        None => {
            proof {
                assert(false);
            }
            vstd::pervasive::unreached()
        },
    }
}

/// A string member holding a canonical decimal value.
pub open spec fn val_ok(j: JVal) -> bool {
    &&& j is Str
    &&& is_dec(chars_bytes(j->Str_0))
    &&& dec_value(chars_bytes(j->Str_0)) < le_value(ell_bytes())
}

/// An array of canonical decimal strings.
pub open spec fn vals_ok(j: JVal) -> bool {
    &&& j is Arr
    &&& forall|i: int| 0 <= i < j->Arr_0.len() ==> val_ok(#[trigger] j->Arr_0[i])
}

/// The field element bytes such an array denotes, in order.
pub open spec fn vals_of(j: JVal) -> Seq<Seq<u8>> {
    j->Arr_0.map_values(|e: JVal| le32(dec_value(chars_bytes(e->Str_0))))
}

/// Whether a JSON value is a well-formed assignment: an object with an
/// `inputs` array, and for the prover a `witnesses` array too.
pub open spec fn assignment_ok(j: JVal, prover: bool) -> bool {
    &&& j is Obj
    &&& j->Obj_0.contains_key("inputs"@)
    &&& vals_ok(j->Obj_0["inputs"@])
    &&& prover ==> j->Obj_0.contains_key("witnesses"@) && vals_ok(j->Obj_0["witnesses"@])
}

/// The public-input values an assignment denotes.
pub open spec fn a_inputs(j: JVal) -> Seq<Seq<u8>> {
    vals_of(j->Obj_0["inputs"@])
}

/// The witness values an assignment denotes.
pub open spec fn a_wits(j: JVal) -> Seq<Seq<u8>> {
    vals_of(j->Obj_0["witnesses"@])
}

/// The assignment one line of text denotes, if any.
pub open spec fn line_assignment(s: Seq<u8>, prover: bool) -> Option<JVal> {
    match json_of(s) {
        Some(j) => if assignment_ok(j, prover) {
            Some(j)
        } else {
            None
        },
        None => None,
    }
}

/// Parse one member array of decimal strings into field elements.
fn load_value_array(v: &serde_json::Value) -> (r: Result<Vec<Fe>, Error>)
    ensures
        r is Ok <==> vals_ok(jmodel(*v)),
        r is Ok ==> fes_bytes(r->Ok_0@) =~= vals_of(jmodel(*v)),
        r is Ok ==> forall|i: int| 0 <= i < r->Ok_0@.len() ==> (#[trigger] r->Ok_0@[i]).wf(),
        r is Err ==> r->Err_0 == Error::MalformedAssignment || r->Err_0 == Error::MalformedNumber,
{
    let ghost j = jmodel(*v);
    let n = match json_array_len(v) {
        Some(n) => n,
        None => {
            return Err(Error::MalformedAssignment);
        },
    };
    let mut out: Vec<Fe> = Vec::new();
    let mut i: usize = 0;
    while i < n
        invariant
            j == jmodel(*v),
            j is Arr,
            n == j->Arr_0.len(),
            i <= n,
            out@.len() == i,
            forall|k: int| 0 <= k < i ==> (#[trigger] out@[k]).wf(),
            forall|k: int|
                0 <= k < i ==> val_ok(#[trigger] j->Arr_0[k]) && out@[k]@ == le32(
                    dec_value(chars_bytes(j->Arr_0[k]->Str_0)),
                ),
        decreases n - i,
    {
        let sv = match json_index(v, i) {
            Some(x) => x,
            None => {
                proof {
                    assert(false);
                }
                return Err(Error::MalformedAssignment);
            },
        };
        let s = match json_as_string(sv) {
            Some(x) => x,
            None => {
                return Err(Error::MalformedAssignment);
            },
        };
        let fe = match decimal_to_canonical(s.as_str()) {
            Some(fe) => fe,
            None => {
                return Err(Error::MalformedNumber);
            },
        };
        out.push(fe);
        i = i + 1;
    }
    proof {
        assert(fes_bytes(out@) =~= vals_of(j));
    }
    Ok(out)
}

/// Load the assignment line: the public inputs always, the witnesses
/// only for the prover — a verifier-visible file carries none.  The
/// loaded elements are exactly the values the text denotes, in order.
pub fn load_inputs(line: &str, is_prover: bool) -> (r: Result<R1csInputs, Error>)
    ensures
        r is Ok <==> line_assignment(line.spec_bytes(), is_prover) is Some,
        r is Ok ==> ({
            let j = line_assignment(line.spec_bytes(), is_prover)->0;
            fes_bytes(r->Ok_0.input@) =~= a_inputs(j) && (is_prover ==> fes_bytes(
                r->Ok_0.witness@,
            ) =~= a_wits(j)) && (!is_prover ==> r->Ok_0.witness@.len() == 0)
        }),
        r is Ok ==> r->Ok_0.wf(),
        r is Ok ==> r->Ok_0.svar@ =~= Map::<usize, crate::resolver::VRef>::empty(),
        r is Ok ==> r->Ok_0.var@ =~= Map::<usize, bulletproofs::r1cs::Variable>::empty(),
        r is Err ==> r->Err_0 == Error::MalformedAssignment || r->Err_0 == Error::MalformedNumber,
{
    let json = match json_parse_str(line) {
        Some(j) => j,
        None => {
            return Err(Error::MalformedAssignment);
        },
    };
    let iv = match json_get(&json, "inputs") {
        Some(x) => x,
        None => {
            return Err(Error::MalformedAssignment);
        },
    };
    let input = match load_value_array(iv) {
        Ok(x) => x,
        Err(e) => {
            return Err(e);
        },
    };
    let witness: Vec<Fe> = if is_prover {
        let wv = match json_get(&json, "witnesses") {
            Some(x) => x,
            None => {
                return Err(Error::MalformedAssignment);
            },
        };
        match load_value_array(wv) {
            Ok(x) => x,
            Err(e) => {
                return Err(e);
            },
        }
    } else {
        Vec::new()
    };
    Ok(R1csInputs { input, witness, var: HashMap::new(), svar: Ghost(Map::empty()) })
}

/// Whether a characteristic string is the backend group order.
pub open spec fn characteristic_ok(fc: Seq<char>) -> bool {
    is_dec(chars_bytes(fc)) && dec_value(chars_bytes(fc)) == le_value(ell_bytes())
}

/// Whether the generator capacity of a header fits the machine.
pub open spec fn capacity_fits(c: u32, w: u32) -> bool {
    p2(bit_len((c + w) as nat)) <= usize::MAX as nat
}

/// Everything a session checks before its first constraint: the
/// header parses, the characteristic is the group order, the sized
/// generator count fits, and the assignment loads for the role.
pub open spec fn begin_ok(hb: Seq<u8>, ab: Seq<u8>, prover: bool) -> bool {
    &&& line_header(hb) is Some
    &&& characteristic_ok(line_header(hb)->0.field_characteristic)
    &&& capacity_fits(line_header(hb)->0.constraint_nb, line_header(hb)->0.witness_nb)
    &&& line_assignment(ab, prover) is Some
}

/// A header that parses but declares a decimal characteristic other
/// than the group order: the one shape that is `InvalidField`.
pub open spec fn characteristic_mismatch(hb: Seq<u8>) -> bool {
    &&& line_header(hb) is Some
    &&& is_dec(chars_bytes(line_header(hb)->0.field_characteristic))
    &&& dec_value(chars_bytes(line_header(hb)->0.field_characteristic)) < p256(32)
    &&& dec_value(chars_bytes(line_header(hb)->0.field_characteristic)) != le_value(ell_bytes())
}

/// A streaming proving session: the caller hands over the header and
/// the assignment once, then each constraint line as it is read, and
/// collects the envelope at the end; nothing buffers the circuit.
pub struct ProveSession<'g> {
    cs: CsSession<'g>,
    r1: R1csInputs,
    bp: bulletproofs::BulletproofGens,
}

impl<'g> ProveSession<'g> {
    /// The session's standing invariant: the resolver is well formed
    /// and paired with this session's backend, which is consistent.
    pub closed spec fn wf(&self) -> bool {
        &&& self.r1.wf()
        &&& self.cs.is_prover()
        &&& self.cs.bok()
        &&& self.r1.paired(self.cs)
    }

    /// The model state reached so far.
    pub closed spec fn model(&self) -> crate::constraints::MState {
        m_of(self.r1, self.cs)
    }

    /// The loaded public-input values.
    pub closed spec fn inputs_b(&self) -> Seq<Seq<u8>> {
        fes_bytes(self.r1.input@)
    }

    /// The loaded witness values.
    pub closed spec fn wit_b(&self) -> Seq<Seq<u8>> {
        fes_bytes(self.r1.witness@)
    }

    /// Parse and validate the header, size the generators, and load
    /// the full assignment: succeeds exactly when all four hold.
    pub fn begin(
        pc: &'g bulletproofs::PedersenGens,
        header_line: &str,
        assignment_line: &str,
    ) -> (r: Result<ProveSession<'g>, Error>)
        ensures
            r is Ok <==> begin_ok(header_line.spec_bytes(), assignment_line.spec_bytes(), true),
            r is Ok ==> (r->Ok_0.wf() && r->Ok_0.model() == m_init() && r->Ok_0.inputs_b()
                =~= a_inputs(line_assignment(assignment_line.spec_bytes(), true)->0)
                && r->Ok_0.wit_b() =~= a_wits(
                line_assignment(assignment_line.spec_bytes(), true)->0,
            )),
            line_header(header_line.spec_bytes()) is None ==> r == Err::<
                ProveSession<'g>,
                Error,
            >(Error::MalformedHeader),
            characteristic_mismatch(header_line.spec_bytes()) ==> r == Err::<
                ProveSession<'g>,
                Error,
            >(Error::InvalidField),
            r is Err ==> r->Err_0 == Error::MalformedHeader || r->Err_0 == Error::MalformedNumber
                || r->Err_0 == Error::InvalidField || r->Err_0 == Error::MalformedAssignment,
    {
        let h = match parse_header(header_line) {
            Ok(h) => h,
            Err(e) => {
                return Err(e);
            },
        };
        match validate_characteristic(&h) {
            Ok(()) => {},
            Err(e) => {
                return Err(e);
            },
        }
        let cap64 = generator_capacity(h.constraint_nb, h.witness_nb);
        if cap64 > (usize::MAX as u64) {
            return Err(Error::MalformedHeader);
        }
        let bp = bp_gens_new(cap64 as usize, 1);
        let r1 = match load_inputs(assignment_line, true) {
            Ok(r1) => r1,
            Err(e) => {
                return Err(e);
            },
        };
        let cs = CsSession::new_prover(pc);
        let s = ProveSession { cs, r1, bp };
        proof {
            assert(s.model().sv =~= m_init().sv);
            assert(s.model().tr =~= m_init().tr);
            assert(s.model() == m_init());
        }
        Ok(s)
    }

    /// Emit one constraint line: the model moves exactly by `step_rec`
    /// on the record the line denotes; the record is gone once emitted.
    pub fn feed(&mut self, line: &str) -> (r: Result<(), Error>)
        requires
            old(self).wf(),
        ensures
            final(self).wf(),
            final(self).inputs_b() == old(self).inputs_b(),
            final(self).wit_b() == old(self).wit_b(),
            r is Ok <==> (line_rec(line.spec_bytes()) is Some && step_rec(
                old(self).model(),
                old(self).inputs_b(),
                old(self).wit_b(),
                true,
                line_rec(line.spec_bytes())->0,
            ) is Some),
            r is Ok ==> Some(final(self).model()) == step_rec(
                old(self).model(),
                old(self).inputs_b(),
                old(self).wit_b(),
                true,
                line_rec(line.spec_bytes())->0,
            ),
            r is Err ==> r->Err_0 == Error::MalformedConstraint || r->Err_0
                == Error::MalformedNumber || r->Err_0 == Error::IndexOutOfRange,
    {
        emit_constraint_line(&mut self.cs, &mut self.r1, line, true)
    }

    /// Ask the backend for the proof and wrap it in the canonical
    /// envelope.  The proof depends on the backend's fresh blinding,
    /// so success is the backend's to give; everything handed to it
    /// and everything returned is fixed by the contracts up to here.
    pub fn finish(self) -> (r: Result<Vec<u8>, Error>)
        requires
            self.wf(),
        ensures
            r is Ok ==> exists|pb: Seq<u8>| r->Ok_0@ =~= render_envelope(pb),
            r is Err ==> r->Err_0 == Error::ProvingFailed,
    {
        let ProveSession { cs, r1: _, bp } = self;
        let CsSession { backend, trace: _ } = cs;
        let proof = match backend {
            Backend::Prover(p) => match prover_prove(p, &bp) {
                Ok(proof) => proof,
                Err(_) => {
                    return Err(Error::ProvingFailed);
                },
            },
            Backend::Verifier(_) => {
                proof {
                    assert(false);
                }
                vstd::pervasive::unreached()
            },
        };
        let bytes = proof_to_bytes(&proof);
        let out = encode_envelope(&bytes);
        proof {
            assert(out@ =~= render_envelope(bytes@));
        }
        Ok(out)
    }
}

/// A streaming verifying session, fed exactly like a proving one but
/// from the public inputs alone; at the end the decoded proof is
/// checked against what was emitted.
pub struct VerifySession {
    cs: CsSession<'static>,
    r1: R1csInputs,
    bp: bulletproofs::BulletproofGens,
}

impl VerifySession {
    /// The session's standing invariant: the resolver is well formed
    /// and paired with this session's backend, which is consistent.
    pub closed spec fn wf(&self) -> bool {
        &&& self.r1.wf()
        &&& !self.cs.is_prover()
        &&& self.cs.bok()
        &&& self.r1.paired(self.cs)
    }

    /// The model state reached so far.
    pub closed spec fn model(&self) -> crate::constraints::MState {
        m_of(self.r1, self.cs)
    }

    /// The loaded public-input values.
    pub closed spec fn inputs_b(&self) -> Seq<Seq<u8>> {
        fes_bytes(self.r1.input@)
    }

    /// The witness values, which a verifier never has.
    pub closed spec fn wit_b(&self) -> Seq<Seq<u8>> {
        fes_bytes(self.r1.witness@)
    }

    /// Parse and validate the header, size the generators, and load
    /// the public inputs: succeeds exactly when all four hold.
    pub fn begin(header_line: &str, assignment_line: &str) -> (r: Result<VerifySession, Error>)
        ensures
            r is Ok <==> begin_ok(header_line.spec_bytes(), assignment_line.spec_bytes(), false),
            r is Ok ==> (r->Ok_0.wf() && r->Ok_0.model() == m_init() && r->Ok_0.inputs_b()
                =~= a_inputs(line_assignment(assignment_line.spec_bytes(), false)->0)
                && r->Ok_0.wit_b() =~= Seq::<Seq<u8>>::empty()),
            line_header(header_line.spec_bytes()) is None ==> r == Err::<VerifySession, Error>(
                Error::MalformedHeader,
            ),
            characteristic_mismatch(header_line.spec_bytes()) ==> r == Err::<VerifySession, Error>(
                Error::InvalidField,
            ),
            r is Err ==> r->Err_0 == Error::MalformedHeader || r->Err_0 == Error::MalformedNumber
                || r->Err_0 == Error::InvalidField || r->Err_0 == Error::MalformedAssignment,
    {
        let h = match parse_header(header_line) {
            Ok(h) => h,
            Err(e) => {
                return Err(e);
            },
        };
        match validate_characteristic(&h) {
            Ok(()) => {},
            Err(e) => {
                return Err(e);
            },
        }
        let cap64 = generator_capacity(h.constraint_nb, h.witness_nb);
        if cap64 > (usize::MAX as u64) {
            return Err(Error::MalformedHeader);
        }
        let bp = bp_gens_new(cap64 as usize, 1);
        let r1 = match load_inputs(assignment_line, false) {
            Ok(r1) => r1,
            Err(e) => {
                return Err(e);
            },
        };
        let cs = CsSession::new_verifier();
        let s = VerifySession { cs, r1, bp };
        proof {
            assert(s.model().sv =~= m_init().sv);
            assert(s.model().tr =~= m_init().tr);
            assert(s.model() == m_init());
            assert(s.wit_b() =~= Seq::<Seq<u8>>::empty());
        }
        Ok(s)
    }

    /// Emit one constraint line: the model moves exactly by `step_rec`
    /// on the record the line denotes; a verifier can always resolve,
    /// so only a malformed line fails.
    pub fn feed(&mut self, line: &str) -> (r: Result<(), Error>)
        requires
            old(self).wf(),
        ensures
            final(self).wf(),
            final(self).inputs_b() == old(self).inputs_b(),
            final(self).wit_b() == old(self).wit_b(),
            r is Ok <==> (line_rec(line.spec_bytes()) is Some && step_rec(
                old(self).model(),
                old(self).inputs_b(),
                old(self).wit_b(),
                false,
                line_rec(line.spec_bytes())->0,
            ) is Some),
            r is Ok ==> Some(final(self).model()) == step_rec(
                old(self).model(),
                old(self).inputs_b(),
                old(self).wit_b(),
                false,
                line_rec(line.spec_bytes())->0,
            ),
            r is Err ==> r->Err_0 == Error::MalformedConstraint || r->Err_0
                == Error::MalformedNumber,
    {
        emit_constraint_line(&mut self.cs, &mut self.r1, line, false)
    }

    /// Decode the envelope and ask the backend whether the proof
    /// checks out: the decode succeeds exactly when the text denotes a
    /// well-formed envelope whose proof bytes parse; the boolean is
    /// the backend's accept-or-reject.
    pub fn finish(self, proof_data: &str) -> (r: Result<bool, Error>)
        requires
            self.wf(),
        ensures
            r is Ok <==> (text_envelope(proof_data.spec_bytes()) is Some && proof_parse_ok(
                env_proof_bytes(text_envelope(proof_data.spec_bytes())->0),
            )),
            r is Err ==> r->Err_0 == Error::CorruptProof,
    {
        let envelope = match decode_envelope(proof_data) {
            Ok(e) => e,
            Err(e) => {
                return Err(e);
            },
        };
        let proof = match proof_from_bytes(envelope.proof.as_slice()) {
            Some(p) => p,
            None => {
                return Err(Error::CorruptProof);
            },
        };
        let VerifySession { cs, r1: _, bp } = self;
        let CsSession { backend, trace: _ } = cs;
        match backend {
            Backend::Verifier(v) => Ok(verifier_verify(v, &proof, &pedersen_default(), &bp)),
            Backend::Prover(_) => {
                proof {
                    assert(false);
                }
                vstd::pervasive::unreached()
            },
        }
    }
}

/// Everything proving checks before the backend draws its blinding:
/// the pre-flight checks pass and every constraint line emits.
pub open spec fn prove_stages_ok(hb: Seq<u8>, ls: Seq<Seq<u8>>, ab: Seq<u8>) -> bool {
    &&& begin_ok(hb, ab, true)
    &&& run_lines(
        m_init(),
        a_inputs(line_assignment(ab, true)->0),
        a_wits(line_assignment(ab, true)->0),
        true,
        ls,
    ) is Some
}

/// Everything verifying decides, all of it deterministic in the text:
/// the pre-flight checks, the emission, and the two proof decodes.
pub open spec fn verify_stages_ok(hb: Seq<u8>, ls: Seq<Seq<u8>>, ab: Seq<u8>, pb: Seq<u8>) -> bool {
    &&& begin_ok(hb, ab, false)
    &&& run_lines(m_init(), a_inputs(line_assignment(ab, false)->0), Seq::empty(), false, ls)
        is Some
    &&& text_envelope(pb) is Some
    &&& proof_parse_ok(env_proof_bytes(text_envelope(pb)->0))
}

/// Produce a proof for the given circuit and assignment: the result is
/// the serialized canonical envelope around the backend proof bytes.
/// Every stage but the backend's own proving is owed: the call reaches
/// the backend, and so returns `Ok` or `ProvingFailed`, exactly when
/// header, characteristic, sizing, assignment and every constraint
/// line are well-formed.
#[allow(non_snake_case)]
pub fn Prove(header_line: &str, constraint_lines: &Vec<String>, assignment_line: &str) -> (r:
    Result<Vec<u8>, Error>)
    ensures
        (r is Ok || r == Err::<Vec<u8>, Error>(Error::ProvingFailed)) <==> prove_stages_ok(
            header_line.spec_bytes(),
            lines_bytes(constraint_lines@),
            assignment_line.spec_bytes(),
        ),
        r is Ok ==> exists|pb: Seq<u8>| r->Ok_0@ =~= render_envelope(pb),
        r is Err ==> r->Err_0 != Error::CorruptProof,
        line_header(header_line.spec_bytes()) is None ==> r == Err::<Vec<u8>, Error>(
            Error::MalformedHeader,
        ),
        characteristic_mismatch(header_line.spec_bytes()) ==> r == Err::<Vec<u8>, Error>(
            Error::InvalidField,
        ),
{
    let ghost hb = header_line.spec_bytes();
    let ghost ab = assignment_line.spec_bytes();
    let ghost lb = lines_bytes(constraint_lines@);
    let pc = pedersen_default();
    let mut session = match ProveSession::begin(&pc, header_line, assignment_line) {
        Ok(s) => s,
        Err(e) => {
            return Err(e);
        },
    };
    let ghost ins = session.inputs_b();
    let ghost wits = session.wit_b();
    let mut i: usize = 0;
    proof {
        assert(lb.take(0) =~= Seq::<Seq<u8>>::empty());
    }
    while i < constraint_lines.len()
        invariant
            session.wf(),
            i <= constraint_lines@.len(),
            lb == lines_bytes(constraint_lines@),
            hb == header_line.spec_bytes(),
            ab == assignment_line.spec_bytes(),
            ins == session.inputs_b(),
            wits == session.wit_b(),
            ins =~= a_inputs(line_assignment(ab, true)->0),
            wits =~= a_wits(line_assignment(ab, true)->0),
            begin_ok(hb, ab, true),
            run_lines(m_init(), ins, wits, true, lb.take(i as int)) == Some(session.model()),
        decreases constraint_lines@.len() - i,
    {
        proof {
            assert(lb[i as int] == chars_bytes(constraint_lines@[i as int]@));
            assert(lb.take(i + 1).drop_last() =~= lb.take(i as int));
            assert(lb.take(i + 1).last() == lb[i as int]);
        }
        match session.feed(constraint_lines[i].as_str()) {
            Ok(()) => {},
            Err(e) => {
                proof {
                    lemma_run_lines_extends_none(m_init(), ins, wits, true, lb, i as int);
                }
                return Err(e);
            },
        }
        i = i + 1;
    }
    proof {
        assert(lb.take(lb.len() as int) =~= lb);
    }
    session.finish()
}

/// Check a proof against the circuit and the public inputs: `Ok(true)`
/// exactly when the backend accepts; a rejected proof is a normal
/// `Ok(false)` outcome, never an error.  Success of the call itself is
/// owed: everything a verifier decides is deterministic in the text.
#[allow(non_snake_case)]
pub fn Verify(
    header_line: &str,
    constraint_lines: &Vec<String>,
    assignment_line: &str,
    proof_data: &str,
) -> (r: Result<bool, Error>)
    ensures
        r is Ok <==> verify_stages_ok(
            header_line.spec_bytes(),
            lines_bytes(constraint_lines@),
            assignment_line.spec_bytes(),
            proof_data.spec_bytes(),
        ),
        r is Err ==> r->Err_0 != Error::ProvingFailed && r->Err_0 != Error::IndexOutOfRange,
        line_header(header_line.spec_bytes()) is None ==> r == Err::<bool, Error>(
            Error::MalformedHeader,
        ),
        characteristic_mismatch(header_line.spec_bytes()) ==> r == Err::<bool, Error>(
            Error::InvalidField,
        ),
        begin_ok(header_line.spec_bytes(), assignment_line.spec_bytes(), false) && run_lines(
            m_init(),
            a_inputs(line_assignment(assignment_line.spec_bytes(), false)->0),
            Seq::empty(),
            false,
            lines_bytes(constraint_lines@),
        ) is Some && !(text_envelope(proof_data.spec_bytes()) is Some && proof_parse_ok(
            env_proof_bytes(text_envelope(proof_data.spec_bytes())->0),
        )) ==> r == Err::<bool, Error>(Error::CorruptProof),
{
    let ghost hb = header_line.spec_bytes();
    let ghost ab = assignment_line.spec_bytes();
    let ghost lb = lines_bytes(constraint_lines@);
    let mut session = match VerifySession::begin(header_line, assignment_line) {
        Ok(s) => s,
        Err(e) => {
            return Err(e);
        },
    };
    let ghost ins = session.inputs_b();
    let mut i: usize = 0;
    proof {
        assert(lb.take(0) =~= Seq::<Seq<u8>>::empty());
    }
    while i < constraint_lines.len()
        invariant
            session.wf(),
            i <= constraint_lines@.len(),
            lb == lines_bytes(constraint_lines@),
            hb == header_line.spec_bytes(),
            ab == assignment_line.spec_bytes(),
            ins == session.inputs_b(),
            session.wit_b() =~= Seq::<Seq<u8>>::empty(),
            ins =~= a_inputs(line_assignment(ab, false)->0),
            begin_ok(hb, ab, false),
            run_lines(m_init(), ins, Seq::empty(), false, lb.take(i as int)) == Some(
                session.model(),
            ),
        decreases constraint_lines@.len() - i,
    {
        proof {
            assert(lb[i as int] == chars_bytes(constraint_lines@[i as int]@));
            assert(lb.take(i + 1).drop_last() =~= lb.take(i as int));
            assert(lb.take(i + 1).last() == lb[i as int]);
        }
        match session.feed(constraint_lines[i].as_str()) {
            Ok(()) => {},
            Err(e) => {
                proof {
                    lemma_run_lines_extends_none(
                        m_init(),
                        ins,
                        Seq::empty(),
                        false,
                        lb,
                        i as int,
                    );
                }
                return Err(e);
            },
        }
        i = i + 1;
    }
    proof {
        assert(lb.take(lb.len() as int) =~= lb);
    }
    session.finish(proof_data)
}

} // verus!
