//! Constraint records and their emission.
//!
//! Each circuit line is a triple (A, B, C) of linear-combination
//! descriptions, `[index, coefficient]` pairs.  Emission resolves every
//! index, registers one multiplication per record and either binds
//! C's single fresh variable to the multiplication output (the defining
//! shape) or constrains the output to equal C.  The spec functions
//! `step_term`, `step_lc` and `step_rec` mirror this exactly over the
//! records the text denotes (`line_rec`), and the emission functions
//! are proved to follow them event for event.

use vstd::prelude::*;

use crate::backend::ell_bytes;
use crate::codec::{dec_value, decimal_to_canonical, is_dec, le32, le_value, Fe};
use crate::errors::Error;
use crate::jsonval::{
    json_array_len, json_as_string, json_as_u64, json_get, json_index, json_of, json_parse_str,
    jmodel, JVal,
};
use crate::backend::{lc_bound, var_bound};
use crate::resolver::{count_allocs, count_muls, CsSession, Event, LcB, R1csInputs, TermV, VRef};

verus! {

use vstd::string::StringSliceAdditionalSpecFns;

broadcast use crate::resolver::lemma_counts_push;

/// The byte views of a run of field elements.
pub open spec fn fes_bytes(s: Seq<Fe>) -> Seq<Seq<u8>> {
    s.map_values(|f: Fe| f@)
}

/// The UTF-8 bytes of a string value.
pub open spec fn chars_bytes(s: Seq<char>) -> Seq<u8> {
    vstd::utf8::encode_utf8(s)
}

/// One `[index, coefficient]` pair of a linear combination, with the
/// coefficient already decoded and a note of whether its source text
/// was literally `"1"`.
pub struct CEntry {
    pub idx: usize,
    pub coef: Fe,
    pub lit_one: bool,
}

/// One parsed constraint record.
pub struct ConstraintRec {
    pub a: Vec<CEntry>,
    pub b: Vec<CEntry>,
    pub c: Vec<CEntry>,
}

/// The mathematical shape of one entry.
pub struct EntryV {
    pub idx: usize,
    pub coef: Seq<u8>,
    pub lit_one: bool,
}

/// The mathematical shape of one record.
pub struct RecV {
    pub a: Seq<EntryV>,
    pub b: Seq<EntryV>,
    pub c: Seq<EntryV>,
}

pub open spec fn entry_view(e: CEntry) -> EntryV {
    EntryV { idx: e.idx, coef: e.coef@, lit_one: e.lit_one }
}

pub open spec fn entries_view(s: Seq<CEntry>) -> Seq<EntryV> {
    s.map_values(|e: CEntry| entry_view(e))
}

pub open spec fn rec_view(r: ConstraintRec) -> RecV {
    RecV { a: entries_view(r.a@), b: entries_view(r.b@), c: entries_view(r.c@) }
}

pub open spec fn entries_wf(es: Seq<CEntry>) -> bool {
    forall|i: int| 0 <= i < es.len() ==> (#[trigger] es[i]).coef.wf()
}

impl ConstraintRec {
    pub open spec fn wf(&self) -> bool {
        entries_wf(self.a@) && entries_wf(self.b@) && entries_wf(self.c@)
    }
}

/// Whether a JSON value is one well-formed entry: a two-or-more
/// element array of a machine-sized index and a canonical decimal
/// coefficient string.
pub open spec fn entry_ok(j: JVal) -> bool {
    &&& j is Arr
    &&& j->Arr_0.len() >= 2
    &&& j->Arr_0[0] is UInt
    &&& j->Arr_0[0]->UInt_0 <= usize::MAX as u64
    &&& j->Arr_0[1] is Str
    &&& is_dec(chars_bytes(j->Arr_0[1]->Str_0))
    &&& dec_value(chars_bytes(j->Arr_0[1]->Str_0)) < le_value(ell_bytes())
}

/// The entry a well-formed JSON entry denotes.
pub open spec fn entry_of(j: JVal) -> EntryV {
    EntryV {
        idx: j->Arr_0[0]->UInt_0 as usize,
        coef: le32(dec_value(chars_bytes(j->Arr_0[1]->Str_0))),
        lit_one: chars_bytes(j->Arr_0[1]->Str_0) == seq![49u8],
    }
}

/// Whether a JSON value is a well-formed entry array.
pub open spec fn entries_ok(j: JVal) -> bool {
    &&& j is Arr
    &&& forall|i: int| 0 <= i < j->Arr_0.len() ==> entry_ok(#[trigger] j->Arr_0[i])
}

/// The entries a well-formed JSON array denotes.
pub open spec fn entries_of(j: JVal) -> Seq<EntryV> {
    j->Arr_0.map_values(|e: JVal| entry_of(e))
}

/// Whether a JSON value is a well-formed record: an object whose `A`,
/// `B` and `C` members are entry arrays.
pub open spec fn rec_ok(j: JVal) -> bool {
    &&& j is Obj
    &&& j->Obj_0.contains_key(seq!['A'])
    &&& j->Obj_0.contains_key(seq!['B'])
    &&& j->Obj_0.contains_key(seq!['C'])
    &&& entries_ok(j->Obj_0[seq!['A']])
    &&& entries_ok(j->Obj_0[seq!['B']])
    &&& entries_ok(j->Obj_0[seq!['C']])
}

/// The record a well-formed JSON object denotes.
pub open spec fn rec_of(j: JVal) -> RecV {
    RecV {
        a: entries_of(j->Obj_0[seq!['A']]),
        b: entries_of(j->Obj_0[seq!['B']]),
        c: entries_of(j->Obj_0[seq!['C']]),
    }
}

/// The record one line of text denotes, if any.
pub open spec fn line_rec(s: Seq<u8>) -> Option<RecV> {
    match json_of(s) {
        Some(j) => if rec_ok(j) {
            Some(rec_of(j))
        } else {
            None
        },
        None => None,
    }
}

/// The model state a session and its resolver share: the symbolic
/// index cache, the allocation and multiplication counters, and the
/// event trace.
pub struct MState {
    pub sv: Map<usize, VRef>,
    pub allocs: nat,
    pub muls: nat,
    pub tr: Seq<Event>,
}

/// The state every fresh session starts from.
pub open spec fn m_init() -> MState {
    MState { sv: Map::empty(), allocs: 0, muls: 0, tr: Seq::empty() }
}

/// The model state of a live resolver/session pair.
pub open spec fn m_of(r1: R1csInputs, cs: CsSession) -> MState {
    MState {
        sv: r1.svar@,
        allocs: count_allocs(cs.trace@),
        muls: count_muls(cs.trace@),
        tr: cs.trace@,
    }
}

/// Resolving one entry: which term it contributes and how the state
/// moves.  `None` exactly when a prover meets an uncached private index
/// with no loaded witness behind it.
pub open spec fn step_term(
    st: MState,
    inputs: Seq<Seq<u8>>,
    wit: Seq<Seq<u8>>,
    prover: bool,
    e: EntryV,
) -> Option<(MState, TermV)> {
    if e.idx == 0 {
        Some((st, TermV { v: VRef::One, c1: e.coef, c2: crate::codec::one32() }))
    } else if e.idx <= inputs.len() {
        Some((st, TermV { v: VRef::One, c1: e.coef, c2: inputs[e.idx - 1] }))
    } else if st.sv.contains_key(e.idx) {
        Some((st, TermV { v: st.sv[e.idx], c1: e.coef, c2: crate::codec::one32() }))
    } else if prover && e.idx - 1 - inputs.len() >= wit.len() {
        None
    } else {
        let value = if prover {
            wit[e.idx - 1 - inputs.len()]
        } else {
            crate::codec::zero32()
        };
        Some(
            (
                MState {
                    sv: st.sv.insert(e.idx, VRef::Alloc(st.allocs)),
                    allocs: st.allocs + 1,
                    muls: st.muls,
                    tr: st.tr.push(Event::Alloc { value }),
                },
                TermV { v: VRef::Alloc(st.allocs), c1: e.coef, c2: crate::codec::one32() },
            ),
        )
    }
}

/// Resolving a whole linear combination, left to right.
pub open spec fn step_lc(
    st: MState,
    inputs: Seq<Seq<u8>>,
    wit: Seq<Seq<u8>>,
    prover: bool,
    es: Seq<EntryV>,
) -> Option<(MState, Seq<TermV>)>
    decreases es.len(),
{
    if es.len() == 0 {
        Some((st, Seq::empty()))
    } else {
        match step_lc(st, inputs, wit, prover, es.drop_last()) {
            None => None,
            Some((st1, ts)) => match step_term(st1, inputs, wit, prover, es.last()) {
                None => None,
                Some((st2, t)) => Some((st2, ts.push(t))),
            },
        }
    }
}

/// Whether C, with the state as it stands after A and B, has the
/// defining shape: exactly one term, of a non-zero index written with
/// coefficient literally one, not yet resolved.
pub open spec fn defining_shape(st: MState, c: Seq<EntryV>) -> bool {
    c.len() == 1 && c[0].idx != 0 && c[0].lit_one && !st.sv.contains_key(c[0].idx)
}

/// Emitting one whole record.
pub open spec fn step_rec(
    st: MState,
    inputs: Seq<Seq<u8>>,
    wit: Seq<Seq<u8>>,
    prover: bool,
    rec: RecV,
) -> Option<MState> {
    match step_lc(st, inputs, wit, prover, rec.a) {
        None => None,
        Some((st1, ta)) => match step_lc(st1, inputs, wit, prover, rec.b) {
            None => None,
            Some((st2, tb)) => if defining_shape(st2, rec.c) {
                Some(
                    MState {
                        sv: st2.sv.insert(rec.c[0].idx, VRef::MulOut(st2.muls)),
                        allocs: st2.allocs,
                        muls: st2.muls + 1,
                        tr: st2.tr.push(Event::Mul { a: ta, b: tb }),
                    },
                )
            } else {
                match step_lc(st2, inputs, wit, prover, rec.c) {
                    None => None,
                    Some((st3, tc)) => Some(
                        MState {
                            sv: st3.sv,
                            allocs: st3.allocs,
                            muls: st3.muls + 1,
                            tr: st3.tr.push(Event::Mul { a: ta, b: tb }).push(
                                Event::ConstrainEq { k: st3.muls, c: tc },
                            ),
                        },
                    ),
                }
            },
        },
    }
}

/// Emitting a run of records in order.
pub open spec fn run_recs(
    st: MState,
    inputs: Seq<Seq<u8>>,
    wit: Seq<Seq<u8>>,
    prover: bool,
    recs: Seq<RecV>,
) -> Option<MState>
    decreases recs.len(),
{
    if recs.len() == 0 {
        Some(st)
    } else {
        match run_recs(st, inputs, wit, prover, recs.drop_last()) {
            None => None,
            Some(st1) => step_rec(st1, inputs, wit, prover, recs.last()),
        }
    }
}

/// The UTF-8 bytes of each line of a stream.
pub open spec fn lines_bytes(ls: Seq<String>) -> Seq<Seq<u8>> {
    ls.map_values(|l: String| chars_bytes(l@))
}

/// Emitting a run of text lines in order: each line must denote a
/// record and that record must resolve.
pub open spec fn run_lines(
    st: MState,
    inputs: Seq<Seq<u8>>,
    wit: Seq<Seq<u8>>,
    prover: bool,
    ls: Seq<Seq<u8>>,
) -> Option<MState>
    decreases ls.len(),
{
    if ls.len() == 0 {
        Some(st)
    } else {
        match run_lines(st, inputs, wit, prover, ls.drop_last()) {
            None => None,
            Some(st1) => match line_rec(ls.last()) {
                None => None,
                Some(rv) => step_rec(st1, inputs, wit, prover, rv),
            },
        }
    }
}

/// Parse one `[[index, coefficient], ...]` array: succeeds exactly on
/// a well-formed entry array, and returns exactly the entries the
/// value denotes, in order.
pub fn parse_entries(v: &serde_json::Value) -> (r: Result<Vec<CEntry>, Error>)
    ensures
        r is Ok <==> entries_ok(jmodel(*v)),
        r is Ok ==> entries_view(r->Ok_0@) =~= entries_of(jmodel(*v)),
        r is Ok ==> entries_wf(r->Ok_0@),
        r is Err ==> r->Err_0 == Error::MalformedConstraint || r->Err_0 == Error::MalformedNumber,
{
    let ghost j = jmodel(*v);
    let n = match json_array_len(v) {
        Some(n) => n,
        None => {
            return Err(Error::MalformedConstraint);
        },
    };
    let mut out: Vec<CEntry> = Vec::new();
    let mut i: usize = 0;
    while i < n
        invariant
            j == jmodel(*v),
            j is Arr,
            n == j->Arr_0.len(),
            i <= n,
            out@.len() == i,
            entries_wf(out@),
            forall|k: int|
                0 <= k < i ==> entry_ok(#[trigger] j->Arr_0[k]) && entry_view(out@[k]) == entry_of(
                    j->Arr_0[k],
                ),
        decreases n - i,
    {
        let t = match json_index(v, i) {
            Some(t) => t,
            None => {
                proof {
                    assert(false);
                }
                return Err(Error::MalformedConstraint);
            },
        };
        let ghost je = j->Arr_0[i as int];
        let iv = match json_index(t, 0) {
            Some(x) => x,
            None => {
                return Err(Error::MalformedConstraint);
            },
        };
        let idx64 = match json_as_u64(iv) {
            Some(x) => x,
            None => {
                return Err(Error::MalformedConstraint);
            },
        };
        if idx64 > (usize::MAX as u64) {
            return Err(Error::MalformedConstraint);
        }
        let idx = idx64 as usize;
        let cv = match json_index(t, 1) {
            Some(x) => x,
            None => {
                return Err(Error::MalformedConstraint);
            },
        };
        let cstr = match json_as_string(cv) {
            Some(x) => x,
            None => {
                return Err(Error::MalformedConstraint);
            },
        };
        let coef = match decimal_to_canonical(cstr.as_str()) {
            Some(fe) => fe,
            None => {
                return Err(Error::MalformedNumber);
            },
        };
        let cb = cstr.as_str().as_bytes();
        let lit_one = cb.len() == 1 && cb[0] == 49u8;
        proof {
            assert(entry_ok(je));
            if lit_one {
                assert(cb@ =~= seq![49u8]);
            }
            if chars_bytes(cstr@) == seq![49u8] {
                assert(cb@.len() == 1 && cb@[0] == 49u8);
            }
        }
        out.push(CEntry { idx, coef, lit_one });
        i = i + 1;
    }
    proof {
        assert(entries_view(out@) =~= entries_of(j));
    }
    Ok(out)
}

/// Parse one constraint line: succeeds exactly when the text is a JSON
/// object whose `A`, `B`, `C` members are well-formed entry arrays,
/// and returns exactly the record the line denotes.
pub fn parse_constraint_line(line: &str) -> (r: Result<ConstraintRec, Error>)
    ensures
        r is Ok <==> line_rec(line.spec_bytes()) is Some,
        r is Ok ==> Some(rec_view(r->Ok_0)) == line_rec(line.spec_bytes()),
        r is Ok ==> r->Ok_0.wf(),
        r is Err ==> r->Err_0 == Error::MalformedConstraint || r->Err_0 == Error::MalformedNumber,
{
    proof {
        reveal_strlit("A");
        reveal_strlit("B");
        reveal_strlit("C");
        assert("A"@ =~= seq!['A']);
        assert("B"@ =~= seq!['B']);
        assert("C"@ =~= seq!['C']);
    }
    let json = match json_parse_str(line) {
        Some(j) => j,
        None => {
            return Err(Error::MalformedConstraint);
        },
    };
    let av = match json_get(&json, "A") {
        Some(x) => x,
        None => {
            return Err(Error::MalformedConstraint);
        },
    };
    let a = match parse_entries(av) {
        Ok(x) => x,
        Err(e) => {
            return Err(e);
        },
    };
    let bv = match json_get(&json, "B") {
        Some(x) => x,
        None => {
            return Err(Error::MalformedConstraint);
        },
    };
    let b = match parse_entries(bv) {
        Ok(x) => x,
        Err(e) => {
            return Err(e);
        },
    };
    let cv = match json_get(&json, "C") {
        Some(x) => x,
        None => {
            return Err(Error::MalformedConstraint);
        },
    };
    let c = match parse_entries(cv) {
        Ok(x) => x,
        Err(e) => {
            return Err(e);
        },
    };
    Ok(ConstraintRec { a, b, c })
}

/// Build the backend linear combination of one entry list, resolving
/// and allocating as `step_lc` says.
fn build_lc(
    cs: &mut CsSession,
    r1: &mut R1csInputs,
    entries: &Vec<CEntry>,
    is_prover: bool,
) -> (r: Result<LcB, Error>)
    requires
        old(r1).wf(),
        is_prover == old(cs).is_prover(),
        entries_wf(entries@),
        old(cs).bok(),
        old(r1).paired(*old(cs)),
    ensures
        final(r1).wf(),
        final(cs).is_prover() == old(cs).is_prover(),
        final(r1).input@ == old(r1).input@,
        final(r1).witness@ == old(r1).witness@,
        final(cs).bok(),
        final(cs).slots() >= old(cs).slots(),
        final(r1).paired(*final(cs)),
        r is Ok ==> lc_bound(r->Ok_0.lc) <= final(cs).slots(),
        r is Ok <==> step_lc(
            m_of(*old(r1), *old(cs)),
            fes_bytes(old(r1).input@),
            fes_bytes(old(r1).witness@),
            is_prover,
            entries_view(entries@),
        ) is Some,
        r is Ok ==> step_lc(
            m_of(*old(r1), *old(cs)),
            fes_bytes(old(r1).input@),
            fes_bytes(old(r1).witness@),
            is_prover,
            entries_view(entries@),
        ) == Some((m_of(*final(r1), *final(cs)), r->Ok_0.terms@)),
        r is Err ==> r->Err_0 == Error::IndexOutOfRange,
{
    let ghost m0 = m_of(*r1, *cs);
    let ghost inputs = fes_bytes(r1.input@);
    let ghost wit = fes_bytes(r1.witness@);
    let ghost ev = entries_view(entries@);
    let mut lc = LcB::empty();
    let mut i: usize = 0;
    proof {
        assert(ev.take(0) =~= Seq::<EntryV>::empty());
        assert(step_lc(m0, inputs, wit, is_prover, ev.take(0)) == Some(
            (m0, Seq::<TermV>::empty()),
        ));
        assert(lc.terms@ =~= Seq::<TermV>::empty());
    }
    while i < entries.len()
        invariant
            r1.wf(),
            cs.is_prover() == is_prover,
            r1.input@ == old(r1).input@,
            r1.witness@ == old(r1).witness@,
            inputs == fes_bytes(old(r1).input@),
            wit == fes_bytes(old(r1).witness@),
            is_prover == old(cs).is_prover(),
            m0 == m_of(*old(r1), *old(cs)),
            i <= entries@.len(),
            entries_wf(entries@),
            ev == entries_view(entries@),
            cs.bok(),
            cs.slots() >= old(cs).slots(),
            r1.paired(*cs),
            lc_bound(lc.lc) <= cs.slots(),
            step_lc(m0, inputs, wit, is_prover, ev.take(i as int)) == Some(
                (m_of(*r1, *cs), lc.terms@),
            ),
        decreases entries@.len() - i,
    {
        let ghost m_pre = m_of(*r1, *cs);
        let e = &entries[i];
        proof {
            assert(ev[i as int] == entry_view(entries@[i as int]));
            assert(ev.take(i + 1).drop_last() =~= ev.take(i as int));
            assert(ev.take(i + 1).last() == ev[i as int]);
        }
        let rt = match r1.as_linear_term(cs, e.idx, is_prover) {
            Ok(rt) => rt,
            Err(err) => {
                proof {
                    assert(step_term(m_pre, inputs, wit, is_prover, ev[i as int]) is None);
                    lemma_step_lc_extends_none(m0, inputs, wit, is_prover, ev, i as int);
                }
                return Err(err);
            },
        };
        let ghost t_exp = step_term(m_pre, inputs, wit, is_prover, ev[i as int]);
        let new_lc = lc.add_term(&e.coef, &rt.base, rt.var, rt.vref);
        lc = new_lc;
        proof {
            assert(t_exp is Some);
            let pair = t_exp->0;
            assert(pair.0 == m_of(*r1, *cs));
            assert(pair.1 == TermV { v: rt.vref@, c1: e.coef@, c2: rt.base@ });
        }
        i = i + 1;
    }
    proof {
        assert(ev.take(ev.len() as int) =~= ev);
    }
    Ok(lc)
}

/// If a prefix of the list already fails to resolve, the whole list
/// fails.
proof fn lemma_step_lc_extends_none(
    m0: MState,
    inputs: Seq<Seq<u8>>,
    wit: Seq<Seq<u8>>,
    prover: bool,
    es: Seq<EntryV>,
    i: int,
)
    requires
        0 <= i < es.len(),
        step_lc(m0, inputs, wit, prover, es.take(i + 1)) is None,
    ensures
        step_lc(m0, inputs, wit, prover, es) is None,
    decreases es.len() - i,
{
    if i + 1 == es.len() {
        assert(es.take(i + 1) =~= es);
    } else {
        assert(es.take(i + 2).drop_last() =~= es.take(i + 1));
        lemma_step_lc_extends_none(m0, inputs, wit, prover, es, i + 1);
    }
}

/// If a prefix of the stream already fails, the whole stream fails.
pub proof fn lemma_run_lines_extends_none(
    m0: MState,
    inputs: Seq<Seq<u8>>,
    wit: Seq<Seq<u8>>,
    prover: bool,
    ls: Seq<Seq<u8>>,
    i: int,
)
    requires
        0 <= i < ls.len(),
        run_lines(m0, inputs, wit, prover, ls.take(i + 1)) is None,
    ensures
        run_lines(m0, inputs, wit, prover, ls) is None,
    decreases ls.len() - i,
{
    if i + 1 == ls.len() {
        assert(ls.take(i + 1) =~= ls);
    } else {
        assert(ls.take(i + 2).drop_last() =~= ls.take(i + 1));
        lemma_run_lines_extends_none(m0, inputs, wit, prover, ls, i + 1);
    }
}

/// Emit one parsed record, exactly as `step_rec` says.
pub fn emit_constraint(
    cs: &mut CsSession,
    r1: &mut R1csInputs,
    rec: &ConstraintRec,
    is_prover: bool,
) -> (r: Result<(), Error>)
    requires
        old(r1).wf(),
        is_prover == old(cs).is_prover(),
        rec.wf(),
        old(cs).bok(),
        old(r1).paired(*old(cs)),
    ensures
        final(r1).wf(),
        final(cs).is_prover() == old(cs).is_prover(),
        final(r1).input@ == old(r1).input@,
        final(r1).witness@ == old(r1).witness@,
        final(cs).bok(),
        final(cs).slots() >= old(cs).slots(),
        final(r1).paired(*final(cs)),
        r is Ok <==> step_rec(
            m_of(*old(r1), *old(cs)),
            fes_bytes(old(r1).input@),
            fes_bytes(old(r1).witness@),
            is_prover,
            rec_view(*rec),
        ) is Some,
        r is Ok ==> step_rec(
            m_of(*old(r1), *old(cs)),
            fes_bytes(old(r1).input@),
            fes_bytes(old(r1).witness@),
            is_prover,
            rec_view(*rec),
        ) == Some(m_of(*final(r1), *final(cs))),
        r is Err ==> r->Err_0 == Error::IndexOutOfRange,
{
    let ghost m0 = m_of(*r1, *cs);
    let a_lc = match build_lc(cs, r1, &rec.a, is_prover) {
        Ok(x) => x,
        Err(e) => {
            return Err(e);
        },
    };
    let b_lc = match build_lc(cs, r1, &rec.b, is_prover) {
        Ok(x) => x,
        Err(e) => {
            return Err(e);
        },
    };
    let ghost m2 = m_of(*r1, *cs);
    let ghost cv = entries_view(rec.c@);
    let defining = rec.c.len() == 1 && rec.c[0].idx != 0 && rec.c[0].lit_one
        && !r1.var.contains_key(&rec.c[0].idx);
    proof {
        if rec.c@.len() == 1 {
            assert(cv[0] == entry_view(rec.c@[0]));
        }
        assert(defining == defining_shape(m2, cv));
    }
    if defining {
        let ghost k_exp = m2.muls;
        let (v, k) = cs.multiply(a_lc, b_lc);
        r1.set_var(rec.c[0].idx, v, Ghost(VRef::MulOut(k@)));
        proof {
            assert(k@ == k_exp);
        }
        Ok(())
    } else {
        let c_lc = match build_lc(cs, r1, &rec.c, is_prover) {
            Ok(x) => x,
            Err(e) => {
                return Err(e);
            },
        };
        let ghost m3 = m_of(*r1, *cs);
        let (v, k) = cs.multiply(a_lc, b_lc);
        cs.constrain_eq(v, k, c_lc);
        proof {
            assert(k@ == m3.muls);
        }
        Ok(())
    }
}

/// Parse and emit one circuit line: the state moves exactly by
/// `step_rec` on the record the line denotes.
pub fn emit_constraint_line(
    cs: &mut CsSession,
    r1: &mut R1csInputs,
    line: &str,
    is_prover: bool,
) -> (r: Result<(), Error>)
    requires
        old(r1).wf(),
        is_prover == old(cs).is_prover(),
        old(cs).bok(),
        old(r1).paired(*old(cs)),
    ensures
        final(r1).wf(),
        final(cs).is_prover() == old(cs).is_prover(),
        final(r1).input@ == old(r1).input@,
        final(r1).witness@ == old(r1).witness@,
        final(cs).bok(),
        final(cs).slots() >= old(cs).slots(),
        final(r1).paired(*final(cs)),
        r is Ok <==> (line_rec(line.spec_bytes()) is Some && step_rec(
            m_of(*old(r1), *old(cs)),
            fes_bytes(old(r1).input@),
            fes_bytes(old(r1).witness@),
            is_prover,
            line_rec(line.spec_bytes())->0,
        ) is Some),
        r is Ok ==> Some(m_of(*final(r1), *final(cs))) == step_rec(
            m_of(*old(r1), *old(cs)),
            fes_bytes(old(r1).input@),
            fes_bytes(old(r1).witness@),
            is_prover,
            line_rec(line.spec_bytes())->0,
        ),
        r is Err ==> r->Err_0 == Error::MalformedConstraint || r->Err_0 == Error::MalformedNumber
            || r->Err_0 == Error::IndexOutOfRange,
        r is Err && !is_prover ==> r->Err_0 == Error::MalformedConstraint || r->Err_0
            == Error::MalformedNumber,
        r is Err && r->Err_0 != Error::IndexOutOfRange ==> m_of(*final(r1), *final(cs)) == m_of(
            *old(r1),
            *old(cs),
        ),
{
    let ghost m_pre = m_of(*r1, *cs);
    let rec = match parse_constraint_line(line) {
        Ok(rec) => rec,
        Err(e) => {
            return Err(e);
        },
    };
    match emit_constraint(cs, r1, &rec, is_prover) {
        Ok(()) => {},
        Err(e) => {
            proof {
                if !is_prover {
                    lemma_verifier_rec_total(
                        m_pre,
                        fes_bytes(old(r1).input@),
                        fes_bytes(old(r1).witness@),
                        rec_view(rec),
                    );
                    assert(false);
                }
            }
            return Err(e);
        },
    }
    Ok(())
}

/// Parse and emit every line of the stream, stopping at the first
/// fault: the state reached is exactly the fold of `step_rec` over the
/// records the lines denote.
pub fn generate_constraints(
    cs: &mut CsSession,
    lines: &Vec<String>,
    r1: &mut R1csInputs,
    is_prover: bool,
) -> (r: Result<(), Error>)
    requires
        old(r1).wf(),
        is_prover == old(cs).is_prover(),
        old(cs).bok(),
        old(r1).paired(*old(cs)),
    ensures
        final(r1).wf(),
        final(cs).is_prover() == old(cs).is_prover(),
        final(r1).input@ == old(r1).input@,
        final(r1).witness@ == old(r1).witness@,
        final(cs).bok(),
        final(cs).slots() >= old(cs).slots(),
        final(r1).paired(*final(cs)),
        r is Ok <==> run_lines(
            m_of(*old(r1), *old(cs)),
            fes_bytes(old(r1).input@),
            fes_bytes(old(r1).witness@),
            is_prover,
            lines_bytes(lines@),
        ) is Some,
        r is Ok ==> Some(m_of(*final(r1), *final(cs))) == run_lines(
            m_of(*old(r1), *old(cs)),
            fes_bytes(old(r1).input@),
            fes_bytes(old(r1).witness@),
            is_prover,
            lines_bytes(lines@),
        ),
        r is Err ==> r->Err_0 == Error::MalformedConstraint || r->Err_0 == Error::MalformedNumber
            || r->Err_0 == Error::IndexOutOfRange,
        r is Err && !is_prover ==> r->Err_0 == Error::MalformedConstraint || r->Err_0
            == Error::MalformedNumber,
        r is Err && r->Err_0 != Error::IndexOutOfRange ==> exists|n: int|
            0 <= n <= lines@.len() && Some(m_of(*final(r1), *final(cs))) == run_lines(
                m_of(*old(r1), *old(cs)),
                fes_bytes(old(r1).input@),
                fes_bytes(old(r1).witness@),
                is_prover,
                lines_bytes(lines@).take(n),
            ),
{
    let ghost m0 = m_of(*r1, *cs);
    let ghost inputs = fes_bytes(r1.input@);
    let ghost wit = fes_bytes(r1.witness@);
    let ghost lb = lines_bytes(lines@);
    let mut i: usize = 0;
    proof {
        assert(lb.take(0) =~= Seq::<Seq<u8>>::empty());
    }
    while i < lines.len()
        invariant
            r1.wf(),
            cs.is_prover() == is_prover,
            r1.input@ == old(r1).input@,
            r1.witness@ == old(r1).witness@,
            inputs == fes_bytes(old(r1).input@),
            wit == fes_bytes(old(r1).witness@),
            is_prover == old(cs).is_prover(),
            m0 == m_of(*old(r1), *old(cs)),
            i <= lines@.len(),
            lb == lines_bytes(lines@),
            cs.bok(),
            cs.slots() >= old(cs).slots(),
            r1.paired(*cs),
            run_lines(m0, inputs, wit, is_prover, lb.take(i as int)) == Some(m_of(*r1, *cs)),
        decreases lines@.len() - i,
    {
        let ghost m_pre = m_of(*r1, *cs);
        let line = lines[i].as_str();
        proof {
            assert(lb[i as int] == chars_bytes(lines@[i as int]@));
            assert(line.spec_bytes() == lb[i as int]);
            assert(lb.take(i + 1).drop_last() =~= lb.take(i as int));
            assert(lb.take(i + 1).last() == lb[i as int]);
        }
        match emit_constraint_line(cs, r1, line, is_prover) {
            Ok(()) => {},
            Err(e) => {
                proof {
                    lemma_run_lines_extends_none(m0, inputs, wit, is_prover, lb, i as int);
                }
                return Err(e);
            },
        }
        i = i + 1;
    }
    proof {
        assert(lb.take(lb.len() as int) =~= lb);
    }
    Ok(())
}

/// For the verifier no combination can fail to resolve: it never needs
/// a witness value.
pub proof fn lemma_verifier_lc_total(
    st: MState,
    inputs: Seq<Seq<u8>>,
    wit: Seq<Seq<u8>>,
    es: Seq<EntryV>,
)
    ensures
        step_lc(st, inputs, wit, false, es) is Some,
    decreases es.len(),
{
    if es.len() > 0 {
        lemma_verifier_lc_total(st, inputs, wit, es.drop_last());
    }
}

/// For the verifier no whole record can fail to resolve.
pub proof fn lemma_verifier_rec_total(
    st: MState,
    inputs: Seq<Seq<u8>>,
    wit: Seq<Seq<u8>>,
    rec: RecV,
)
    ensures
        step_rec(st, inputs, wit, false, rec) is Some,
{
    lemma_verifier_lc_total(st, inputs, wit, rec.a);
    let st1 = match step_lc(st, inputs, wit, false, rec.a) {
        Some((s, _)) => s,
        None => st,
    };
    lemma_verifier_lc_total(st1, inputs, wit, rec.b);
    let st2 = match step_lc(st1, inputs, wit, false, rec.b) {
        Some((s, _)) => s,
        None => st1,
    };
    if !defining_shape(st2, rec.c) {
        lemma_verifier_lc_total(st2, inputs, wit, rec.c);
    }
}

/// For the verifier a stream of lines emits exactly when every line
/// denotes a record: no resolution can fail, only parsing.
pub proof fn lemma_verifier_lines_total(
    st: MState,
    inputs: Seq<Seq<u8>>,
    wit: Seq<Seq<u8>>,
    ls: Seq<Seq<u8>>,
)
    ensures
        run_lines(st, inputs, wit, false, ls) is Some <==> (forall|i: int|
            0 <= i < ls.len() ==> (#[trigger] line_rec(ls[i])) is Some),
    decreases ls.len(),
{
    if ls.len() > 0 {
        lemma_verifier_lines_total(st, inputs, wit, ls.drop_last());
        assert(forall|i: int| 0 <= i < ls.len() - 1 ==> ls.drop_last()[i] == ls[i]);
        if run_lines(st, inputs, wit, false, ls.drop_last()) is Some {
            let st1 = match run_lines(st, inputs, wit, false, ls.drop_last()) {
                Some(s) => s,
                None => st,
            };
            if line_rec(ls.last()) is Some {
                let rv = match line_rec(ls.last()) {
                    Some(r) => r,
                    None => arbitrary(),
                };
                lemma_verifier_rec_total(st1, inputs, wit, rv);
            }
        }
    }
}

} // verus!
