//! The structural laws of the emission model.
//!
//! These proof functions state, over the spec mirror of the emitter,
//! the guarantees the pipeline is built around: a variable index once
//! resolved stays resolved to the same variable; index 0 is the
//! constant one for either role and never allocates; and the prover
//! and the verifier, fed the same circuit, build the very same
//! constraint structure — equal variable numbering, equal multiplication
//! numbering, traces identical but for the values carried by
//! allocations, which are the only thing the verifier lacks.

use vstd::prelude::*;

use crate::codec::{one32, zero32, Fe};
use crate::constraints::{
    defining_shape, line_rec, m_init, run_lines, run_recs, step_lc, step_rec, step_term, EntryV,
    MState, RecV,
};
use crate::resolver::{Event, TermV, VRef};

verus! {

/// The state a resolution step leaves behind.
pub open spec fn st_of(o: Option<(MState, Seq<TermV>)>) -> MState {
    match o {
        Some((s, _)) => s,
        None => vstd::pervasive::arbitrary(),
    }
}

/// The terms a resolution step yields.
pub open spec fn ts_of(o: Option<(MState, Seq<TermV>)>) -> Seq<TermV> {
    match o {
        Some((_, t)) => t,
        None => vstd::pervasive::arbitrary(),
    }
}

/// The state of a one-term step.
pub open spec fn st1_of(o: Option<(MState, TermV)>) -> MState {
    match o {
        Some((s, _)) => s,
        None => vstd::pervasive::arbitrary(),
    }
}

/// The term of a one-term step.
pub open spec fn t1_of(o: Option<(MState, TermV)>) -> TermV {
    match o {
        Some((_, t)) => t,
        None => vstd::pervasive::arbitrary(),
    }
}

/// Index stability: once an index has been resolved, resolving it
/// again yields the same term and moves nothing — re-resolution never
/// allocates twice and never drifts the numbering.
pub proof fn lemma_index_stability(
    st: MState,
    inputs: Seq<Seq<u8>>,
    wit: Seq<Seq<u8>>,
    prover: bool,
    e: EntryV,
)
    requires
        step_term(st, inputs, wit, prover, e) is Some,
    ensures
        step_term(
            st1_of(step_term(st, inputs, wit, prover, e)),
            inputs,
            wit,
            prover,
            e,
        ) == Some(
            (
                st1_of(step_term(st, inputs, wit, prover, e)),
                t1_of(step_term(st, inputs, wit, prover, e)),
            ),
        ),
{
}

/// Constant handling: index 0 resolves to the constant one with the
/// written coefficient, in either role, and consumes no allocation —
/// the state comes back untouched.
pub proof fn lemma_constant_resolution(
    st: MState,
    inputs: Seq<Seq<u8>>,
    wit: Seq<Seq<u8>>,
    prover: bool,
    e: EntryV,
)
    requires
        e.idx == 0,
    ensures
        step_term(st, inputs, wit, prover, e) == Some(
            (st, TermV { v: VRef::One, c1: e.coef, c2: one32() }),
        ),
{
}

/// An event with its allocation value blanked: what both roles can see
/// of it.
pub open spec fn erase_ev(e: Event) -> Event {
    match e {
        Event::Alloc { value: _ } => Event::Alloc { value: zero32() },
        _ => e,
    }
}

/// Two model states agree structurally: same index cache, same
/// counters, and the same trace once allocation values are blanked.
pub open spec fn related(a: MState, b: MState) -> bool {
    &&& a.sv == b.sv
    &&& a.allocs == b.allocs
    &&& a.muls == b.muls
    &&& a.tr.map_values(|e: Event| erase_ev(e)) =~= b.tr.map_values(|e: Event| erase_ev(e))
}

proof fn lemma_erase_push(tr: Seq<Event>, e: Event)
    ensures
        tr.push(e).map_values(|x: Event| erase_ev(x)) =~= tr.map_values(
            |x: Event| erase_ev(x),
        ).push(erase_ev(e)),
{
}

/// One term: if the prover's step succeeds, the verifier's step on the
/// related state succeeds, yields the identical term, and leaves
/// related states.
proof fn lemma_sync_term(
    a: MState,
    b: MState,
    inputs: Seq<Seq<u8>>,
    wit_p: Seq<Seq<u8>>,
    wit_v: Seq<Seq<u8>>,
    e: EntryV,
)
    requires
        related(a, b),
        step_term(a, inputs, wit_p, true, e) is Some,
    ensures
        step_term(b, inputs, wit_v, false, e) is Some,
        related(
            st1_of(step_term(a, inputs, wit_p, true, e)),
            st1_of(step_term(b, inputs, wit_v, false, e)),
        ),
        t1_of(step_term(a, inputs, wit_p, true, e)) == t1_of(
            step_term(b, inputs, wit_v, false, e),
        ),
{
    if e.idx == 0 || e.idx <= inputs.len() || a.sv.contains_key(e.idx) {
    } else {
        let vp = wit_p[e.idx - 1 - inputs.len()];
        lemma_erase_push(a.tr, Event::Alloc { value: vp });
        lemma_erase_push(b.tr, Event::Alloc { value: zero32() });
    }
}

/// One linear combination, by induction over its entries.
proof fn lemma_sync_lc(
    a: MState,
    b: MState,
    inputs: Seq<Seq<u8>>,
    wit_p: Seq<Seq<u8>>,
    wit_v: Seq<Seq<u8>>,
    es: Seq<EntryV>,
)
    requires
        related(a, b),
        step_lc(a, inputs, wit_p, true, es) is Some,
    ensures
        step_lc(b, inputs, wit_v, false, es) is Some,
        related(
            st_of(step_lc(a, inputs, wit_p, true, es)),
            st_of(step_lc(b, inputs, wit_v, false, es)),
        ),
        ts_of(step_lc(a, inputs, wit_p, true, es)) =~= ts_of(
            step_lc(b, inputs, wit_v, false, es),
        ),
    decreases es.len(),
{
    if es.len() > 0 {
        lemma_sync_lc(a, b, inputs, wit_p, wit_v, es.drop_last());
        let ap = st_of(step_lc(a, inputs, wit_p, true, es.drop_last()));
        let bv = st_of(step_lc(b, inputs, wit_v, false, es.drop_last()));
        lemma_sync_term(ap, bv, inputs, wit_p, wit_v, es.last());
    }
}

/// One record: the multiplication, and the binding or equality after it,
/// land identically for both roles.
proof fn lemma_sync_rec(
    a: MState,
    b: MState,
    inputs: Seq<Seq<u8>>,
    wit_p: Seq<Seq<u8>>,
    wit_v: Seq<Seq<u8>>,
    rec: RecV,
)
    requires
        related(a, b),
        step_rec(a, inputs, wit_p, true, rec) is Some,
    ensures
        step_rec(b, inputs, wit_v, false, rec) is Some,
        related(
            mst_of(step_rec(a, inputs, wit_p, true, rec)),
            mst_of(step_rec(b, inputs, wit_v, false, rec)),
        ),
{
    lemma_sync_lc(a, b, inputs, wit_p, wit_v, rec.a);
    let a1 = st_of(step_lc(a, inputs, wit_p, true, rec.a));
    let b1 = st_of(step_lc(b, inputs, wit_v, false, rec.a));
    lemma_sync_lc(a1, b1, inputs, wit_p, wit_v, rec.b);
    let a2 = st_of(step_lc(a1, inputs, wit_p, true, rec.b));
    let b2 = st_of(step_lc(b1, inputs, wit_v, false, rec.b));
    assert(defining_shape(a2, rec.c) == defining_shape(b2, rec.c));
    if defining_shape(a2, rec.c) {
        let ea = Event::Mul {
            a: ts_of(step_lc(a, inputs, wit_p, true, rec.a)),
            b: ts_of(step_lc(a1, inputs, wit_p, true, rec.b)),
        };
        let eb = Event::Mul {
            a: ts_of(step_lc(b, inputs, wit_v, false, rec.a)),
            b: ts_of(step_lc(b1, inputs, wit_v, false, rec.b)),
        };
        lemma_erase_push(a2.tr, ea);
        lemma_erase_push(b2.tr, eb);
    } else {
        lemma_sync_lc(a2, b2, inputs, wit_p, wit_v, rec.c);
        let a3 = st_of(step_lc(a2, inputs, wit_p, true, rec.c));
        let b3 = st_of(step_lc(b2, inputs, wit_v, false, rec.c));
        let ea1 = Event::Mul {
            a: ts_of(step_lc(a, inputs, wit_p, true, rec.a)),
            b: ts_of(step_lc(a1, inputs, wit_p, true, rec.b)),
        };
        let eb1 = Event::Mul {
            a: ts_of(step_lc(b, inputs, wit_v, false, rec.a)),
            b: ts_of(step_lc(b1, inputs, wit_v, false, rec.b)),
        };
        let ea2 = Event::ConstrainEq { k: a3.muls, c: ts_of(step_lc(a2, inputs, wit_p, true, rec.c)) };
        let eb2 = Event::ConstrainEq { k: b3.muls, c: ts_of(step_lc(b2, inputs, wit_v, false, rec.c)) };
        lemma_erase_push(a3.tr, ea1);
        lemma_erase_push(b3.tr, eb1);
        lemma_erase_push(a3.tr.push(ea1), ea2);
        lemma_erase_push(b3.tr.push(eb1), eb2);
    }
}

/// The state a record run leaves behind.
pub open spec fn mst_of(o: Option<MState>) -> MState {
    match o {
        Some(s) => s,
        None => vstd::pervasive::arbitrary(),
    }
}

/// Role synchronization: whenever the prover can emit a whole run of
/// records, the verifier emits the very same run — same success, same
/// index cache, same allocation and multiplication numbering, and a trace equal
/// event for event once allocation values are blanked.  This is the
/// invariant that lets the verifier rebuild the prover's numbering
/// without ever seeing a witness.
pub proof fn lemma_prover_verifier_sync(
    a: MState,
    b: MState,
    inputs: Seq<Seq<u8>>,
    wit_p: Seq<Seq<u8>>,
    wit_v: Seq<Seq<u8>>,
    recs: Seq<RecV>,
)
    requires
        related(a, b),
        run_recs(a, inputs, wit_p, true, recs) is Some,
    ensures
        run_recs(b, inputs, wit_v, false, recs) is Some,
        related(
            mst_of(run_recs(a, inputs, wit_p, true, recs)),
            mst_of(run_recs(b, inputs, wit_v, false, recs)),
        ),
    decreases recs.len(),
{
    if recs.len() > 0 {
        lemma_prover_verifier_sync(a, b, inputs, wit_p, wit_v, recs.drop_last());
        lemma_sync_rec(
            mst_of(run_recs(a, inputs, wit_p, true, recs.drop_last())),
            mst_of(run_recs(b, inputs, wit_v, false, recs.drop_last())),
            inputs,
            wit_p,
            wit_v,
            recs.last(),
        );
    }
}

/// Round-trip structure: a circuit the prover can emit from a fresh
/// session is emitted by a fresh verifier session with no witnesses at
/// all, and the two sessions agree on every variable and every
/// multiplication — the verifier reconstructs the prover's numbering
/// from the circuit alone.
pub proof fn lemma_fresh_sessions_sync(
    inputs: Seq<Seq<u8>>,
    wit_p: Seq<Seq<u8>>,
    recs: Seq<RecV>,
)
    requires
        run_recs(m_init(), inputs, wit_p, true, recs) is Some,
    ensures
        run_recs(m_init(), inputs, Seq::<Seq<u8>>::empty(), false, recs) is Some,
        related(
            mst_of(run_recs(m_init(), inputs, wit_p, true, recs)),
            mst_of(run_recs(m_init(), inputs, Seq::<Seq<u8>>::empty(), false, recs)),
        ),
{
    assert(related(m_init(), m_init()));
    lemma_prover_verifier_sync(m_init(), m_init(), inputs, wit_p, Seq::empty(), recs);
}

/// Line-level role synchronization: on the same circuit lines, from
/// related states, a run the prover completes is completed by the
/// verifier too, with the same variable and multiplication numbering
/// and a trace equal but for allocation values.  Two runs on the same
/// lines are thereby linked: the denoted records are a function of the
/// lines alone.
pub proof fn lemma_lines_sync(
    a: MState,
    b: MState,
    inputs: Seq<Seq<u8>>,
    wit_p: Seq<Seq<u8>>,
    wit_v: Seq<Seq<u8>>,
    ls: Seq<Seq<u8>>,
)
    requires
        related(a, b),
        run_lines(a, inputs, wit_p, true, ls) is Some,
    ensures
        run_lines(b, inputs, wit_v, false, ls) is Some,
        related(
            mst_of(run_lines(a, inputs, wit_p, true, ls)),
            mst_of(run_lines(b, inputs, wit_v, false, ls)),
        ),
    decreases ls.len(),
{
    if ls.len() > 0 {
        lemma_lines_sync(a, b, inputs, wit_p, wit_v, ls.drop_last());
        let rv = match line_rec(ls.last()) {
            Some(r) => r,
            None => vstd::pervasive::arbitrary(),
        };
        lemma_sync_rec(
            mst_of(run_lines(a, inputs, wit_p, true, ls.drop_last())),
            mst_of(run_lines(b, inputs, wit_v, false, ls.drop_last())),
            inputs,
            wit_p,
            wit_v,
            rv,
        );
    }
}

/// The verifier's emission is total: with no witness needed, no run of
/// records can fail to resolve.
pub proof fn lemma_verifier_total(
    st: MState,
    inputs: Seq<Seq<u8>>,
    wit: Seq<Seq<u8>>,
    recs: Seq<RecV>,
)
    ensures
        run_recs(st, inputs, wit, false, recs) is Some,
    decreases recs.len(),
{
    if recs.len() > 0 {
        lemma_verifier_total(st, inputs, wit, recs.drop_last());
        let st1 = mst_of(run_recs(st, inputs, wit, false, recs.drop_last()));
        crate::constraints::lemma_verifier_rec_total(st1, inputs, wit, recs.last());
    }
}

} // verus!
