//! Laws of the unit, stated over the mathematical model and proved once
//! and for all: determinism of a step and of a run, invariance of the
//! memory fingerprint under read-only steps and under gated writes, and
//! the FIFO behaviour of the window.

use vstd::prelude::*;

use crate::scalar::ge_bits;
use crate::unit::{Model, step_model, step_out, max_sim_model};
use crate::digest::{state_bytes, memory_bytes, sha256_of, hex_of};

verus! {

/// One recorded input of a run: the three vectors and the write flag
/// handed to a step.
pub ghost struct StepInput {
    pub q: Seq<u64>,
    pub k: Seq<u64>,
    pub v: Seq<u64>,
    pub write_event: bool,
}

/// The state after stepping through a sequence of inputs in order.
pub open spec fn run_model(s: Model, inputs: Seq<StepInput>) -> Model
    decreases inputs.len(),
{
    if inputs.len() == 0 {
        s
    } else {
        run_model(
            step_model(s, inputs[0].k, inputs[0].v, inputs[0].write_event),
            inputs.drop_first(),
        )
    }
}

/// The outputs of a run, one vector per step, in order.
pub open spec fn run_outputs(s: Model, inputs: Seq<StepInput>) -> Seq<Seq<u64>>
    decreases inputs.len(),
{
    if inputs.len() == 0 {
        Seq::empty()
    } else {
        seq![step_out(s, inputs[0].q, inputs[0].k, inputs[0].v, inputs[0].write_event)]
            + run_outputs(
            step_model(s, inputs[0].k, inputs[0].v, inputs[0].write_event),
            inputs.drop_first(),
        )
    }
}

/// Determinism of one step: two units in the same state, handed the same
/// inputs, return the same output vector and end in the same state.
pub proof fn lemma_step_deterministic(
    s1: Model,
    s2: Model,
    q: Seq<u64>,
    k: Seq<u64>,
    v: Seq<u64>,
    write_event: bool,
)
    requires
        s1 == s2,
    ensures
        step_out(s1, q, k, v, write_event) == step_out(s2, q, k, v, write_event),
        step_model(s1, k, v, write_event) == step_model(s2, k, v, write_event),
{
}

/// Determinism of a run: two units in the same state, driven by the same
/// sequence of inputs, return the same output vector at every step and
/// end in the same state, with the same full-state and memory
/// fingerprints.
pub proof fn lemma_run_deterministic(s1: Model, s2: Model, inputs: Seq<StepInput>)
    requires
        s1 == s2,
    ensures
        run_model(s1, inputs) == run_model(s2, inputs),
        run_outputs(s1, inputs) == run_outputs(s2, inputs),
        hex_of(sha256_of(state_bytes(run_model(s1, inputs)))) == hex_of(
            sha256_of(state_bytes(run_model(s2, inputs)))),
        hex_of(sha256_of(memory_bytes(run_model(s1, inputs)))) == hex_of(
            sha256_of(memory_bytes(run_model(s2, inputs)))),
{
}

/// A step without a write event never perturbs the memory: the slot keys
/// and values, and with them the memory fingerprint, are unchanged.
pub proof fn lemma_read_only_step_preserves_memory(s: Model, k: Seq<u64>, v: Seq<u64>)
    ensures
        memory_bytes(step_model(s, k, v, false)) == memory_bytes(s),
        hex_of(sha256_of(memory_bytes(step_model(s, k, v, false)))) == hex_of(
            sha256_of(memory_bytes(s))),
{
    let s2 = step_model(s, k, v, false);
    assert(s2.km == s.km);
    assert(s2.vm == s.vm);
}

/// A whole run of read-only steps leaves the memory fingerprint
/// unchanged, whatever the queries, keys and values were.
pub proof fn lemma_read_only_run_preserves_memory(s: Model, inputs: Seq<StepInput>)
    requires
        forall|i: int| 0 <= i < inputs.len() ==> !(#[trigger] inputs[i]).write_event,
    ensures
        memory_bytes(run_model(s, inputs)) == memory_bytes(s),
        hex_of(sha256_of(memory_bytes(run_model(s, inputs)))) == hex_of(
            sha256_of(memory_bytes(s))),
    decreases inputs.len(),
{
    if inputs.len() > 0 {
        lemma_read_only_step_preserves_memory(s, inputs[0].k, inputs[0].v);
        lemma_read_only_run_preserves_memory(
            step_model(s, inputs[0].k, inputs[0].v, inputs[0].write_event),
            inputs.drop_first(),
        );
    }
}

/// The novelty gate: a written pair whose best-match similarity reaches
/// the novelty threshold is silently discarded, so the memory fingerprint
/// is unchanged by that step; a unit without slots never changes it
/// either.
pub proof fn lemma_gated_write_preserves_memory(s: Model, k: Seq<u64>, v: Seq<u64>)
    ensures
        (s.m == 0 || ge_bits(max_sim_model(s.km, k).1, s.tau_novel)) ==> memory_bytes(
            step_model(s, k, v, true)) == memory_bytes(s),
        (s.m == 0 || ge_bits(max_sim_model(s.km, k).1, s.tau_novel)) ==> hex_of(
            sha256_of(memory_bytes(step_model(s, k, v, true)))) == hex_of(
            sha256_of(memory_bytes(s))),
{
    if s.m == 0 || ge_bits(max_sim_model(s.km, k).1, s.tau_novel) {
        let s2 = step_model(s, k, v, true);
        assert(s2.km == s.km);
        assert(s2.vm == s.vm);
    }
}

/// The most recent `l` rows of a history, or all of them when there are
/// fewer.
pub open spec fn last_l(rows: Seq<Seq<u64>>, l: nat) -> Seq<Seq<u64>> {
    if rows.len() <= l {
        rows
    } else {
        rows.subrange(rows.len() - l, rows.len() as int)
    }
}

/// Taking the most recent `l` rows twice, with more rows appended in
/// between, is the same as taking them once at the end.
proof fn lemma_last_l_absorb(a: Seq<Seq<u64>>, b: Seq<Seq<u64>>, l: nat)
    ensures
        last_l(last_l(a, l) + b, l) == last_l(a + b, l),
{
    assert(last_l(last_l(a, l) + b, l) =~= last_l(a + b, l));
}

/// FIFO window: after a run, the window keys are exactly the most recent
/// `l` of the keys it held and the keys pushed since, in push order, and
/// likewise for the values; every earlier-pushed row is gone.
pub proof fn lemma_window_fifo(s: Model, inputs: Seq<StepInput>)
    requires
        s.kw.len() <= s.l,
        s.kw.len() == s.vw.len(),
    ensures
        run_model(s, inputs).kw == last_l(
            s.kw + inputs.map_values(|inp: StepInput| inp.k), s.l),
        run_model(s, inputs).vw == last_l(
            s.vw + inputs.map_values(|inp: StepInput| inp.v), s.l),
    decreases inputs.len(),
{
    let ks = inputs.map_values(|inp: StepInput| inp.k);
    let vs = inputs.map_values(|inp: StepInput| inp.v);
    if inputs.len() == 0 {
        assert(s.kw + ks =~= s.kw);
        assert(s.vw + vs =~= s.vw);
    } else {
        let s1 = step_model(s, inputs[0].k, inputs[0].v, inputs[0].write_event);
        assert(s1.kw =~= last_l(s.kw + seq![inputs[0].k], s.l));
        assert(s1.vw =~= last_l(s.vw + seq![inputs[0].v], s.l));
        assert(s1.kw.len() <= s1.l && s1.kw.len() == s1.vw.len());
        lemma_window_fifo(s1, inputs.drop_first());
        let ks1 = inputs.drop_first().map_values(|inp: StepInput| inp.k);
        let vs1 = inputs.drop_first().map_values(|inp: StepInput| inp.v);
        lemma_last_l_absorb(s.kw + seq![inputs[0].k], ks1, s.l);
        lemma_last_l_absorb(s.vw + seq![inputs[0].v], vs1, s.l);
        assert((s.kw + seq![inputs[0].k]) + ks1 =~= s.kw + ks);
        assert((s.vw + seq![inputs[0].v]) + vs1 =~= s.vw + vs);
    }
}

/// After more than `l` pushes the window holds only pushed rows: the most
/// recent `l` of them, so the earliest-pushed rows are no longer present.
pub proof fn lemma_window_drops_earliest(s: Model, inputs: Seq<StepInput>)
    requires
        s.kw.len() <= s.l,
        s.kw.len() == s.vw.len(),
        inputs.len() >= s.l,
    ensures
        run_model(s, inputs).kw == inputs.map_values(|inp: StepInput| inp.k).subrange(
            inputs.len() - s.l, inputs.len() as int),
        run_model(s, inputs).vw == inputs.map_values(|inp: StepInput| inp.v).subrange(
            inputs.len() - s.l, inputs.len() as int),
{
    lemma_window_fifo(s, inputs);
    let ks = inputs.map_values(|inp: StepInput| inp.k);
    let vs = inputs.map_values(|inp: StepInput| inp.v);
    assert(last_l(s.kw + ks, s.l) =~= ks.subrange(inputs.len() - s.l, inputs.len() as int));
    assert(last_l(s.vw + vs, s.l) =~= vs.subrange(inputs.len() - s.l, inputs.len() as int));
}

} // verus!
