//! The sequence-memory unit: a bounded FIFO window of recent key/value
//! pairs and a fixed bank of memory slots with similarity addressing,
//! novelty gating and exponential-moving-average updates, read out through
//! scaled-dot-product attention.

use vstd::prelude::*;

use crate::scalar::{
    ZERO_BITS, ONE_BITS, NEG_ONE_BITS, NEG_INF_BITS, add_bits, sub_bits, mul_bits, div_bits,
    sqrt_bits, from_u64_bits, gt_bits, ge_bits, le_bits, f_gt, f_ge, f_le, f_add, f_sub, f_mul,
    f_div, f_sqrt, f_from_u64,
};
use crate::vecmath::{
    dot_bits, cosine_bits, softmax_bits, wsum_bits, dot, cosine, softmax, weighted_sum,
};
use crate::digest::{
    state_bytes, memory_bytes, sha256_of, hex_of, sha256, hex_encode, push_u64_le, append_row,
    append_rows,
};

verus! {

/// The mathematical state of a unit: configuration scalars, the window
/// rows, the slot rows and the slot ages.
#[verifier::ext_equal]
pub ghost struct Model {
    pub l: nat,
    pub m: nat,
    pub d: nat,
    pub tau_reuse: u64,
    pub tau_novel: u64,
    pub g_write: u64,
    pub kw: Seq<Seq<u64>>,
    pub vw: Seq<Seq<u64>>,
    pub km: Seq<Seq<u64>>,
    pub vm: Seq<Seq<u64>>,
    pub age: Seq<u64>,
}

/// Structural validity: the window holds at most `l` rows, keys and values
/// in step, every row of the window and of the slot bank has exactly `d`
/// coordinates, and the slot bank has exactly `m` rows and ages.
pub open spec fn inv(s: Model) -> bool {
    &&& s.d >= 1
    &&& s.kw.len() == s.vw.len()
    &&& s.kw.len() <= s.l
    &&& forall|i: int| 0 <= i < s.kw.len() ==> (#[trigger] s.kw[i]).len() == s.d
    &&& forall|i: int| 0 <= i < s.vw.len() ==> (#[trigger] s.vw[i]).len() == s.d
    &&& s.km.len() == s.m
    &&& s.vm.len() == s.m
    &&& s.age.len() == s.m
    &&& forall|i: int| 0 <= i < s.km.len() ==> (#[trigger] s.km[i]).len() == s.d
    &&& forall|i: int| 0 <= i < s.vm.len() ==> (#[trigger] s.vm[i]).len() == s.d
}

/// A valid configuration: a positive dimension, both thresholds inside
/// [-1, 1], and a write gain inside (0, 1].
pub open spec fn valid_config(d: int, tau_reuse: u64, tau_novel: u64, g_write: u64) -> bool {
    &&& d >= 1
    &&& ge_bits(tau_reuse, NEG_ONE_BITS)
    &&& le_bits(tau_reuse, ONE_BITS)
    &&& ge_bits(tau_novel, NEG_ONE_BITS)
    &&& le_bits(tau_novel, ONE_BITS)
    &&& gt_bits(g_write, ZERO_BITS)
    &&& le_bits(g_write, ONE_BITS)
}

/// A row of `d` zero scalars.
pub open spec fn zero_row(d: nat) -> Seq<u64> {
    Seq::new(d, |i: int| ZERO_BITS)
}

/// The state of a freshly constructed unit: an empty window and `m` slots
/// holding zero vectors with age zero.
pub open spec fn init_model(l: nat, m: nat, d: nat, tau_reuse: u64, tau_novel: u64, g_write: u64) -> Model {
    Model {
        l,
        m,
        d,
        tau_reuse,
        tau_novel,
        g_write,
        kw: Seq::empty(),
        vw: Seq::empty(),
        km: Seq::new(m, |i: int| zero_row(d)),
        vm: Seq::new(m, |i: int| zero_row(d)),
        age: Seq::new(m, |i: int| 0u64),
    }
}

/// The error conditions a unit can report: a configuration outside the
/// documented ranges, or an input vector whose length is not `d`.
#[derive(Clone, Copy, Debug, PartialEq, Eq, Structural)]
pub enum KvError {
    InvalidConfiguration,
    DimensionMismatch,
}

/// A sequence-memory unit. Scalars are IEEE-754 double bit patterns.
#[derive(Clone)]
pub struct KVMemV0 {
    pub l_window: usize,
    pub m_slots: usize,
    pub d: usize,
    pub tau_reuse: u64,
    pub tau_novel: u64,
    pub g_write: u64,
    kw: Vec<Vec<u64>>,
    vw: Vec<Vec<u64>>,
    km: Vec<Vec<u64>>,
    vm: Vec<Vec<u64>>,
    age: Vec<u64>,
}

impl View for KVMemV0 {
    type V = Model;

    closed spec fn view(&self) -> Model {
        Model {
            l: self.l_window as nat,
            m: self.m_slots as nat,
            d: self.d as nat,
            tau_reuse: self.tau_reuse,
            tau_novel: self.tau_novel,
            g_write: self.g_write,
            kw: self.kw.deep_view(),
            vw: self.vw.deep_view(),
            km: self.km.deep_view(),
            vm: self.vm.deep_view(),
            age: self.age@,
        }
    }
}

/// A row of `d` zero scalars.
fn zero_vec(d: usize) -> (r: Vec<u64>)
    ensures
        r@ == zero_row(d as nat),
{
    let mut out: Vec<u64> = Vec::new();
    let mut i: usize = 0;
    while i < d
        invariant
            i <= d,
            out@.len() == i,
            forall|j: int| 0 <= j < i ==> out@[j] == ZERO_BITS,
        decreases d - i,
    {
        out.push(ZERO_BITS);
        i += 1;
    }
    proof {
        assert(out@ =~= zero_row(d as nat));
    }
    out
}

/// `m` rows of `d` zero scalars each.
fn zero_rows(m: usize, d: usize) -> (r: Vec<Vec<u64>>)
    ensures
        r.deep_view() == Seq::new(m as nat, |i: int| zero_row(d as nat)),
{
    let mut out: Vec<Vec<u64>> = Vec::new();
    let mut i: usize = 0;
    while i < m
        invariant
            i <= m,
            out@.len() == i,
            forall|j: int| 0 <= j < i ==> (#[trigger] out@[j])@ == zero_row(d as nat),
        decreases m - i,
    {
        out.push(zero_vec(d));
        i += 1;
    }
    proof {
        assert(out.deep_view() =~~= Seq::new(m as nat, |i: int| zero_row(d as nat)));
    }
    out
}

/// A copy of a scalar row.
fn clone_row(a: &Vec<u64>) -> (r: Vec<u64>)
    ensures
        r@ == a@,
{
    let mut out: Vec<u64> = Vec::new();
    let mut i: usize = 0;
    while i < a.len()
        invariant
            i <= a@.len(),
            out@.len() == i,
            forall|j: int| 0 <= j < i ==> out@[j] == a@[j],
        decreases a@.len() - i,
    {
        out.push(a[i]);
        i += 1;
    }
    proof {
        assert(out@ =~= a@);
    }
    out
}

impl KVMemV0 {
    /// Structural validity of the unit's state.
    pub open spec fn wf(&self) -> bool {
        inv(self@)
    }

    /// Construct a unit from a configuration already known to be valid;
    /// the window starts empty and every slot holds the zero vector with
    /// age zero.
    pub fn new(l_window: usize, m_slots: usize, d: usize, tau_reuse: u64, tau_novel: u64, g_write: u64) -> (r: Self)
        requires
            valid_config(d as int, tau_reuse, tau_novel, g_write),
        ensures
            r@ == init_model(l_window as nat, m_slots as nat, d as nat, tau_reuse, tau_novel, g_write),
            r.wf(),
    {
        let r = KVMemV0 {
            l_window,
            m_slots,
            d,
            tau_reuse,
            tau_novel,
            g_write,
            kw: Vec::new(),
            vw: Vec::new(),
            km: zero_rows(m_slots, d),
            vm: zero_rows(m_slots, d),
            age: zero_u64s(m_slots),
        };
        proof {
            assert(r@ =~= init_model(l_window as nat, m_slots as nat, d as nat, tau_reuse, tau_novel, g_write));
        }
        r
    }

    /// Construct a unit after checking the configuration: every violation
    /// of the documented ranges is reported as `InvalidConfiguration`, and
    /// a valid configuration always succeeds.
    pub fn try_new(l_window: usize, m_slots: usize, d: usize, tau_reuse: u64, tau_novel: u64, g_write: u64) -> (r: Result<Self, KvError>)
        ensures
            r is Ok <==> valid_config(d as int, tau_reuse, tau_novel, g_write),
            r is Ok ==> r->Ok_0@ == init_model(l_window as nat, m_slots as nat, d as nat, tau_reuse, tau_novel, g_write) && r->Ok_0.wf(),
            r is Err ==> r->Err_0 == KvError::InvalidConfiguration,
    {
        if d == 0 {
            return Err(KvError::InvalidConfiguration);
        }
        if !(f_ge(tau_reuse, NEG_ONE_BITS) && f_le(tau_reuse, ONE_BITS)) {
            return Err(KvError::InvalidConfiguration);
        }
        if !(f_ge(tau_novel, NEG_ONE_BITS) && f_le(tau_novel, ONE_BITS)) {
            return Err(KvError::InvalidConfiguration);
        }
        if !(f_gt(g_write, ZERO_BITS) && f_le(g_write, ONE_BITS)) {
            return Err(KvError::InvalidConfiguration);
        }
        Ok(Self::new(l_window, m_slots, d, tau_reuse, tau_novel, g_write))
    }
}

/// The window after appending one (key, value) pair: the new pair goes to
/// the back, and if the window then exceeds its capacity the front (oldest)
/// pair is dropped.
pub open spec fn push_model(s: Model, k: Seq<u64>, v: Seq<u64>) -> Model {
    let kw1 = s.kw.push(k);
    let vw1 = s.vw.push(v);
    if kw1.len() > s.l {
        Model { kw: kw1.subrange(1, kw1.len() as int), vw: vw1.subrange(1, vw1.len() as int), ..s }
    } else {
        Model { kw: kw1, vw: vw1, ..s }
    }
}

/// Forward scan for the best-matching slot, carrying the best index and
/// similarity so far; a slot wins only with a strictly greater similarity,
/// so the earliest index wins exact ties.
pub open spec fn max_sim_from(km: Seq<Seq<u64>>, k: Seq<u64>, i: nat, bi: int, bs: u64) -> (int, u64)
    decreases km.len() - i,
{
    if i >= km.len() {
        (bi, bs)
    } else {
        let s = cosine_bits(k, km[i as int]);
        if gt_bits(s, bs) {
            max_sim_from(km, k, (i + 1) as nat, i as int, s)
        } else {
            max_sim_from(km, k, (i + 1) as nat, bi, bs)
        }
    }
}

/// The best-matching slot and its cosine similarity; the sentinel
/// `(0, -infinity)` when there are no slots.
pub open spec fn max_sim_model(km: Seq<Seq<u64>>, k: Seq<u64>) -> (int, u64) {
    if km.len() == 0 {
        (0, NEG_INF_BITS)
    } else {
        max_sim_from(km, k, 0, 0, NEG_INF_BITS)
    }
}

/// Forward scan for the stalest slot, carrying the best index and age so
/// far; a slot wins only with a strictly greater age, so the earliest
/// index wins exact ties.
pub open spec fn age_argmax_from(age: Seq<u64>, i: nat, j: int, best: u64) -> int
    decreases age.len() - i,
{
    if i >= age.len() {
        j
    } else if age[i as int] > best {
        age_argmax_from(age, (i + 1) as nat, i as int, age[i as int])
    } else {
        age_argmax_from(age, (i + 1) as nat, j, best)
    }
}

/// The slot a write targets: the best match when its similarity reaches
/// the reuse threshold, otherwise the stalest slot.
pub open spec fn choose_slot_model(s: Model, k: Seq<u64>) -> int {
    if s.m == 0 {
        0
    } else {
        let best = max_sim_model(s.km, k);
        if ge_bits(best.1, s.tau_reuse) {
            best.0
        } else {
            age_argmax_from(s.age, 1, 0, s.age[0])
        }
    }
}

impl KVMemV0 {
    /// Append a (key, value) pair to the window, dropping the oldest pair
    /// when the capacity is exceeded.
    fn push_window(&mut self, k: Vec<u64>, v: Vec<u64>)
        requires
            old(self).wf(),
            k@.len() == old(self)@.d,
            v@.len() == old(self)@.d,
        ensures
            final(self)@ == push_model(old(self)@, k@, v@),
            final(self).wf(),
    {
        self.kw.push(k);
        self.vw.push(v);
        if self.kw.len() > self.l_window {
            self.kw.remove(0);
            self.vw.remove(0);
            proof {
                assert(self@ =~~= push_model(old(self)@, k@, v@));
            }
        } else {
            proof {
                assert(self@ =~~= push_model(old(self)@, k@, v@));
            }
        }
    }

    /// The index and cosine similarity of the best-matching slot for a
    /// candidate key; ties go to the lowest index, and a unit without
    /// slots reports the sentinel `(0, -infinity)`.
    fn max_sim(&self, k: &Vec<u64>) -> (r: (usize, u64))
        requires
            self.wf(),
        ensures
            (r.0 as int, r.1) == max_sim_model(self@.km, k@),
            self@.m > 0 ==> r.0 < self@.m,
            self@.m == 0 ==> r.0 == 0,
    {
        if self.m_slots == 0 {
            return (0, NEG_INF_BITS);
        }
        let mut best_i: usize = 0;
        let mut best_s: u64 = NEG_INF_BITS;
        let mut i: usize = 0;
        while i < self.m_slots
            invariant
                self.wf(),
                self@.m == self.m_slots as nat,
                self@.m > 0,
                i <= self.m_slots,
                best_i < self.m_slots,
                max_sim_model(self@.km, k@) == max_sim_from(
                    self@.km, k@, i as nat, best_i as int, best_s),
            decreases self.m_slots - i,
        {
            let row = &self.km[i];
            proof {
                assert(row@ == self@.km[i as int]);
            }
            let s = cosine(k, row);
            if f_gt(s, best_s) {
                best_s = s;
                best_i = i;
            }
            i += 1;
        }
        (best_i, best_s)
    }

    /// The slot a write would target: the best match if it reaches the
    /// reuse threshold, otherwise the slot with the largest age (ties to
    /// the lowest index).
    fn choose_slot(&self, k: &Vec<u64>) -> (r: usize)
        requires
            self.wf(),
        ensures
            r as int == choose_slot_model(self@, k@),
            self@.m > 0 ==> r < self@.m,
            self@.m == 0 ==> r == 0,
    {
        if self.m_slots == 0 {
            return 0;
        }
        let (best_i, best_s) = self.max_sim(k);
        if f_ge(best_s, self.tau_reuse) {
            return best_i;
        }
        let mut j: usize = 0;
        let mut best_age: u64 = self.age[0];
        let mut i: usize = 1;
        while i < self.m_slots
            invariant
                self.wf(),
                self@.m == self.m_slots as nat,
                self@.m > 0,
                1 <= i <= self.m_slots,
                j < self.m_slots,
                age_argmax_from(self@.age, 1, 0, self@.age[0]) == age_argmax_from(
                    self@.age, i as nat, j as int, best_age),
            decreases self.m_slots - i,
        {
            if self.age[i] > best_age {
                best_age = self.age[i];
                j = i;
            }
            i += 1;
        }
        j
    }
}

/// Every age advanced by one step of staleness.
pub open spec fn bump_ages(age: Seq<u64>) -> Seq<u64> {
    Seq::new(age.len(), |i: int| (age[i] + 1) as u64)
}

/// A stored row blended with a candidate row by an exponential moving
/// average with gain `g`, coordinate by coordinate.
pub open spec fn ema_row(stored: Seq<u64>, cand: Seq<u64>, g: u64, d: nat) -> Seq<u64> {
    Seq::new(d, |t: int| add_bits(mul_bits(sub_bits(ONE_BITS, g), stored[t]), mul_bits(g, cand[t])))
}

/// One slot-memory update. Without slots nothing happens. Otherwise every
/// age advances; a read stops there. A write whose best-match similarity
/// reaches the novelty threshold is discarded (the novelty gate).
/// Otherwise the chosen slot's key and value are blended with the
/// candidate by the EMA and its age is reset to zero.
pub open spec fn write_model(s: Model, k: Seq<u64>, v: Seq<u64>, write_event: bool) -> Model {
    if s.m == 0 {
        s
    } else {
        let aged = Model { age: bump_ages(s.age), ..s };
        if !write_event {
            aged
        } else {
            let best_s = max_sim_model(s.km, k).1;
            if ge_bits(best_s, s.tau_novel) {
                aged
            } else {
                let j = choose_slot_model(aged, k);
                Model {
                    km: aged.km.update(j, ema_row(aged.km[j], k, s.g_write, s.d)),
                    vm: aged.vm.update(j, ema_row(aged.vm[j], v, s.g_write, s.d)),
                    age: aged.age.update(j, 0u64),
                    ..aged
                }
            }
        }
    }
}

impl KVMemV0 {
    /// Advance every slot age and, on a write event that passes the
    /// novelty gate, blend the candidate into the chosen slot.
    fn write_memory_novelty_gated(&mut self, k: &Vec<u64>, v: &Vec<u64>, write_event: bool)
        requires
            old(self).wf(),
            k@.len() == old(self)@.d,
            v@.len() == old(self)@.d,
            forall|i: int| 0 <= i < old(self)@.m ==> old(self)@.age[i] < u64::MAX,
        ensures
            final(self)@ == write_model(old(self)@, k@, v@, write_event),
            final(self).wf(),
    {
        if self.m_slots == 0 {
            return;
        }
        let ghost aged = Model { age: bump_ages(old(self)@.age), ..old(self)@ };
        let mut i: usize = 0;
        while i < self.m_slots
            invariant
                i <= self.m_slots,
                self.m_slots == old(self).m_slots,
                self@.age.len() == self.m_slots as nat,
                forall|jj: int| 0 <= jj < old(self)@.m ==> old(self)@.age[jj] < u64::MAX,
                forall|jj: int| 0 <= jj < i ==> self@.age[jj] == (old(self)@.age[jj] + 1) as u64,
                forall|jj: int| i <= jj < self@.age.len() ==> self@.age[jj] == old(self)@.age[jj],
                self@ == (Model { age: self@.age, ..old(self)@ }),
            decreases self.m_slots - i,
        {
            let a = self.age[i];
            self.age.set(i, a + 1);
            i += 1;
        }
        proof {
            assert(self@ =~~= aged);
        }
        if !write_event {
            proof {
                assert(self@ =~~= write_model(old(self)@, k@, v@, write_event));
            }
            return;
        }
        let (_best_i, best_s) = self.max_sim(k);
        if f_ge(best_s, self.tau_novel) {
            proof {
                assert(self@.km == old(self)@.km);
                assert(self@ =~~= write_model(old(self)@, k@, v@, write_event));
            }
            return;
        }
        let j = self.choose_slot(k);
        let g = self.g_write;
        let d = self.d;
        let mut new_k_row: Vec<u64> = Vec::new();
        let mut new_v_row: Vec<u64> = Vec::new();
        let mut t: usize = 0;
        while t < d
            invariant
                t <= d,
                d == self@.d,
                self.wf(),
                self@ == aged,
                j < self@.m,
                g == self@.g_write,
                k@.len() == d,
                v@.len() == d,
                new_k_row@.len() == t,
                new_v_row@.len() == t,
                forall|tt: int| 0 <= tt < t ==> new_k_row@[tt] == add_bits(
                    mul_bits(sub_bits(ONE_BITS, g), self@.km[j as int][tt]), mul_bits(g, k@[tt])),
                forall|tt: int| 0 <= tt < t ==> new_v_row@[tt] == add_bits(
                    mul_bits(sub_bits(ONE_BITS, g), self@.vm[j as int][tt]), mul_bits(g, v@[tt])),
            decreases d - t,
        {
            let krow = &self.km[j];
            let vrow = &self.vm[j];
            proof {
                assert(self@.km[j as int] =~= krow@);
                assert(self@.vm[j as int] =~= vrow@);
            }
            let nk = f_add(f_mul(f_sub(ONE_BITS, g), krow[t]), f_mul(g, k[t]));
            let nv = f_add(f_mul(f_sub(ONE_BITS, g), vrow[t]), f_mul(g, v[t]));
            new_k_row.push(nk);
            new_v_row.push(nv);
            t += 1;
        }
        proof {
            assert(new_k_row@ =~= ema_row(aged.km[j as int], k@, g, aged.d));
            assert(new_v_row@ =~= ema_row(aged.vm[j as int], v@, g, aged.d));
        }
        self.km.set(j, new_k_row);
        self.vm.set(j, new_v_row);
        self.age.set(j, 0);
        proof {
            assert(self@ =~~= write_model(old(self)@, k@, v@, write_event));
        }
    }
}

/// The unit's state after one step: the slot-memory update followed by
/// the window push (the push happens on every step, written or not).
pub open spec fn step_model(s: Model, k: Seq<u64>, v: Seq<u64>, write_event: bool) -> Model {
    push_model(write_model(s, k, v, write_event), k, v)
}

/// The combined candidate keys after a step: window keys first, then the
/// slot keys when the unit has slots.
pub open spec fn candidate_keys(s: Model) -> Seq<Seq<u64>> {
    if s.m > 0 {
        s.kw + s.km
    } else {
        s.kw
    }
}

/// The combined candidate values, in the order of `candidate_keys`.
pub open spec fn candidate_vals(s: Model) -> Seq<Seq<u64>> {
    if s.m > 0 {
        s.vw + s.vm
    } else {
        s.vw
    }
}

/// Each candidate key scored against the query: a dot product scaled by
/// the square root of the dimension.
pub open spec fn scores_model(s: Model, q: Seq<u64>) -> Seq<u64> {
    let keys = candidate_keys(s);
    let scale = sqrt_bits(from_u64_bits(s.d as u64));
    Seq::new(keys.len(), |i: int| div_bits(dot_bits(q, keys[i]), scale))
}

/// The value a step returns: the softmax-weighted sum of the candidate
/// values, taken on the state after the update and the push; the zero
/// vector when there are no candidates at all (a unit with no window
/// capacity and no slots).
pub open spec fn step_out(s: Model, q: Seq<u64>, k: Seq<u64>, v: Seq<u64>, write_event: bool) -> Seq<u64> {
    let s2 = step_model(s, k, v, write_event);
    let keys = candidate_keys(s2);
    let w = softmax_bits(scores_model(s2, q));
    if keys.len() == 0 {
        zero_row(s.d)
    } else {
        wsum_bits(w, candidate_vals(s2))
    }
}

impl KVMemV0 {
    /// One step: gate and apply the slot write, push the pair into the
    /// window, then attend over the combined window and slot candidates
    /// with the query and return the weighted value.
    pub fn step(&mut self, q: Vec<u64>, k: Vec<u64>, v: Vec<u64>, write_event: bool) -> (r: Vec<u64>)
        requires
            old(self).wf(),
            q@.len() == old(self)@.d,
            k@.len() == old(self)@.d,
            v@.len() == old(self)@.d,
            forall|i: int| 0 <= i < old(self)@.m ==> old(self)@.age[i] < u64::MAX,
        ensures
            final(self)@ == step_model(old(self)@, k@, v@, write_event),
            final(self).wf(),
            r@ == step_out(old(self)@, q@, k@, v@, write_event),
            r@.len() == old(self)@.d,
    {
        self.write_memory_novelty_gated(&k, &v, write_event);
        self.push_window(k, v);
        let ghost s2 = step_model(old(self)@, k@, v@, write_event);
        proof {
            assert(self@ == s2);
        }

        let mut keys: Vec<Vec<u64>> = Vec::new();
        let mut vals: Vec<Vec<u64>> = Vec::new();
        let wlen = self.kw.len();
        let mut i: usize = 0;
        while i < wlen
            invariant
                i <= wlen,
                self.wf(),
                self@ == s2,
                wlen == self@.kw.len(),
                keys@.len() == i,
                vals@.len() == i,
                forall|jj: int| 0 <= jj < i ==> (#[trigger] keys@[jj])@ == self@.kw[jj],
                forall|jj: int| 0 <= jj < i ==> (#[trigger] vals@[jj])@ == self@.vw[jj],
            decreases wlen - i,
        {
            let krow = clone_row(&self.kw[i]);
            let vrow = clone_row(&self.vw[i]);
            proof {
                assert(self@.kw[i as int] =~= krow@);
                assert(self@.vw[i as int] =~= vrow@);
            }
            keys.push(krow);
            vals.push(vrow);
            i += 1;
        }
        if self.m_slots > 0 {
            let mut i: usize = 0;
            while i < self.m_slots
                invariant
                    i <= self.m_slots,
                    self.wf(),
                    self@ == s2,
                    self@.m == self.m_slots as nat,
                    wlen == self@.kw.len(),
                    keys@.len() == wlen + i,
                    vals@.len() == wlen + i,
                    forall|jj: int| 0 <= jj < wlen ==> (#[trigger] keys@[jj])@ == self@.kw[jj],
                    forall|jj: int| 0 <= jj < wlen ==> (#[trigger] vals@[jj])@ == self@.vw[jj],
                    forall|jj: int| wlen <= jj < wlen + i ==> (#[trigger] keys@[jj])@ == self@.km[jj - wlen],
                    forall|jj: int| wlen <= jj < wlen + i ==> (#[trigger] vals@[jj])@ == self@.vm[jj - wlen],
                decreases self.m_slots - i,
            {
                let krow = clone_row(&self.km[i]);
                let vrow = clone_row(&self.vm[i]);
                proof {
                    assert(self@.km[i as int] =~= krow@);
                    assert(self@.vm[i as int] =~= vrow@);
                }
                keys.push(krow);
                vals.push(vrow);
                i += 1;
            }
        }
        proof {
            assert(keys.deep_view() =~~= candidate_keys(s2));
            assert(vals.deep_view() =~~= candidate_vals(s2));
        }

        let scale = f_sqrt(f_from_u64(self.d as u64));
        let mut scores: Vec<u64> = Vec::new();
        let klen = keys.len();
        let mut i: usize = 0;
        while i < klen
            invariant
                i <= klen,
                klen == keys@.len(),
                keys.deep_view() == candidate_keys(s2),
                q@.len() == old(self)@.d,
                scale == sqrt_bits(from_u64_bits(s2.d as u64)),
                s2.d == old(self)@.d,
                scores@.len() == i,
                forall|jj: int| 0 <= jj < i ==> scores@[jj] == div_bits(
                    dot_bits(q@, candidate_keys(s2)[jj]), scale),
            decreases klen - i,
        {
            let row = &keys[i];
            proof {
                assert(candidate_keys(s2)[i as int] =~= row@);
            }
            scores.push(f_div(dot(&q, row), scale));
            i += 1;
        }
        proof {
            assert(scores@ =~= scores_model(s2, q@));
        }

        let w = softmax(&scores);
        if klen == 0 {
            let out = zero_vec(self.d);
            proof {
                assert(out@ =~= step_out(old(self)@, q@, k@, v@, write_event));
            }
            out
        } else {
            let out = weighted_sum(&w, &vals);
            proof {
                assert(candidate_vals(s2).len() == klen);
                assert(forall|jj: int| 0 <= jj < vals@.len() ==> (#[trigger] vals@[jj])@.len()
                    == vals@[0]@.len());
                assert(out@ == step_out(old(self)@, q@, k@, v@, write_event));
                assert(out@.len() == old(self)@.d);
            }
            out
        }
    }
}

impl KVMemV0 {
    /// One step after checking the three input vectors: a vector whose
    /// length is not `d` is reported as `DimensionMismatch` and leaves the
    /// unit untouched; matching inputs always step.
    pub fn try_step(&mut self, q: Vec<u64>, k: Vec<u64>, v: Vec<u64>, write_event: bool) -> (r: Result<Vec<u64>, KvError>)
        requires
            old(self).wf(),
            forall|i: int| 0 <= i < old(self)@.m ==> old(self)@.age[i] < u64::MAX,
        ensures
            r is Ok <==> (q@.len() == old(self)@.d && k@.len() == old(self)@.d && v@.len()
                == old(self)@.d),
            r is Ok ==> r->Ok_0@ == step_out(old(self)@, q@, k@, v@, write_event)
                && final(self)@ == step_model(old(self)@, k@, v@, write_event),
            r is Err ==> r->Err_0 == KvError::DimensionMismatch && final(self)@ == old(self)@,
            final(self).wf(),
    {
        if q.len() != self.d || k.len() != self.d || v.len() != self.d {
            return Err(KvError::DimensionMismatch);
        }
        Ok(self.step(q, k, v, write_event))
    }

    /// The full-state fingerprint: every configuration scalar, window
    /// coordinate, slot coordinate and slot age, serialized in a fixed
    /// order, hashed with SHA-256 and rendered as lowercase hex.
    pub fn state_sha256(&self) -> (r: String)
        ensures
            r@ == hex_of(sha256_of(state_bytes(self@))),
    {
        let mut bytes: Vec<u8> = Vec::new();
        push_u64_le(&mut bytes, self.l_window as u64);
        push_u64_le(&mut bytes, self.m_slots as u64);
        push_u64_le(&mut bytes, self.d as u64);
        push_u64_le(&mut bytes, self.tau_reuse);
        push_u64_le(&mut bytes, self.tau_novel);
        push_u64_le(&mut bytes, self.g_write);
        append_rows(&mut bytes, &self.kw);
        append_rows(&mut bytes, &self.vw);
        append_rows(&mut bytes, &self.km);
        append_rows(&mut bytes, &self.vm);
        append_row(&mut bytes, &self.age);
        proof {
            assert(bytes@ =~= state_bytes(self@));
        }
        let h = sha256(&bytes);
        hex_encode(&h)
    }

    /// The memory-only fingerprint: the slot-memory configuration and the
    /// slot keys and values — no window rows and no ages — serialized,
    /// hashed with SHA-256 and rendered as lowercase hex.
    pub fn memory_kv_sha256(&self) -> (r: String)
        ensures
            r@ == hex_of(sha256_of(memory_bytes(self@))),
    {
        let mut bytes: Vec<u8> = Vec::new();
        push_u64_le(&mut bytes, self.m_slots as u64);
        push_u64_le(&mut bytes, self.d as u64);
        push_u64_le(&mut bytes, self.tau_reuse);
        push_u64_le(&mut bytes, self.tau_novel);
        push_u64_le(&mut bytes, self.g_write);
        append_rows(&mut bytes, &self.km);
        append_rows(&mut bytes, &self.vm);
        proof {
            assert(bytes@ =~= memory_bytes(self@));
        }
        let h = sha256(&bytes);
        hex_encode(&h)
    }
}

/// `m` zero counters.
fn zero_u64s(m: usize) -> (r: Vec<u64>)
    ensures
        r@ == Seq::new(m as nat, |i: int| 0u64),
{
    let mut out: Vec<u64> = Vec::new();
    let mut i: usize = 0;
    while i < m
        invariant
            i <= m,
            out@.len() == i,
            forall|j: int| 0 <= j < i ==> out@[j] == 0u64,
        decreases m - i,
    {
        out.push(0);
        i += 1;
    }
    proof {
        assert(out@ =~= Seq::new(m as nat, |i: int| 0u64));
    }
    out
}

} // verus!
