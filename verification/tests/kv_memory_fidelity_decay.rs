use kv_memory_vsc_v0::KVMemV0;

fn bits(v: Vec<f64>) -> Vec<u64> {
    v.into_iter().map(f64::to_bits).collect()
}

fn floats(v: Vec<u64>) -> Vec<f64> {
    v.into_iter().map(f64::from_bits).collect()
}

fn max_abs(x: &[f64]) -> f64 {
    x.iter().map(|v| v.abs()).fold(0.0, f64::max)
}

fn argmax_abs(x: &[f64]) -> usize {
    let mut bi = 0usize;
    let mut bv = -1.0f64;
    for (i, v) in x.iter().enumerate() {
        let a = v.abs();
        if a > bv {
            bv = a;
            bi = i;
        }
    }
    bi
}

fn is_hit(out: &[f64], idx: usize, thr: f64) -> bool {
    argmax_abs(out) == idx && max_abs(out) > thr
}

fn e(d: usize, idx: usize, s: f64) -> Vec<f64> {
    let mut v = vec![0.0f64; d];
    v[idx] = s;
    v
}

#[test]
fn baseline_misses_after_truncation_even_without_drift() {
    // Baseline: M=0, so only window KV exists. With L=1, one eviction makes earlier fact unreachable.
    let (l, d) = (1usize, 8usize);
    let (tau_reuse, tau_novel, g_write) = (0.9f64, 0.5f64, 0.25f64);
    let thr = 5.0f64;

    let mut base = KVMemV0::new(l, 0, d, tau_reuse.to_bits(), tau_novel.to_bits(), g_write.to_bits());

    // Write FACT A into the *window* (baseline has no memory).
    let k_a = e(d, 0, 1.0);
    let v_a = e(d, 0, 60.0); // large amplitude for deterministic detection in kvmem (baseline should still miss after eviction)
    let _ = base.step(bits(vec![0.0; d]), bits(k_a.clone()), bits(v_a), true);

    // Evict from window (L=1) with a key anti-aligned to the query to keep attention weight off the window token.
    let k_evict = e(d, 0, -1.0);
    let _ = base.step(bits(vec![0.0; d]), bits(k_evict), bits(vec![0.0; d]), false);

    // Query for A (query is e0). In baseline, A is out of window => MISS.
    let out = floats(base.step(bits(k_a), bits(vec![0.0; d]), bits(vec![0.0; d]), false));
    assert!(!is_hit(&out, 0, thr));
}

#[test]
fn same_key_rewrite_is_gated_and_fact_stays_at_full_strength() {
    // M=1, g=0.25. Store FACT A once; a later write with the same key has
    // best-match cosine 1.0 against the stored slot key, which reaches the
    // novelty threshold, so the write is discarded before any slot update:
    // the stored value never decays and every probe stays a hit.
    let (l, d, m) = (1usize, 8usize, 1usize);
    let (tau_reuse, tau_novel, g_write) = (0.9f64, 0.5f64, 0.25f64);
    let (a_amp, thr) = (60.0f64, 5.0f64);

    let mut mem = KVMemV0::new(l, m, d, tau_reuse.to_bits(), tau_novel.to_bits(), g_write.to_bits());

    let q_a = e(d, 0, 1.0);
    let k_a = e(d, 0, 1.0);
    let v_a = e(d, 0, a_amp);

    // Store A (novel write into empty memory).
    let _ = mem.step(bits(vec![0.0; d]), bits(k_a.clone()), bits(v_a), true);
    let stored = mem.memory_kv_sha256();

    let k_evict = e(d, 0, -1.0);
    let v_zero = vec![0.0f64; d];

    for n in 0..=6usize {
        if n == 0 {
            let _ = mem.step(bits(vec![0.0; d]), bits(k_evict.clone()), bits(v_zero.clone()), false);
        } else {
            // A same-key write: gated, so the memory fingerprint is unchanged.
            let _ = mem.step(bits(vec![0.0; d]), bits(k_a.clone()), bits(v_zero.clone()), true);
            assert_eq!(mem.memory_kv_sha256(), stored, "gated write must not touch memory, n={}", n);
            let _ = mem.step(bits(vec![0.0; d]), bits(k_evict.clone()), bits(v_zero.clone()), false);
        }

        let out = floats(mem.step(bits(q_a.clone()), bits(v_zero.clone()), bits(v_zero.clone()), false));
        assert!(is_hit(&out, 0, thr), "stored fact must stay retrievable, n={}", n);
    }
}

#[test]
fn memory_digest_changes_on_novel_writes_only() {
    let (l, d, m) = (1usize, 8usize, 1usize);
    let (tau_reuse, tau_novel, g_write) = (0.9f64, 0.5f64, 0.25f64);

    let mut mem = KVMemV0::new(l, m, d, tau_reuse.to_bits(), tau_novel.to_bits(), g_write.to_bits());

    let k_a = e(d, 0, 1.0);
    let v_a = e(d, 0, 60.0);
    let k_evict = e(d, 0, -1.0);
    let v_zero = vec![0.0f64; d];

    // First write into empty memory: the zero slot has cosine 0, below the
    // novelty threshold, so the write lands and the fingerprint changes.
    let h0 = mem.memory_kv_sha256();
    let _ = mem.step(bits(vec![0.0; d]), bits(k_a.clone()), bits(v_a), true);
    let h1 = mem.memory_kv_sha256();
    assert_ne!(h0, h1);

    // Read-only steps never touch the memory.
    let _ = mem.step(bits(vec![0.0; d]), bits(k_evict.clone()), bits(v_zero.clone()), false);
    let _ = mem.step(bits(k_a.clone()), bits(v_zero.clone()), bits(v_zero.clone()), false);
    let h2 = mem.memory_kv_sha256();
    assert_eq!(h1, h2);

    // A same-key write is gated (cosine 1.0 >= novelty threshold): the
    // fingerprint stays as it was.
    let _ = mem.step(bits(vec![0.0; d]), bits(k_a.clone()), bits(v_zero.clone()), true);
    let h3 = mem.memory_kv_sha256();
    assert_eq!(h2, h3);

    // Another read-only step: still unchanged.
    let _ = mem.step(bits(vec![0.0; d]), bits(k_evict), bits(v_zero), false);
    let h4 = mem.memory_kv_sha256();
    assert_eq!(h3, h4);
    // A write with an orthogonal key has cosine 0, clears the novelty gate, and
    // changes the fingerprint again.
    let k_b = e(d, 1, 1.0);
    let v_b = e(d, 1, 30.0);
    let _ = mem.step(bits(vec![0.0; d]), bits(k_b), bits(v_b), true);
    let h5 = mem.memory_kv_sha256();
    assert_ne!(h4, h5);
}
