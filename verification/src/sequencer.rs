use vstd::prelude::*;
use vstd::arithmetic::div_mod::lemma_fundamental_div_mod;
use vstd::arithmetic::div_mod::lemma_fundamental_div_mod_converse;

verus! {

/// The position inside a pattern of `len` values that step `step` reads, when
/// the pattern plays once from the start and then repeats from `loop_start`.
/// A loop start past the end is clamped to the last value.
pub open spec fn spec_pattern_index(len: nat, loop_start: nat, step: nat) -> nat {
    if len == 0 {
        0
    } else {
        let start = if loop_start < len { loop_start } else { (len - 1) as nat };
        if step < start {
            step
        } else {
            start + ((step - start) as nat) % ((len - start) as nat)
        }
    }
}

/// Index of the pattern value used at `step`.
pub fn pattern_index(values_len: usize, loop_start: usize, step: usize) -> (r: usize)
    ensures
        r == spec_pattern_index(values_len as nat, loop_start as nat, step as nat),
        values_len > 0 ==> r < values_len,
{
    if values_len == 0 {
        return 0;
    }
    let loop_start = if loop_start < values_len - 1 { loop_start } else { values_len - 1 };
    if step < loop_start {
        step
    } else {
        let span = values_len - loop_start;
        let r = loop_start + (step - loop_start) % span;
        r
    }
}

/// Whether step `step` is a hit in a pattern that repeats from `loop_start`; an empty
/// pattern never fires.
pub fn pattern_bool_with_loop(values: &[bool], loop_start: usize, step: usize) -> (r: bool)
    ensures
        r == if values@.len() == 0 {
            false
        } else {
            values@[spec_pattern_index(values@.len(), loop_start as nat, step as nat) as int]
        },
{
    if values.len() == 0 {
        false
    } else {
        values[pattern_index(values.len(), loop_start, step)]
    }
}

/// The subdivided gates of step `step` in a pattern that cycles from its start;
/// an empty pattern yields one closed gate.
pub fn pattern_step_gates(values: &[Vec<bool>], step: usize) -> (r: &[bool])
    ensures
        r@ == if values@.len() == 0 {
            seq![false]
        } else {
            values@[(step as nat % values@.len()) as int]@
        },
{
    if values.len() == 0 {
        closed_gate()
    } else {
        values[step % values.len()].as_slice()
    }
}

/// The subdivided gates of step `step` in a pattern that repeats from
/// `loop_start`; an empty pattern yields one closed gate.
pub fn pattern_step_gates_with_loop(values: &[Vec<bool>], loop_start: usize, step: usize) -> (r:
    &[bool])
    ensures
        r@ == if values@.len() == 0 {
            seq![false]
        } else {
            values@[spec_pattern_index(values@.len(), loop_start as nat, step as nat) as int]@
        },
{
    if values.len() == 0 {
        closed_gate()
    } else {
        values[pattern_index(values.len(), loop_start, step)].as_slice()
    }
}

/// The hold lengths of step `step` in a pattern that repeats from
/// `loop_start`; an empty pattern yields one zero hold.
pub fn pattern_step_holds_with_loop(values: &[Vec<usize>], loop_start: usize, step: usize) -> (r:
    &[usize])
    ensures
        r@ == if values@.len() == 0 {
            seq![0usize]
        } else {
            values@[spec_pattern_index(values@.len(), loop_start as nat, step as nat) as int]@
        },
{
    if values.len() == 0 {
        no_hold()
    } else {
        values[pattern_index(values.len(), loop_start, step)].as_slice()
    }
}

fn closed_gate() -> (r: &'static [bool])
    ensures
        r@ == seq![false],
{
    let r: &'static [bool] = &[false];
    assert(r@ =~= seq![false]);
    r
}

fn no_hold() -> (r: &'static [usize])
    ensures
        r@ == seq![0usize],
{
    let r: &'static [usize] = &[0];
    assert(r@ =~= seq![0usize]);
    r
}

/// Whether slot `idx` of a Euclidean rhythm of `pulses` hits over `steps`
/// slots, rotated right by `rotation`.
pub open spec fn spec_euclid_hit(pulses: nat, steps: nat, rotation: nat, idx: nat) -> bool {
    let p = if pulses < steps { pulses } else { steps };
    let rotated = (idx + steps - rotation % steps) % (steps as int);
    (rotated * p) % (steps as int) < p
}

/// A Euclidean rhythm: `pulses` hits spread as evenly as possible over
/// `steps` slots, rotated by `rotation`; zero steps give one hit.
pub open spec fn spec_euclid(pulses: nat, steps: nat, rotation: nat) -> Seq<bool> {
    if steps == 0 {
        seq![true]
    } else {
        Seq::new(steps, |i: int| spec_euclid_hit(pulses, steps, rotation, i as nat))
    }
}

/// Spreads `pulses` hits as evenly as possible over `steps` slots (Bjorklund
/// style), rotated right by `rotation` slots.
pub fn euclid(pulses: usize, steps: usize, rotation: usize) -> (r: Vec<bool>)
    ensures
        r@ == spec_euclid(pulses as nat, steps as nat, rotation as nat),
{
    if steps == 0 {
        return vec![true];
    }
    let p: u128 = if pulses < steps { pulses as u128 } else { steps as u128 };
    let n: u128 = steps as u128;
    let shift: u128 = (rotation % steps) as u128;
    let mut out: Vec<bool> = Vec::new();
    let mut idx: usize = 0;
    while idx < steps
        invariant
            idx <= steps,
            steps > 0,
            n == steps,
            p == if pulses < steps { pulses as nat } else { steps as nat },
            shift == rotation % steps,
            out@.len() == idx,
            forall|j: int|
                0 <= j < idx ==> out@[j] == spec_euclid_hit(
                    pulses as nat,
                    steps as nat,
                    rotation as nat,
                    j as nat,
                ),
        decreases steps - idx,
    {
        let rotated: u128 = (idx as u128 + n - shift) % n;
        assert(rotated < n);
        assert(rotated * p <= n * n) by (nonlinear_arith)
            requires
                rotated < n,
                p <= n,
        ;
        assert(n * n <= 0xffff_ffff_ffff_ffff_ffff_ffff_ffff_ffff) by (nonlinear_arith)
            requires
                n <= 0xffff_ffff_ffff_ffff,
        ;
        let hit = (rotated * p) % n < p;
        out.push(hit);
        idx = idx + 1;
    }
    assert(out@ =~= spec_euclid(pulses as nat, steps as nat, rotation as nat));
    out
}

/// Past the loop start a pattern repeats with the period of its looped part:
/// step `step` and step `step + (len - loop_start)` read the same value.
pub proof fn lemma_pattern_index_periodic(len: nat, loop_start: nat, step: nat)
    requires
        loop_start < len,
        loop_start <= step,
    ensures
        spec_pattern_index(len, loop_start, step + (len - loop_start) as nat) == spec_pattern_index(
            len,
            loop_start,
            step,
        ),
{
    let span = (len - loop_start) as int;
    let k = (step - loop_start) as int;
    lemma_fundamental_div_mod(k, span);
    assert(k + span == (k / span + 1) * span + k % span) by (nonlinear_arith)
        requires
            k == span * (k / span) + k % span,
    ;
    lemma_fundamental_div_mod_converse(k + span, span, k / span + 1, k % span);
}

/// Before the loop start a pattern plays its values in order, once; with the
/// loop starting at zero it simply cycles; and every index is in range.
pub proof fn lemma_pattern_index_shape(len: nat, loop_start: nat, step: nat)
    requires
        len > 0,
    ensures
        spec_pattern_index(len, loop_start, step) < len,
        step < loop_start && loop_start < len ==> spec_pattern_index(len, loop_start, step)
            == step,
        loop_start == 0 ==> spec_pattern_index(len, loop_start, step) == step % len,
{
}

/// Number of hits in a gate sequence.
pub open spec fn count_hits(s: Seq<bool>) -> nat
    decreases s.len(),
{
    if s.len() == 0 {
        0
    } else {
        count_hits(s.drop_last()) + if s.last() { 1nat } else { 0nat }
    }
}

proof fn lemma_count_hits_concat(a: Seq<bool>, b: Seq<bool>)
    ensures
        count_hits(a + b) == count_hits(a) + count_hits(b),
    decreases b.len(),
{
    if b.len() == 0 {
        assert(a + b =~= a);
    } else {
        lemma_count_hits_concat(a, b.drop_last());
        assert((a + b).drop_last() =~= a + b.drop_last());
    }
}

spec fn unrotated_hit(p: int, n: int, i: int) -> bool {
    (i * p) % n < p
}

/// Between consecutive slots the number of completed "pulse periods" grows by
/// one exactly at the slots that hit.
proof fn lemma_hit_step(p: int, n: int, i: int)
    requires
        0 <= p <= n,
        n > 0,
        i >= 1,
    ensures
        unrotated_hit(p, n, i) ==> (i * p) / n == ((i - 1) * p) / n + 1,
        !unrotated_hit(p, n, i) ==> (i * p) / n == ((i - 1) * p) / n,
{
    let q = (i * p) / n;
    let m = (i * p) % n;
    lemma_fundamental_div_mod(i * p, n);
    assert(0 <= m < n);
    assert((i - 1) * p == i * p - p) by (nonlinear_arith);
    assert(n * q == q * n) by (nonlinear_arith);
    if m < p {
        assert((i - 1) * p == (q - 1) * n + (m - p + n)) by (nonlinear_arith)
            requires
                i * p == n * q + m,
                (i - 1) * p == i * p - p,
        ;
        lemma_fundamental_div_mod_converse((i - 1) * p, n, q - 1, m - p + n);
    } else {
        assert((i - 1) * p == q * n + (m - p)) by (nonlinear_arith)
            requires
                i * p == n * q + m,
                (i - 1) * p == i * p - p,
        ;
        lemma_fundamental_div_mod_converse((i - 1) * p, n, q, m - p);
    }
}

proof fn lemma_unrotated_prefix_count(p: int, n: int, k: int)
    requires
        0 <= p <= n,
        n > 0,
        1 <= k <= n,
    ensures
        count_hits(Seq::new(k as nat, |i: int| unrotated_hit(p, n, i))) == (if p > 0 {
            1int
        } else {
            0int
        }) + ((k - 1) * p) / n,
    decreases k,
{
    let s = Seq::new(k as nat, |i: int| unrotated_hit(p, n, i));
    if k == 1 {
        assert(s.drop_last() =~= Seq::<bool>::empty());
        assert((k - 1) * p == 0) by (nonlinear_arith)
            requires
                k == 1,
        ;
        assert(0int % n == 0);
        assert(0int / n == 0);
        assert(s.last() == unrotated_hit(p, n, 0));
        assert(count_hits(Seq::<bool>::empty()) == 0);
        assert(count_hits(s) == count_hits(s.drop_last()) + if s.last() { 1nat } else { 0nat });
    } else {
        lemma_unrotated_prefix_count(p, n, k - 1);
        assert(s.drop_last() =~= Seq::new((k - 1) as nat, |i: int| unrotated_hit(p, n, i)));
        lemma_hit_step(p, n, k - 1);
        assert(s.last() == unrotated_hit(p, n, k - 1));
        assert((k - 1 - 1) * p == (k - 2) * p);
        assert(count_hits(s) == count_hits(s.drop_last()) + if s.last() { 1nat } else { 0nat });
    }
}

/// A Euclidean rhythm over a positive number of slots holds exactly as many
/// hits as pulses asked for, capped at the number of slots, whatever its
/// rotation.
pub proof fn lemma_euclid_hit_count(pulses: nat, steps: nat, rotation: nat)
    requires
        steps > 0,
    ensures
        spec_euclid(pulses, steps, rotation).len() == steps,
        count_hits(spec_euclid(pulses, steps, rotation)) == if pulses < steps {
            pulses
        } else {
            steps
        },
{
    let n = steps as int;
    let p = if pulses < steps { pulses as int } else { steps as int };
    let base = Seq::new(steps, |i: int| unrotated_hit(p, n, i));
    lemma_unrotated_prefix_count(p, n, n);
    if p > 0 {
        assert((n - 1) * p == (p - 1) * n + (n - p)) by (nonlinear_arith);
        lemma_fundamental_div_mod_converse((n - 1) * p, n, p - 1, n - p);
    } else {
        assert((n - 1) * p == 0) by (nonlinear_arith)
            requires
                p == 0,
        ;
    }
    assert(count_hits(base) == p);
    let r = (rotation % steps) as int;
    let e = spec_euclid(pulses, steps, rotation);
    let front = base.subrange(n - r, n);
    let back = base.subrange(0, n - r);
    assert(base =~= back + front);
    lemma_count_hits_concat(back, front);
    lemma_count_hits_concat(front, back);
    assert forall|i: int| 0 <= i < n implies #[trigger] e[i] == (front + back)[i] by {
        if i < r {
            assert((i + n - r) % n == i + n - r) by {
                lemma_fundamental_div_mod_converse(i + n - r, n, 0, i + n - r);
            }
        } else {
            assert((i + n - r) % n == i - r) by {
                lemma_fundamental_div_mod_converse(i + n - r, n, 1, i - r);
            }
        }
    }
    assert(e =~= front + back);
}

} // verus!
