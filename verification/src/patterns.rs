use vstd::prelude::*;
use crate::gates::{
    bool_grid, cell_grid, hold_grid, holds_on_hits, parsed_gate_pattern, static_gate_cells_like,
    empty_holds_like, ParsedGatePattern,
};
use crate::model::{CellView, GateCell};
use crate::sequencer::{euclid, spec_euclid};

verus! {

/// A gate pattern as plain values: per step its gates, cells and holds,
/// and the step where the loop restarts.
pub struct PatternView {
    pub gates: Seq<Seq<bool>>,
    pub cells: Seq<Seq<CellView>>,
    pub holds: Seq<Seq<usize>>,
    pub loop_start: nat,
}

/// The plain values of a gate pattern.
pub open spec fn pattern_view(p: ParsedGatePattern) -> PatternView {
    PatternView {
        gates: bool_grid(p.gates@),
        cells: cell_grid(p.cells@),
        holds: hold_grid(p.holds@),
        loop_start: p.loop_start as nat,
    }
}

/// What building a pattern from grids gives: the pattern, or the refusal
/// of a hold that is not on a hit.
pub open spec fn built(v: PatternView) -> Result<PatternView, Seq<char>> {
    if holds_on_hits(v.gates, v.holds) {
        Ok(v)
    } else {
        Err("gate hold can only be attached to a hit"@)
    }
}

/// Whether a result is the one `built` names.
pub open spec fn result_is(r: Result<ParsedGatePattern, String>, b: Result<PatternView, Seq<char>>) -> bool {
    match b {
        Ok(v) => r matches Ok(p) && pattern_view(p) == v && p.wf(),
        Err(m) => r matches Err(e) && e@ == m,
    }
}

/// The Euclidean rhythm of `pulses` over `steps` rotated by `rotation`,
/// one gate per step, static cells and no holds.
pub fn euclid_gate_pattern(pulses: usize, steps: usize, rotation: usize) -> (r: ParsedGatePattern)
    ensures
        bool_grid(r.gates@) == spec_euclid(pulses as nat, steps as nat, rotation as nat).map_values(
            |g: bool| seq![g],
        ),
        cell_grid(r.cells@) == spec_euclid(pulses as nat, steps as nat, rotation as nat).map_values(
            |g: bool| seq![CellView::Static(g)],
        ),
        hold_grid(r.holds@) == spec_euclid(pulses as nat, steps as nat, rotation as nat).map_values(
            |g: bool| seq![0usize],
        ),
        r.loop_start == 0,
        r.wf(),
{
    let hits = euclid(pulses, steps, rotation);
    let ghost e = spec_euclid(pulses as nat, steps as nat, rotation as nat);
    let mut gates: Vec<Vec<bool>> = Vec::new();
    let mut i: usize = 0;
    while i < hits.len()
        invariant
            i <= hits@.len(),
            hits@ == e,
            bool_grid(gates@) == e.subrange(0, i as int).map_values(|g: bool| seq![g]),
        decreases hits@.len() - i,
    {
        let ghost before = gates@;
        let mut row: Vec<bool> = Vec::new();
        row.push(hits[i]);
        assert(row@ =~= seq![e[i as int]]);
        gates.push(row);
        assert(bool_grid(gates@) =~= bool_grid(before).push(seq![e[i as int]]));
        assert(e.subrange(0, i + 1).map_values(|g: bool| seq![g]) =~= e.subrange(
            0,
            i as int,
        ).map_values(|g: bool| seq![g]).push(seq![e[i as int]]));
        i = i + 1;
    }
    assert(e.subrange(0, e.len() as int) =~= e);
    let cells = static_gate_cells_like(gates.as_slice());
    let holds = empty_holds_like(gates.as_slice());
    proof {
        assert(gates@.len() == e.len()) by {
            assert(bool_grid(gates@).len() == e.map_values(|g: bool| seq![g]).len());
        }
        assert forall|k: int| 0 <= k < gates@.len() implies #[trigger] gates@[k]@ == seq![e[k]] by {
            assert(bool_grid(gates@)[k] == gates@[k]@);
            assert(e.map_values(|g: bool| seq![g])[k] == seq![e[k]]);
        }
        assert(cell_grid(cells@) =~= e.map_values(|g: bool| seq![CellView::Static(g)])) by {
            assert forall|k: int| 0 <= k < e.len() implies cell_grid(cells@)[k] =~= seq![
                CellView::Static(e[k]),
            ] by {
                assert(gates@[k]@ == seq![e[k]]);
                assert(cells@[k]@.len() == 1);
                assert(cells@[k]@[0].view() == CellView::Static(gates@[k]@[0]));
            }
        }
        assert(hold_grid(holds@) =~= e.map_values(|g: bool| seq![0usize])) by {
            assert forall|k: int| 0 <= k < e.len() implies hold_grid(holds@)[k] =~= seq![0usize] by {
                assert(gates@[k]@ == seq![e[k]]);
                assert(holds@[k]@ == Seq::new(1, |x: int| 0usize));
            }
        }
        crate::gates::lemma_zero_holds_on_hits(bool_grid(gates@), hold_grid(holds@));
    }
    ParsedGatePattern { gates, cells, holds, loop_start: 0 }
}


/// The elements of `v` in the opposite order.
fn reversed<T>(v: Vec<T>) -> (r: Vec<T>)
    ensures
        r@ == v@.reverse(),
{
    let ghost orig = v@;
    let mut v = v;
    let mut out: Vec<T> = Vec::new();
    while v.len() > 0
        invariant
            v@.len() + out@.len() == orig.len(),
            v@ == orig.subrange(0, v@.len() as int),
            out@ == orig.reverse().subrange(0, out@.len() as int),
        decreases v@.len(),
    {
        let ghost before = out@;
        match v.pop() {
            Some(x) => {
                out.push(x);
            },
            None => {},
        }
        assert(out@ =~= orig.reverse().subrange(0, out@.len() as int));
    }
    assert(out@ =~= orig.reverse());
    out
}

/// Reverses a gate pattern step by step, the loop restarting at the start.
pub fn reverse_gate_pattern(p: ParsedGatePattern) -> (r: Result<ParsedGatePattern, String>)
    ensures
        result_is(
            r,
            built(
                PatternView {
                    gates: pattern_view(p).gates.reverse(),
                    cells: pattern_view(p).cells.reverse(),
                    holds: pattern_view(p).holds.reverse(),
                    loop_start: 0,
                },
            ),
        ),
{
    let ghost pv = pattern_view(p);
    let gates = reversed(p.gates);
    let cells = reversed(p.cells);
    let holds = reversed(p.holds);
    assert(bool_grid(gates@) =~= pv.gates.reverse());
    assert(cell_grid(cells@) =~= pv.cells.reverse());
    assert(hold_grid(holds@) =~= pv.holds.reverse());
    parsed_gate_pattern(gates, cells, holds, 0)
}

/// `s` repeated `n` times.
pub open spec fn repeat_seq<A>(s: Seq<A>, n: nat) -> Seq<A>
    decreases n,
{
    if n == 0 {
        Seq::empty()
    } else {
        repeat_seq(s, (n - 1) as nat) + s
    }
}

fn copy_bools(v: &Vec<bool>) -> (r: Vec<bool>)
    ensures
        r@ == v@,
{
    let mut out: Vec<bool> = Vec::new();
    let mut i: usize = 0;
    while i < v.len()
        invariant
            i <= v@.len(),
            out@ == v@.subrange(0, i as int),
        decreases v@.len() - i,
    {
        out.push(v[i]);
        assert(v@.subrange(0, i + 1) =~= v@.subrange(0, i as int).push(v@[i as int]));
        i = i + 1;
    }
    assert(v@.subrange(0, v@.len() as int) =~= v@);
    out
}

fn copy_holds(v: &Vec<usize>) -> (r: Vec<usize>)
    ensures
        r@ == v@,
{
    let mut out: Vec<usize> = Vec::new();
    let mut i: usize = 0;
    while i < v.len()
        invariant
            i <= v@.len(),
            out@ == v@.subrange(0, i as int),
        decreases v@.len() - i,
    {
        out.push(v[i]);
        assert(v@.subrange(0, i + 1) =~= v@.subrange(0, i as int).push(v@[i as int]));
        i = i + 1;
    }
    assert(v@.subrange(0, v@.len() as int) =~= v@);
    out
}

fn copy_cells(v: &Vec<GateCell>) -> (r: Vec<GateCell>)
    ensures
        r@.map_values(|c: GateCell| c.view()) == v@.map_values(|c: GateCell| c.view()),
{
    let mut out: Vec<GateCell> = Vec::new();
    let mut i: usize = 0;
    while i < v.len()
        invariant
            i <= v@.len(),
            out@.len() == i,
            forall|k: int| 0 <= k < i ==> (#[trigger] out@[k]).view() == v@[k].view(),
        decreases v@.len() - i,
    {
        out.push(v[i].duplicate());
        i = i + 1;
    }
    assert(out@.map_values(|c: GateCell| c.view()) =~= v@.map_values(|c: GateCell| c.view()));
    out
}

/// Plays a gate pattern `count` times in a row, the loop restarting at the
/// start.
pub fn repeat_gate_pattern(p: &ParsedGatePattern, count: usize) -> (r: Result<
    ParsedGatePattern,
    String,
>)
    ensures
        result_is(
            r,
            built(
                PatternView {
                    gates: repeat_seq(pattern_view(*p).gates, count as nat),
                    cells: repeat_seq(pattern_view(*p).cells, count as nat),
                    holds: repeat_seq(pattern_view(*p).holds, count as nat),
                    loop_start: 0,
                },
            ),
        ),
{
    let ghost pv = pattern_view(*p);
    let mut gates: Vec<Vec<bool>> = Vec::new();
    let mut cells: Vec<Vec<GateCell>> = Vec::new();
    let mut holds: Vec<Vec<usize>> = Vec::new();
    let mut k: usize = 0;
    assert(bool_grid(gates@) =~= repeat_seq(pv.gates, 0));
    assert(cell_grid(cells@) =~= repeat_seq(pv.cells, 0));
    assert(hold_grid(holds@) =~= repeat_seq(pv.holds, 0));
    while k < count
        invariant
            k <= count,
            pv == pattern_view(*p),
            bool_grid(gates@) == repeat_seq(pv.gates, k as nat),
            cell_grid(cells@) == repeat_seq(pv.cells, k as nat),
            hold_grid(holds@) == repeat_seq(pv.holds, k as nat),
        decreases count - k,
    {
        let ghost g0 = bool_grid(gates@);
        let ghost c0 = cell_grid(cells@);
        let ghost h0 = hold_grid(holds@);
        let mut i: usize = 0;
        while i < p.gates.len()
            invariant
                i <= p.gates@.len(),
                pv == pattern_view(*p),
                bool_grid(gates@) == g0 + pv.gates.subrange(0, i as int),
            decreases p.gates@.len() - i,
        {
            let ghost before = gates@;
            gates.push(copy_bools(&p.gates[i]));
            assert(bool_grid(gates@) =~= bool_grid(before).push(p.gates@[i as int]@));
            assert(pv.gates.subrange(0, i + 1) =~= pv.gates.subrange(0, i as int).push(
                p.gates@[i as int]@,
            ));
            i = i + 1;
        }
        let mut i: usize = 0;
        while i < p.cells.len()
            invariant
                i <= p.cells@.len(),
                pv == pattern_view(*p),
                cell_grid(cells@) == c0 + pv.cells.subrange(0, i as int),
            decreases p.cells@.len() - i,
        {
            let ghost before = cells@;
            cells.push(copy_cells(&p.cells[i]));
            assert(cell_grid(cells@) =~= cell_grid(before).push(
                p.cells@[i as int]@.map_values(|c: GateCell| c.view()),
            ));
            assert(pv.cells.subrange(0, i + 1) =~= pv.cells.subrange(0, i as int).push(
                p.cells@[i as int]@.map_values(|c: GateCell| c.view()),
            ));
            i = i + 1;
        }
        let mut i: usize = 0;
        while i < p.holds.len()
            invariant
                i <= p.holds@.len(),
                pv == pattern_view(*p),
                hold_grid(holds@) == h0 + pv.holds.subrange(0, i as int),
            decreases p.holds@.len() - i,
        {
            let ghost before = holds@;
            holds.push(copy_holds(&p.holds[i]));
            assert(hold_grid(holds@) =~= hold_grid(before).push(p.holds@[i as int]@));
            assert(pv.holds.subrange(0, i + 1) =~= pv.holds.subrange(0, i as int).push(
                p.holds@[i as int]@,
            ));
            i = i + 1;
        }
        assert(pv.gates.subrange(0, pv.gates.len() as int) =~= pv.gates);
        assert(pv.cells.subrange(0, pv.cells.len() as int) =~= pv.cells);
        assert(pv.holds.subrange(0, pv.holds.len() as int) =~= pv.holds);
        k = k + 1;
    }
    parsed_gate_pattern(gates, cells, holds, 0)
}

/// The gates of a sequence of patterns, one after the other.
pub open spec fn concat_gates(s: Seq<PatternView>) -> Seq<Seq<bool>>
    decreases s.len(),
{
    if s.len() == 0 {
        Seq::empty()
    } else {
        concat_gates(s.drop_last()) + s.last().gates
    }
}

/// The cells of a sequence of patterns, one after the other.
pub open spec fn concat_cells(s: Seq<PatternView>) -> Seq<Seq<CellView>>
    decreases s.len(),
{
    if s.len() == 0 {
        Seq::empty()
    } else {
        concat_cells(s.drop_last()) + s.last().cells
    }
}

/// The holds of a sequence of patterns, one after the other.
pub open spec fn concat_holds(s: Seq<PatternView>) -> Seq<Seq<usize>>
    decreases s.len(),
{
    if s.len() == 0 {
        Seq::empty()
    } else {
        concat_holds(s.drop_last()) + s.last().holds
    }
}

/// Plays gate patterns one after the other (`then`): the loop restarts at
/// the last pattern, or at the start when the last pattern is a `times`;
/// at least two patterns are needed.
pub fn chain_gate_patterns(stages: Vec<ParsedGatePattern>, last_is_times: bool) -> (r: Result<
    ParsedGatePattern,
    String,
>)
    ensures
        ({
            let vs = stages@.map_values(|p: ParsedGatePattern| pattern_view(p));
            if vs.len() < 2 {
                r matches Err(e) && e@ == "then expects at least two patterns"@
            } else {
                result_is(
                    r,
                    built(
                        PatternView {
                            gates: concat_gates(vs),
                            cells: concat_cells(vs),
                            holds: concat_holds(vs),
                            loop_start: if last_is_times {
                                0
                            } else {
                                concat_gates(vs.drop_last()).len()
                            },
                        },
                    ),
                )
            }
        }),
{
    let ghost vs = stages@.map_values(|p: ParsedGatePattern| pattern_view(p));
    let n = stages.len();
    if n < 2 {
        return Err(String::from_str("then expects at least two patterns"));
    }
    let mut stages = stages;
    let mut gates: Vec<Vec<bool>> = Vec::new();
    let mut cells: Vec<Vec<GateCell>> = Vec::new();
    let mut holds: Vec<Vec<usize>> = Vec::new();
    let mut loop_start: usize = 0;
    let mut idx: usize = 0;
    assert(bool_grid(gates@) =~= concat_gates(vs.subrange(0, 0)));
    assert(cell_grid(cells@) =~= concat_cells(vs.subrange(0, 0)));
    assert(hold_grid(holds@) =~= concat_holds(vs.subrange(0, 0)));
    while idx < n
        invariant
            idx <= n,
            n == vs.len(),
            stages@.len() == n - idx,
            forall|j: int| 0 <= j < stages@.len() ==> pattern_view(#[trigger] stages@[j]) == vs[idx + j],
            bool_grid(gates@) == concat_gates(vs.subrange(0, idx as int)),
            cell_grid(cells@) == concat_cells(vs.subrange(0, idx as int)),
            hold_grid(holds@) == concat_holds(vs.subrange(0, idx as int)),
            loop_start == if !last_is_times && idx == n {
                concat_gates(vs.drop_last()).len()
            } else {
                0
            },
        decreases n - idx,
    {
        if !last_is_times && idx == n - 1 {
            loop_start = gates.len();
            assert(vs.subrange(0, idx as int) =~= vs.drop_last());
        }
        let ghost before_stages = stages@;
        let mut stage = stages.remove(0);
        assert(pattern_view(stage) == vs[idx as int]);
        assert forall|j: int| 0 <= j < stages@.len() implies pattern_view(#[trigger] stages@[j])
            == vs[idx + 1 + j] by {
            assert(stages@[j] == before_stages[j + 1]);
        }
        let ghost g0 = gates@;
        let ghost c0 = cells@;
        let ghost h0 = holds@;
        gates.append(&mut stage.gates);
        cells.append(&mut stage.cells);
        holds.append(&mut stage.holds);
        proof {
            assert(vs.subrange(0, idx + 1).drop_last() =~= vs.subrange(0, idx as int));
            assert(vs.subrange(0, idx + 1).last() == vs[idx as int]);
            assert(bool_grid(gates@) =~= bool_grid(g0) + vs[idx as int].gates);
            assert(cell_grid(cells@) =~= cell_grid(c0) + vs[idx as int].cells);
            assert(hold_grid(holds@) =~= hold_grid(h0) + vs[idx as int].holds);
        }
        idx = idx + 1;
    }
    assert(vs.subrange(0, n as int) =~= vs);
    parsed_gate_pattern(gates, cells, holds, loop_start)
}


/// A pattern played `n` times has `n` times as many steps, step `i` being
/// step `i` modulo the pattern's length.
pub proof fn lemma_repeat_shape<A>(s: Seq<A>, n: nat)
    ensures
        repeat_seq(s, n).len() == n * s.len(),
        forall|i: int|
            0 <= i < repeat_seq(s, n).len() ==> #[trigger] repeat_seq(s, n)[i] == s[i % s.len() as int],
    decreases n,
{
    if n == 0 {
        assert(0 * s.len() == 0) by (nonlinear_arith);
    } else {
        lemma_repeat_shape(s, (n - 1) as nat);
        let prev = repeat_seq(s, (n - 1) as nat);
        let len = s.len() as int;
        assert(prev.len() == (n - 1) * s.len());
        assert((n - 1) * s.len() + s.len() == n * s.len()) by (nonlinear_arith);
        assert(repeat_seq(s, n) == prev + s);
        assert forall|i: int| 0 <= i < repeat_seq(s, n).len() implies #[trigger] repeat_seq(s, n)[i]
            == s[i % s.len() as int] by {
            if i < prev.len() {
                assert(repeat_seq(s, n)[i] == prev[i]);
            } else {
                let k = i - prev.len();
                assert(0 <= k < len);
                assert(repeat_seq(s, n)[i] == s[k]);
                assert(i == len * ((n - 1) as int) + k) by (nonlinear_arith)
                    requires
                        k == i - prev.len(),
                        prev.len() == (n - 1) * s.len(),
                        len == s.len(),
                ;
                vstd::arithmetic::div_mod::lemma_mod_multiples_vanish((n - 1) as int, k, len);
                vstd::arithmetic::div_mod::lemma_small_mod(k as nat, len as nat);
            }
        }
    }
}

/// Reversing a pattern's steps twice gives them back.
pub proof fn lemma_reverse_twice(v: PatternView)
    ensures
        v.gates.reverse().reverse() == v.gates,
        v.cells.reverse().reverse() == v.cells,
        v.holds.reverse().reverse() == v.holds,
{
    assert(v.gates.reverse().reverse() =~= v.gates);
    assert(v.cells.reverse().reverse() =~= v.cells);
    assert(v.holds.reverse().reverse() =~= v.holds);
}

} // verus!
