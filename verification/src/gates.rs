use vstd::prelude::*;
use crate::model::{GateCell, CellView, HALF_CHANCE_PPM};
use crate::editor::{first_index_of, lemma_first_index_bounds};
use crate::text::chars_of;
use crate::arith::{parse_usize, parses_as_usize, digits_value, unsigned_digits};
use vstd::arithmetic::div_mod::lemma_fundamental_div_mod;
use vstd::arithmetic::div_mod::lemma_fundamental_div_mod_converse;

verus! {

broadcast use vstd::seq_lib::group_seq_properties;

/// The boolean rows of a gate grid.
pub open spec fn bool_grid(g: Seq<Vec<bool>>) -> Seq<Seq<bool>> {
    g.map_values(|v: Vec<bool>| v@)
}

/// The hold rows of a grid.
pub open spec fn hold_grid(g: Seq<Vec<usize>>) -> Seq<Seq<usize>> {
    g.map_values(|v: Vec<usize>| v@)
}

/// The cell rows of a grid.
pub open spec fn cell_grid(g: Seq<Vec<GateCell>>) -> Seq<Seq<CellView>> {
    g.map_values(|v: Vec<GateCell>| v@.map_values(|c: GateCell| c.view()))
}

/// Whether a cell reads as a hit before playback decides it: its static
/// value, the first value of its repeat pattern, or whether its chance is
/// at least one half.
pub open spec fn spec_gate_cell_preview(c: CellView) -> bool {
    match c {
        CellView::Static(g) => g,
        CellView::Repeat(v) => v.len() > 0 && v[0],
        CellView::Chance(p) => p >= HALF_CHANCE_PPM,
    }
}

/// Whether a cell reads as a hit when the pattern is drawn or previewed.
pub fn gate_cell_preview(cell: &GateCell) -> (r: bool)
    ensures
        r == spec_gate_cell_preview(cell.view()),
{
    match cell {
        GateCell::Static(g) => *g,
        GateCell::Repeat(v) => v.len() > 0 && v[0],
        GateCell::Chance(p) => *p >= HALF_CHANCE_PPM,
    }
}

fn append_bools(out: &mut Vec<bool>, v: &Vec<bool>)
    ensures
        final(out)@ == old(out)@ + v@,
{
    let mut i: usize = 0;
    while i < v.len()
        invariant
            i <= v@.len(),
            out@ == old(out)@ + v@.subrange(0, i as int),
        decreases v@.len() - i,
    {
        out.push(v[i]);
        assert(v@.subrange(0, i + 1) =~= v@.subrange(0, i as int).push(v@[i as int]));
        i = i + 1;
    }
    assert(v@.subrange(0, v@.len() as int) =~= v@);
}

fn append_usizes(out: &mut Vec<usize>, v: &Vec<usize>)
    ensures
        final(out)@ == old(out)@ + v@,
{
    let mut i: usize = 0;
    while i < v.len()
        invariant
            i <= v@.len(),
            out@ == old(out)@ + v@.subrange(0, i as int),
        decreases v@.len() - i,
    {
        out.push(v[i]);
        assert(v@.subrange(0, i + 1) =~= v@.subrange(0, i as int).push(v@[i as int]));
        i = i + 1;
    }
    assert(v@.subrange(0, v@.len() as int) =~= v@);
}

/// The gates of all steps, one after the other.
pub fn flatten_gate_grid(gates: &[Vec<bool>]) -> (r: Vec<bool>)
    ensures
        r@ == bool_grid(gates@).flatten(),
{
    let mut out: Vec<bool> = Vec::new();
    let mut i: usize = 0;
    while i < gates.len()
        invariant
            i <= gates@.len(),
            out@ == bool_grid(gates@).subrange(0, i as int).flatten(),
        decreases gates@.len() - i,
    {
        append_bools(&mut out, &gates[i]);
        proof {
            let g = bool_grid(gates@);
            assert(g.subrange(0, i + 1) =~= g.subrange(0, i as int).push(g[i as int]));
            g.subrange(0, i as int).lemma_flatten_push(g[i as int]);
        }
        i = i + 1;
    }
    assert(bool_grid(gates@).subrange(0, gates@.len() as int) =~= bool_grid(gates@));
    out
}

/// The holds of all steps, one after the other.
pub fn flatten_hold_grid(holds: &[Vec<usize>]) -> (r: Vec<usize>)
    ensures
        r@ == hold_grid(holds@).flatten(),
{
    let mut out: Vec<usize> = Vec::new();
    let mut i: usize = 0;
    while i < holds.len()
        invariant
            i <= holds@.len(),
            out@ == hold_grid(holds@).subrange(0, i as int).flatten(),
        decreases holds@.len() - i,
    {
        append_usizes(&mut out, &holds[i]);
        proof {
            let g = hold_grid(holds@);
            assert(g.subrange(0, i + 1) =~= g.subrange(0, i as int).push(g[i as int]));
            g.subrange(0, i as int).lemma_flatten_push(g[i as int]);
        }
        i = i + 1;
    }
    assert(hold_grid(holds@).subrange(0, holds@.len() as int) =~= hold_grid(holds@));
    out
}

/// Holds sit only on hits: every non-zero hold, counted across the
/// flattened grid, lines up with a gate that fires.
pub open spec fn holds_on_hits(gates: Seq<Seq<bool>>, holds: Seq<Seq<usize>>) -> bool {
    let g = gates.flatten();
    let h = holds.flatten();
    forall|i: int| 0 <= i < h.len() && #[trigger] h[i] != 0 ==> i < g.len() && g[i]
}

/// Checks that every hold is attached to a hit.
pub fn validate_gate_holds(gates: &[Vec<bool>], holds: &[Vec<usize>]) -> (r: Result<(), String>)
    ensures
        holds_on_hits(bool_grid(gates@), hold_grid(holds@)) ==> r is Ok,
        !holds_on_hits(bool_grid(gates@), hold_grid(holds@)) ==> (r matches Err(m) && m@
            == "gate hold can only be attached to a hit"@),
{
    let flat_gates = flatten_gate_grid(gates);
    let flat_holds = flatten_hold_grid(holds);
    let mut idx: usize = 0;
    while idx < flat_holds.len()
        invariant
            idx <= flat_holds@.len(),
            flat_gates@ == bool_grid(gates@).flatten(),
            flat_holds@ == hold_grid(holds@).flatten(),
            forall|i: int|
                0 <= i < idx && #[trigger] flat_holds@[i] != 0 ==> i < flat_gates@.len()
                    && flat_gates@[i],
        decreases flat_holds@.len() - idx,
    {
        if flat_holds[idx] != 0 {
            if !(idx < flat_gates.len() && flat_gates[idx]) {
                return Err(String::from_str("gate hold can only be attached to a hit"));
            }
        }
        idx = idx + 1;
    }
    Ok(())
}

/// A gate pattern as the sequencer plays it: per step the subdivided gates,
/// their cells and holds, and the step where the loop restarts.
#[derive(Clone, Debug)]
pub struct ParsedGatePattern {
    pub gates: Vec<Vec<bool>>,
    pub cells: Vec<Vec<GateCell>>,
    pub holds: Vec<Vec<usize>>,
    pub loop_start: usize,
}

impl ParsedGatePattern {
    /// Every hold of the pattern sits on a hit.
    pub open spec fn wf(&self) -> bool {
        holds_on_hits(bool_grid(self.gates@), hold_grid(self.holds@))
    }
}

/// Builds a gate pattern from its parts, refusing holds that are not on a
/// hit.
pub fn parsed_gate_pattern(
    gates: Vec<Vec<bool>>,
    cells: Vec<Vec<GateCell>>,
    holds: Vec<Vec<usize>>,
    loop_start: usize,
) -> (r: Result<ParsedGatePattern, String>)
    ensures
        holds_on_hits(bool_grid(gates@), hold_grid(holds@)) ==> (r matches Ok(p) && p.gates@
            == gates@ && p.cells@ == cells@ && p.holds@ == holds@ && p.loop_start == loop_start
            && p.wf()),
        !holds_on_hits(bool_grid(gates@), hold_grid(holds@)) ==> (r matches Err(m) && m@
            == "gate hold can only be attached to a hit"@),
{
    match validate_gate_holds(gates.as_slice(), holds.as_slice()) {
        Ok(()) => Ok(ParsedGatePattern { gates, cells, holds, loop_start }),
        Err(e) => Err(e),
    }
}

/// Static cells with the same gates as `gates`.
pub fn static_gate_cells_like(gates: &[Vec<bool>]) -> (r: Vec<Vec<GateCell>>)
    ensures
        r@.len() == gates@.len(),
        forall|i: int| 0 <= i < gates@.len() ==> (#[trigger] r@[i])@.len() == gates@[i]@.len(),
        forall|i: int, j: int|
            0 <= i < gates@.len() && 0 <= j < gates@[i]@.len() ==> (#[trigger] r@[i]@[j]).view()
                == CellView::Static(gates@[i]@[j]),
{
    let mut out: Vec<Vec<GateCell>> = Vec::new();
    let mut i: usize = 0;
    while i < gates.len()
        invariant
            i <= gates@.len(),
            out@.len() == i,
            forall|k: int| 0 <= k < i ==> (#[trigger] out@[k])@.len() == gates@[k]@.len(),
            forall|k: int, j: int|
                0 <= k < i && 0 <= j < gates@[k]@.len() ==> (#[trigger] out@[k]@[j]).view()
                    == CellView::Static(gates@[k]@[j]),
        decreases gates@.len() - i,
    {
        let step = &gates[i];
        let mut row: Vec<GateCell> = Vec::new();
        let mut j: usize = 0;
        while j < step.len()
            invariant
                j <= step@.len(),
                row@.len() == j,
                forall|k: int| 0 <= k < j ==> #[trigger] row@[k].view() == CellView::Static(step@[k]),
            decreases step@.len() - j,
        {
            row.push(GateCell::Static(step[j]));
            j = j + 1;
        }
        out.push(row);
        i = i + 1;
    }
    out
}

/// Zero holds shaped like `gates`, with at least one hold per step.
pub fn empty_holds_like(gates: &[Vec<bool>]) -> (r: Vec<Vec<usize>>)
    ensures
        r@.len() == gates@.len(),
        forall|i: int|
            0 <= i < gates@.len() ==> (#[trigger] r@[i])@ == Seq::new(
                if gates@[i]@.len() > 0 {
                    gates@[i]@.len()
                } else {
                    1
                },
                |k: int| 0usize,
            ),
{
    let mut out: Vec<Vec<usize>> = Vec::new();
    let mut i: usize = 0;
    while i < gates.len()
        invariant
            i <= gates@.len(),
            out@.len() == i,
            forall|k: int|
                0 <= k < i ==> (#[trigger] out@[k])@ == Seq::new(
                    if gates@[k]@.len() > 0 {
                        gates@[k]@.len()
                    } else {
                        1
                    },
                    |x: int| 0usize,
                ),
        decreases gates@.len() - i,
    {
        let n = if gates[i].len() > 0 {
            gates[i].len()
        } else {
            1
        };
        let row: Vec<usize> = vec![0; n];
        assert(row@ =~= Seq::new(n as nat, |x: int| 0usize));
        out.push(row);
        i = i + 1;
    }
    out
}

/// Zero holds satisfy any gates: a pattern whose holds all come from
/// `empty_holds_like` never fails the hold check.
pub proof fn lemma_zero_holds_on_hits(gates: Seq<Seq<bool>>, holds: Seq<Seq<usize>>)
    requires
        forall|i: int, j: int|
            0 <= i < holds.len() && 0 <= j < holds[i].len() ==> #[trigger] holds[i][j] == 0,
    ensures
        holds_on_hits(gates, holds),
{
    lemma_flatten_zero(holds);
}

proof fn lemma_flatten_zero(holds: Seq<Seq<usize>>)
    requires
        forall|i: int, j: int|
            0 <= i < holds.len() && 0 <= j < holds[i].len() ==> #[trigger] holds[i][j] == 0,
    ensures
        forall|k: int| 0 <= k < holds.flatten().len() ==> #[trigger] holds.flatten()[k] == 0,
    decreases holds.len(),
{
    if holds.len() > 0 {
        let rest = holds.drop_first();
        assert forall|i: int, j: int|
            0 <= i < rest.len() && 0 <= j < rest[i].len() implies #[trigger] rest[i][j] == 0 by {
            assert(rest[i] == holds[i + 1]);
        }
        lemma_flatten_zero(rest);
        let f = holds.flatten();
        assert(f == holds.first() + rest.flatten());
        assert forall|k: int| 0 <= k < f.len() implies #[trigger] f[k] == 0 by {
            if k < holds.first().len() {
                assert(holds[0][k] == 0);
            } else {
                assert(f[k] == rest.flatten()[k - holds.first().len()]);
            }
        }
    }
}

/// One subdivision of a step: whether it fires in previews, how it plays,
/// and how many extra steps it holds.
#[derive(Clone, Debug)]
pub struct GateSlot {
    pub gate: bool,
    pub cell: GateCell,
    pub hold: usize,
}

pub ghost struct SlotView {
    pub gate: bool,
    pub cell: CellView,
    pub hold: usize,
}

impl GateSlot {
    pub open spec fn view(&self) -> SlotView {
        SlotView { gate: self.gate, cell: self.cell.view(), hold: self.hold }
    }

    /// A copy of the slot.
    pub fn duplicate(&self) -> (r: GateSlot)
        ensures
            r.view() == self.view(),
    {
        GateSlot { gate: self.gate, cell: self.cell.duplicate(), hold: self.hold }
    }
}

pub open spec fn slot_views(v: Seq<GateSlot>) -> Seq<SlotView> {
    v.map_values(|s: GateSlot| s.view())
}

/// A slot that never fires.
pub open spec fn silent_slot() -> SlotView {
    SlotView { gate: false, cell: CellView::Static(false), hold: 0 }
}

/// The gates of a grid of slots.
pub open spec fn slot_gates(steps: Seq<Seq<SlotView>>) -> Seq<Seq<bool>> {
    steps.map_values(|row: Seq<SlotView>| row.map_values(|s: SlotView| s.gate))
}

/// The holds of a grid of slots.
pub open spec fn slot_holds(steps: Seq<Seq<SlotView>>) -> Seq<Seq<usize>> {
    steps.map_values(|row: Seq<SlotView>| row.map_values(|s: SlotView| s.hold))
}

/// The cells of a grid of slots.
pub open spec fn slot_cells(steps: Seq<Seq<SlotView>>) -> Seq<Seq<CellView>> {
    steps.map_values(|row: Seq<SlotView>| row.map_values(|s: SlotView| s.cell))
}

pub open spec fn slot_grid(steps: Seq<Vec<GateSlot>>) -> Seq<Seq<SlotView>> {
    steps.map_values(|row: Vec<GateSlot>| slot_views(row@))
}

/// Splits a grid of slots into a gate pattern, refusing holds that are not
/// on a hit.
pub fn gate_pattern_from_steps(steps: Vec<Vec<GateSlot>>) -> (r: Result<ParsedGatePattern, String>)
    ensures
        ({
            let g = slot_grid(steps@);
            if holds_on_hits(slot_gates(g), slot_holds(g)) {
                r matches Ok(p) && bool_grid(p.gates@) == slot_gates(g) && hold_grid(p.holds@)
                    == slot_holds(g) && cell_grid(p.cells@) == slot_cells(g) && p.loop_start == 0
                    && p.wf()
            } else {
                r matches Err(m) && m@ == "gate hold can only be attached to a hit"@
            }
        }),
{
    let ghost g = slot_grid(steps@);
    let mut gates: Vec<Vec<bool>> = Vec::new();
    let mut cells: Vec<Vec<GateCell>> = Vec::new();
    let mut holds: Vec<Vec<usize>> = Vec::new();
    let mut i: usize = 0;
    while i < steps.len()
        invariant
            i <= steps@.len(),
            g == slot_grid(steps@),
            gates@.len() == i,
            cells@.len() == i,
            holds@.len() == i,
            forall|k: int| 0 <= k < i ==> #[trigger] bool_grid(gates@)[k] == slot_gates(g)[k],
            forall|k: int| 0 <= k < i ==> #[trigger] hold_grid(holds@)[k] == slot_holds(g)[k],
            forall|k: int| 0 <= k < i ==> #[trigger] cell_grid(cells@)[k] == slot_cells(g)[k],
        decreases steps@.len() - i,
    {
        let row = &steps[i];
        let mut grow: Vec<bool> = Vec::new();
        let mut crow: Vec<GateCell> = Vec::new();
        let mut hrow: Vec<usize> = Vec::new();
        let mut j: usize = 0;
        while j < row.len()
            invariant
                j <= row@.len(),
                grow@.len() == j,
                crow@.len() == j,
                hrow@.len() == j,
                forall|k: int| 0 <= k < j ==> #[trigger] grow@[k] == row@[k].gate,
                forall|k: int| 0 <= k < j ==> #[trigger] hrow@[k] == row@[k].hold,
                forall|k: int| 0 <= k < j ==> #[trigger] crow@[k].view() == row@[k].cell.view(),
            decreases row@.len() - j,
        {
            grow.push(row[j].gate);
            crow.push(row[j].cell.duplicate());
            hrow.push(row[j].hold);
            j = j + 1;
        }
        proof {
            assert(grow@ =~= slot_gates(g)[i as int]);
            assert(hrow@ =~= slot_holds(g)[i as int]);
            assert(crow@.map_values(|c: GateCell| c.view()) =~= slot_cells(g)[i as int]);
        }
        let ghost pg = gates@;
        let ghost pc = cells@;
        let ghost ph = holds@;
        gates.push(grow);
        cells.push(crow);
        holds.push(hrow);
        proof {
            assert forall|k: int| 0 <= k < i + 1 implies #[trigger] bool_grid(gates@)[k]
                == slot_gates(g)[k] by {
                if k < i {
                    assert(gates@[k] == pg[k]);
                    assert(bool_grid(pg)[k] == slot_gates(g)[k]);
                }
            }
            assert forall|k: int| 0 <= k < i + 1 implies #[trigger] hold_grid(holds@)[k]
                == slot_holds(g)[k] by {
                if k < i {
                    assert(holds@[k] == ph[k]);
                    assert(hold_grid(ph)[k] == slot_holds(g)[k]);
                }
            }
            assert forall|k: int| 0 <= k < i + 1 implies #[trigger] cell_grid(cells@)[k]
                == slot_cells(g)[k] by {
                if k < i {
                    assert(cells@[k] == pc[k]);
                    assert(cell_grid(pc)[k] == slot_cells(g)[k]);
                }
            }
        }
        i = i + 1;
    }
    assert(bool_grid(gates@) =~= slot_gates(g));
    assert(hold_grid(holds@) =~= slot_holds(g));
    assert(cell_grid(cells@) =~= slot_cells(g));
    parsed_gate_pattern(gates, cells, holds, 0)
}

/// The slots of a cell widened to `width` subdivisions (at least one): each
/// firing slot `idx` moves to position `idx * (width / len)`, later slots
/// overwriting earlier ones, and every other position is silent.
pub open spec fn spec_expand_upto(pattern: Seq<SlotView>, width: nat, scale: nat, k: int) -> Seq<
    SlotView,
>
    decreases k,
{
    if k <= 0 {
        Seq::new(width, |i: int| silent_slot())
    } else {
        let prev = spec_expand_upto(pattern, width, scale, k - 1);
        if pattern[k - 1].gate {
            prev.update((k - 1) * scale, pattern[k - 1])
        } else {
            prev
        }
    }
}

pub open spec fn spec_expand_gate_cell(pattern: Seq<SlotView>, width: nat) -> Seq<SlotView> {
    let w = if width == 0 { 1 } else { width };
    if pattern.len() == 0 {
        Seq::new(w, |i: int| silent_slot())
    } else {
        spec_expand_upto(pattern, w, w / pattern.len(), pattern.len() as int)
    }
}

proof fn lemma_expand_upto_shape(pattern: Seq<SlotView>, width: nat, scale: nat, k: int)
    requires
        scale >= 1,
        0 <= k <= pattern.len(),
        pattern.len() * scale <= width,
    ensures
        spec_expand_upto(pattern, width, scale, k).len() == width,
        forall|j: int|
            0 <= j < width ==> #[trigger] spec_expand_upto(pattern, width, scale, k)[j] == if j
                % (scale as int) == 0 && j / (scale as int) < k && pattern[j / (scale as int)].gate {
                pattern[j / (scale as int)]
            } else {
                silent_slot()
            },
    decreases k,
{
    if k > 0 {
        lemma_expand_upto_shape(pattern, width, scale, k - 1);
        let prev = spec_expand_upto(pattern, width, scale, k - 1);
        let s = scale as int;
        assert((k - 1) * s < width) by (nonlinear_arith)
            requires
                k <= pattern.len(),
                pattern.len() * scale <= width,
                s == scale,
                s >= 1,
        ;
        assert forall|j: int| 0 <= j < width implies #[trigger] spec_expand_upto(
            pattern,
            width,
            scale,
            k,
        )[j] == if j % s == 0 && j / s < k && pattern[j / s].gate {
            pattern[j / s]
        } else {
            silent_slot()
        } by {
            lemma_fundamental_div_mod(j, s);
            if j == (k - 1) * s {
                lemma_fundamental_div_mod_converse(j, s, k - 1, 0);
            } else if j % s == 0 && j / s == k - 1 {
                assert(j == s * (j / s));
                assert(s * (k - 1) == (k - 1) * s) by (nonlinear_arith);
            }
        }
    }
}

/// When the width is a positive multiple of the cell's slot count, widening
/// spreads the slots evenly: slot `idx` lands at `idx * (width / len)` if it
/// fires, and every other position is silent; so the cell keeps its hits.
pub proof fn lemma_expand_gate_cell_even(pattern: Seq<SlotView>, width: nat)
    requires
        pattern.len() > 0,
        width >= pattern.len(),
        width % pattern.len() == 0,
    ensures
        spec_expand_gate_cell(pattern, width).len() == width,
        forall|j: int|
            0 <= j < width ==> #[trigger] spec_expand_gate_cell(pattern, width)[j] == if j % (
            width / pattern.len()) as int == 0 && pattern[j / (width / pattern.len()) as int].gate {
                pattern[j / (width / pattern.len()) as int]
            } else {
                silent_slot()
            },
{
    let n = pattern.len() as int;
    let scale = width / pattern.len();
    lemma_fundamental_div_mod(width as int, n);
    assert(width == n * scale);
    assert(scale >= 1) by (nonlinear_arith)
        requires
            width == n * scale,
            width >= n,
            n > 0,
    ;
    assert(pattern.len() * scale <= width) by (nonlinear_arith)
        requires
            width == n * scale,
            n == pattern.len(),
    ;
    lemma_expand_upto_shape(pattern, width, scale, n);
    assert forall|j: int| 0 <= j < width implies #[trigger] spec_expand_gate_cell(pattern, width)[j]
        == if j % (width / pattern.len()) as int == 0 && pattern[j / (width
        / pattern.len()) as int].gate {
        pattern[j / (width / pattern.len()) as int]
    } else {
        silent_slot()
    } by {
        lemma_fundamental_div_mod(j, scale as int);
        assert(j / (scale as int) < n) by (nonlinear_arith)
            requires
                j < width,
                width == n * scale,
                j == (scale as int) * (j / (scale as int)) + j % (scale as int),
                0 <= j % (scale as int),
                scale >= 1,
        ;
    }
}

fn silent() -> (r: GateSlot)
    ensures
        r.view() == silent_slot(),
{
    GateSlot { gate: false, cell: GateCell::Static(false), hold: 0 }
}

/// Widens the slots of one cell to `width` subdivisions (see
/// `spec_expand_gate_cell`).
pub fn expand_gate_cell(pattern: &[GateSlot], width: usize) -> (r: Vec<GateSlot>)
    ensures
        slot_views(r@) == spec_expand_gate_cell(slot_views(pattern@), width as nat),
{
    let w = if width > 1 { width } else { 1 };
    let mut expanded: Vec<GateSlot> = Vec::new();
    let mut i: usize = 0;
    while i < w
        invariant
            i <= w,
            slot_views(expanded@) == Seq::new(i as nat, |x: int| silent_slot()),
        decreases w - i,
    {
        let ghost prev = slot_views(expanded@);
        expanded.push(silent());
        assert(slot_views(expanded@) =~= prev.push(silent_slot()));
        assert(slot_views(expanded@) =~= Seq::new((i + 1) as nat, |x: int| silent_slot()));
        i = i + 1;
    }
    if pattern.len() == 0 {
        return expanded;
    }
    let ghost pv = slot_views(pattern@);
    let scale = w / pattern.len();
    assert(spec_expand_upto(pv, w as nat, scale as nat, 0) =~= slot_views(expanded@));
    let mut idx: usize = 0;
    while idx < pattern.len()
        invariant
            idx <= pattern@.len(),
            pattern@.len() > 0,
            pv == slot_views(pattern@),
            scale == w as nat / pattern@.len(),
            w >= 1,
            expanded@.len() == w,
            slot_views(expanded@) == spec_expand_upto(pv, w as nat, scale as nat, idx as int),
        decreases pattern@.len() - idx,
    {
        if pattern[idx].gate {
            assert(idx * scale < w) by (nonlinear_arith)
                requires
                    idx < pattern@.len(),
                    scale == w as nat / pattern@.len(),
                    w >= 1,
                    pattern@.len() > 0,
            ;
            let ghost before = slot_views(expanded@);
            expanded.set(idx * scale, pattern[idx].duplicate());
            assert(slot_views(expanded@) =~= before.update((idx * scale) as int, pv[idx as int]));
        }
        idx = idx + 1;
    }
    expanded
}

/// The pieces of `s` between occurrences of `c` (`str::split`): one more
/// piece than there are separators.
pub open spec fn split_char(s: Seq<char>, c: char) -> Seq<Seq<char>>
    decreases s.len(),
{
    let k = first_index_of(s, c);
    if k < 0 {
        seq![s]
    } else {
        proof {
            lemma_first_index_bounds(s, c);
        }
        seq![s.subrange(0, k)] + split_char(s.subrange(k + 1, s.len() as int), c)
    }
}

pub open spec fn is_bit_text(p: Seq<char>) -> bool {
    p == seq!['0'] || p == seq!['1']
}

/// The values of a repeat gate token such as `1%0%1%0`, or the error that
/// `parse_gate_repeat_token` reports.
pub open spec fn spec_parse_gate_repeat_token(t: Seq<char>) -> Result<Seq<bool>, Seq<char>> {
    if t.len() > 0 && (t[0] == '%' || t.last() == '%') {
        Err("repeat gate cells use values separated by %, like 1%0%1%0"@)
    } else {
        let parts = split_char(t, '%');
        if forall|i: int| 0 <= i < parts.len() ==> is_bit_text(#[trigger] parts[i]) {
            Ok(parts.map_values(|p: Seq<char>| p == seq!['1']))
        } else {
            Err("repeat gate cells only accept 0 and 1 values, like 1%0%1%0"@)
        }
    }
}

proof fn lemma_split_after_prefix(cur: Seq<char>, rest: Seq<char>, c: char)
    requires
        forall|j: int| 0 <= j < cur.len() ==> cur[j] != c,
        rest.len() > 0,
        rest[0] == c,
    ensures
        split_char(cur + rest, c) == seq![cur] + split_char(rest.drop_first(), c),
{
    crate::editor::lemma_first_index_after_prefix(cur, rest, c);
    let t = cur + rest;
    assert(first_index_of(rest, c) == 0);
    assert(t.subrange(0, cur.len() as int) =~= cur);
    assert(t.subrange(cur.len() as int + 1, t.len() as int) =~= rest.drop_first());
}

proof fn lemma_split_no_sep(cur: Seq<char>, c: char)
    requires
        forall|j: int| 0 <= j < cur.len() ==> cur[j] != c,
    ensures
        split_char(cur, c) == seq![cur],
{
    lemma_first_index_bounds(cur, c);
    if first_index_of(cur, c) >= 0 {
        assert(cur[first_index_of(cur, c)] == c);
    }
}

/// Reads a repeat gate token such as `1%0%1%0` into its on/off values.
pub fn parse_gate_repeat_token(token: &str) -> (r: Result<Vec<bool>, String>)
    ensures
        match spec_parse_gate_repeat_token(token@) {
            Ok(v) => r matches Ok(x) && x@ == v,
            Err(e) => r matches Err(m) && m@ == e,
        },
{
    let t = chars_of(token);
    if t.len() > 0 && (t[0] == '%' || t[t.len() - 1] == '%') {
        return Err(String::from_str("repeat gate cells use values separated by %, like 1%0%1%0"));
    }
    let ghost s = t@;
    let mut values: Vec<bool> = Vec::new();
    let mut cur: Vec<char> = Vec::new();
    let mut i: usize = 0;
    assert(cur@ + s.subrange(0, s.len() as int) =~= s);
    while i < t.len()
        invariant
            s == t@,
            s == token@,
            !(s.len() > 0 && (s[0] == '%' || s.last() == '%')),
            i <= s.len(),
            forall|j: int| 0 <= j < cur@.len() ==> cur@[j] != '%',
            ({
                let done = split_char(s, '%').subrange(0, values@.len() as int);
                &&& values@.len() <= split_char(s, '%').len()
                &&& forall|j: int| 0 <= j < done.len() ==> is_bit_text(#[trigger] done[j])
                &&& values@ == done.map_values(|p: Seq<char>| p == seq!['1'])
                &&& split_char(s, '%') == done + split_char(cur@ + s.subrange(i as int, s.len() as int), '%')
            }),
        decreases s.len() - i,
    {
        let c = t[i];
        let ghost rest = s.subrange(i as int, s.len() as int);
        let ghost rest_after = s.subrange(i + 1, s.len() as int);
        assert(rest =~= seq![c] + rest_after);
        if c == '%' {
            proof {
                lemma_split_after_prefix(cur@, rest, '%');
                assert(rest.drop_first() =~= rest_after);
            }
            let bit = if cur.len() == 1 && cur[0] == '0' {
                false
            } else if cur.len() == 1 && cur[0] == '1' {
                true
            } else {
                proof {
                    let done = split_char(s, '%').subrange(0, values@.len() as int);
                    let idx = values@.len() as int;
                    assert(split_char(s, '%')[idx] == cur@);
                    assert(!is_bit_text(split_char(s, '%')[idx]));
                }
                return Err(
                    String::from_str("repeat gate cells only accept 0 and 1 values, like 1%0%1%0"),
                );
            };
            proof {
                let sp = split_char(s, '%');
                let n = values@.len() as int;
                assert(sp[n] == cur@);
                assert(sp.subrange(0, n + 1) =~= sp.subrange(0, n).push(cur@));
                assert(cur@ =~= seq!['0'] || cur@ =~= seq!['1']);
                assert((sp.subrange(0, n) + (seq![cur@] + split_char(rest_after, '%')))
                    =~= sp.subrange(0, n + 1) + split_char(rest_after, '%'));
            }
            values.push(bit);
            proof {
                let sp = split_char(s, '%');
                let n = values@.len() as int;
                assert(values@ =~= sp.subrange(0, n).map_values(|p: Seq<char>| p == seq!['1']));
            }
            cur = Vec::new();
            assert(cur@ + rest_after =~= rest_after);
        } else {
            let ghost old_cur = cur@;
            cur.push(c);
            assert(cur@ + rest_after =~= old_cur + rest);
        }
        i = i + 1;
    }
    assert(cur@ + s.subrange(s.len() as int, s.len() as int) =~= cur@);
    proof {
        lemma_split_no_sep(cur@, '%');
    }
    if cur.len() == 1 && (cur[0] == '0' || cur[0] == '1') {
        let bit = cur[0] == '1';
        proof {
            let sp = split_char(s, '%');
            let n = values@.len() as int;
            assert(sp[n] == cur@);
            assert(sp.subrange(0, n + 1) =~= sp);
            assert(cur@ =~= seq!['0'] || cur@ =~= seq!['1']);
        }
        values.push(bit);
        proof {
            let sp = split_char(s, '%');
            assert(values@ =~= sp.map_values(|p: Seq<char>| p == seq!['1']));
        }
        if values.len() == 0 {
            return Err(String::from_str("repeat gate cells need at least one value"));
        }
        Ok(values)
    } else {
        proof {
            let sp = split_char(s, '%');
            let n = values@.len() as int;
            assert(sp[n] == cur@);
            assert(!is_bit_text(cur@));
        }
        Err(String::from_str("repeat gate cells only accept 0 and 1 values, like 1%0%1%0"))
    }
}

} // verus!
