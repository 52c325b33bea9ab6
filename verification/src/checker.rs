use vstd::prelude::*;
use crate::field::{Felt, lemma_felt_eq_by_val};
use crate::cs::{ConstraintSystem, Gate, Lookup, pair_ok};
use crate::expr::{Expr, EvalError, eval, eval_expr, expr_ok};
use crate::grid::{Cell, Grid, copy_cell_ok, lemma_flat_index};

verus! {

/// One reported violation. Gate, lookup and copy failures are
/// data-dependent: the witness does not satisfy the circuit. A
/// configuration error is reported when checking had to read a cell that
/// was never assigned, or a row outside the grid: such a circuit is
/// malformed, not merely failing, and checking stops at the first one.
#[derive(Clone, Copy, PartialEq, Eq, Structural, Debug)]
pub enum Failure {
    /// Some polynomial of gate `gate` does not vanish at `row`.
    Gate { gate: usize, row: usize },
    /// The input tuple of lookup `lookup` at `row` appears in no table row.
    Lookup { lookup: usize, row: usize },
    /// The two cells of a recorded copy constraint hold different values.
    Copy { a: Cell, b: Cell },
    /// Checking read a cell it could not resolve.
    ConfigError { err: EvalError },
}

/// Whether every polynomial of a gate, from index `i` on, vanishes at
/// `row`; the first evaluation error wins.
pub open spec fn gate_res(g: Grid, polys: Seq<Expr>, row: int, i: int) -> Result<bool, EvalError>
    decreases polys.len() - i,
{
    if i >= polys.len() {
        Ok(true)
    } else {
        match eval(polys[i], g, row) {
            Err(e) => Err(e),
            Ok(v) => match gate_res(g, polys, row, i + 1) {
                Err(e) => Err(e),
                Ok(b) => Ok(v == 0 && b),
            },
        }
    }
}

/// The integer values of a sequence of field elements.
pub open spec fn vals_of(s: Seq<Felt>) -> Seq<int> {
    Seq::new(s.len(), |i: int| s[i].val())
}

/// The values of a lookup's input expressions from index `i` on at `row`,
/// appended to `acc`; the first evaluation error wins.
pub open spec fn eval_inputs(
    g: Grid,
    pairs: Seq<(Expr, usize)>,
    row: int,
    i: int,
    acc: Seq<int>,
) -> Result<Seq<int>, EvalError>
    decreases pairs.len() - i,
{
    if i >= pairs.len() {
        Ok(acc)
    } else {
        match eval(pairs[i].0, g, row) {
            Err(e) => Err(e),
            Ok(v) => eval_inputs(g, pairs, row, i + 1, acc.push(v)),
        }
    }
}

/// Whether table row `t` carries exactly the tuple `vals` in the table
/// columns that the lookup's pairs name.
pub open spec fn tuple_matches(g: Grid, pairs: Seq<(Expr, usize)>, vals: Seq<int>, t: int) -> bool {
    forall|j: int|
        0 <= j < pairs.len() ==> (#[trigger] g.table_at(pairs[j].1 as int, t) matches Some(w)
            && w.val() == vals[j])
}

/// Whether the tuple `vals` appears in some table row: membership is over
/// the set of assigned table tuples, not aligned with the witness row.
pub open spec fn lookup_sat(g: Grid, pairs: Seq<(Expr, usize)>, vals: Seq<int>) -> bool {
    exists|t: int| 0 <= t < g.rows && tuple_matches(g, pairs, vals, t)
}

/// Failures of the gates from index `i` on at `row`, appended to `acc`.
pub open spec fn scan_gates(
    cs: ConstraintSystem,
    g: Grid,
    row: int,
    i: int,
    acc: Seq<Failure>,
) -> Result<Seq<Failure>, EvalError>
    decreases cs.gates@.len() - i,
{
    if i >= cs.gates@.len() {
        Ok(acc)
    } else {
        match gate_res(g, cs.gates@[i].polys@, row, 0) {
            Err(e) => Err(e),
            Ok(z) => scan_gates(
                cs,
                g,
                row,
                i + 1,
                if z {
                    acc
                } else {
                    acc.push(Failure::Gate { gate: i as usize, row: row as usize })
                },
            ),
        }
    }
}

/// Failures of the lookups from index `i` on at `row`, appended to `acc`.
pub open spec fn scan_lookups(
    cs: ConstraintSystem,
    g: Grid,
    row: int,
    i: int,
    acc: Seq<Failure>,
) -> Result<Seq<Failure>, EvalError>
    decreases cs.lookups@.len() - i,
{
    if i >= cs.lookups@.len() {
        Ok(acc)
    } else {
        match eval_inputs(g, cs.lookups@[i].pairs@, row, 0, Seq::empty()) {
            Err(e) => Err(e),
            Ok(vals) => scan_lookups(
                cs,
                g,
                row,
                i + 1,
                if lookup_sat(g, cs.lookups@[i].pairs@, vals) {
                    acc
                } else {
                    acc.push(Failure::Lookup { lookup: i as usize, row: row as usize })
                },
            ),
        }
    }
}

/// All gate failures, then all lookup failures, of one row.
pub open spec fn scan_row(cs: ConstraintSystem, g: Grid, row: int, acc: Seq<Failure>) -> Result<
    Seq<Failure>,
    EvalError,
> {
    match scan_gates(cs, g, row, 0, acc) {
        Err(e) => Err(e),
        Ok(a2) => scan_lookups(cs, g, row, 0, a2),
    }
}

/// Failures of the usable rows from `r` on, in row order.
pub open spec fn scan_rows(cs: ConstraintSystem, g: Grid, r: int, acc: Seq<Failure>) -> Result<
    Seq<Failure>,
    EvalError,
>
    decreases g.usable - r,
{
    if r >= g.usable {
        Ok(acc)
    } else {
        match scan_row(cs, g, r, acc) {
            Err(e) => Err(e),
            Ok(a2) => scan_rows(cs, g, r + 1, a2),
        }
    }
}

/// Whether the two cells of a copy constraint hold the same value; reading
/// an unassigned cell is an error, the first one winning.
pub open spec fn copy_res(g: Grid, a: Cell, b: Cell) -> Result<bool, EvalError> {
    match g.cell_at(a) {
        None => Err(EvalError::Unassigned { column: a.column, row: a.row }),
        Some(va) => match g.cell_at(b) {
            None => Err(EvalError::Unassigned { column: b.column, row: b.row }),
            Some(vb) => Ok(va.val() == vb.val()),
        },
    }
}

/// Failures of the recorded copy constraints from index `i` on.
pub open spec fn scan_copies(g: Grid, i: int, acc: Seq<Failure>) -> Result<Seq<Failure>, EvalError>
    decreases g.copies@.len() - i,
{
    if i >= g.copies@.len() {
        Ok(acc)
    } else {
        match copy_res(g, g.copies@[i].0, g.copies@[i].1) {
            Err(e) => Err(e),
            Ok(eq) => scan_copies(
                g,
                i + 1,
                if eq {
                    acc
                } else {
                    acc.push(Failure::Copy { a: g.copies@[i].0, b: g.copies@[i].1 })
                },
            ),
        }
    }
}

/// The full result of checking a grid against a configuration: every gate
/// and lookup failure of every usable row, in row order, followed by every
/// copy failure in recording order; or the first configuration error met.
pub open spec fn outcome(cs: ConstraintSystem, g: Grid) -> Result<Seq<Failure>, EvalError> {
    match scan_rows(cs, g, 0, Seq::empty()) {
        Err(e) => Err(e),
        Ok(acc) => scan_copies(g, 0, acc),
    }
}

/// Decides whether one gate vanishes entirely at one row.
fn check_gate(g: &Grid, gate: &Gate, row: usize) -> (r: Result<bool, EvalError>)
    requires
        g.wf(),
        row < g.rows,
        forall|t: int|
            0 <= t < gate.polys@.len() ==> expr_ok(
                #[trigger] gate.polys@[t],
                g.n_advice as int,
                g.n_fixed as int,
                g.n_selectors as int,
            ),
    ensures
        r == gate_res(*g, gate.polys@, row as int, 0),
{
    let mut i: usize = 0;
    let mut all_zero: bool = true;
    while i < gate.polys.len()
        invariant
            g.wf(),
            row < g.rows,
            forall|t: int|
                0 <= t < gate.polys@.len() ==> expr_ok(
                    #[trigger] gate.polys@[t],
                    g.n_advice as int,
                    g.n_fixed as int,
                    g.n_selectors as int,
                ),
            i <= gate.polys@.len(),
            gate_res(*g, gate.polys@, row as int, 0) == (match gate_res(
                *g,
                gate.polys@,
                row as int,
                i as int,
            ) {
                Err(e) => Err::<bool, EvalError>(e),
                Ok(b) => Ok::<bool, EvalError>(all_zero && b),
            }),
        decreases gate.polys@.len() - i,
    {
        match eval_expr(&gate.polys[i], g, row) {
            Err(e) => {
                return Err(e);
            },
            Ok(f) => {
                let z = f.is_zero();
                all_zero = all_zero && z;
            },
        }
        i = i + 1;
    }
    Ok(all_zero)
}

/// Evaluates a lookup's input tuple at one row.
fn check_inputs(g: &Grid, lk: &Lookup, row: usize) -> (r: Result<Vec<Felt>, EvalError>)
    requires
        g.wf(),
        row < g.rows,
        forall|t: int|
            0 <= t < lk.pairs@.len() ==> pair_ok(
                #[trigger] lk.pairs@[t],
                g.n_advice as int,
                g.n_fixed as int,
                g.n_selectors as int,
                g.n_table as int,
            ),
    ensures
        (match eval_inputs(*g, lk.pairs@, row as int, 0, Seq::empty()) {
            Ok(vals) => r matches Ok(v) && vals_of(v@) == vals && v@.len() == lk.pairs@.len() && (
            forall|t: int| 0 <= t < v@.len() ==> (#[trigger] v@[t]).wf()),
            Err(e) => r matches Err(e2) && e2 == e,
        }),
{
    let mut v: Vec<Felt> = Vec::new();
    proof {
        assert(vals_of(v@) =~= Seq::<int>::empty());
    }
    let mut i: usize = 0;
    while i < lk.pairs.len()
        invariant
            g.wf(),
            row < g.rows,
            forall|t: int|
                0 <= t < lk.pairs@.len() ==> pair_ok(
                    #[trigger] lk.pairs@[t],
                    g.n_advice as int,
                    g.n_fixed as int,
                    g.n_selectors as int,
                    g.n_table as int,
                ),
            i <= lk.pairs@.len(),
            v@.len() == i,
            forall|t: int| 0 <= t < v@.len() ==> (#[trigger] v@[t]).wf(),
            eval_inputs(*g, lk.pairs@, row as int, i as int, vals_of(v@)) == eval_inputs(
                *g,
                lk.pairs@,
                row as int,
                0,
                Seq::empty(),
            ),
        decreases lk.pairs@.len() - i,
    {
        match eval_expr(&lk.pairs[i].0, g, row) {
            Err(e) => {
                return Err(e);
            },
            Ok(f) => {
                let ghost pre = v@;
                v.push(f);
                proof {
                    assert(vals_of(v@) =~= vals_of(pre).push(f.val()));
                }
            },
        }
        i = i + 1;
    }
    Ok(v)
}

/// Decides whether table row `t` matches the tuple.
fn check_tuple(g: &Grid, lk: &Lookup, vals: &Vec<Felt>, t: usize) -> (b: bool)
    requires
        g.wf(),
        t < g.rows,
        vals@.len() == lk.pairs@.len(),
        forall|j: int| 0 <= j < vals@.len() ==> (#[trigger] vals@[j]).wf(),
        forall|j: int|
            0 <= j < lk.pairs@.len() ==> pair_ok(
                #[trigger] lk.pairs@[j],
                g.n_advice as int,
                g.n_fixed as int,
                g.n_selectors as int,
                g.n_table as int,
            ),
    ensures
        b == tuple_matches(*g, lk.pairs@, vals_of(vals@), t as int),
{
    let mut j: usize = 0;
    while j < lk.pairs.len()
        invariant
            g.wf(),
            t < g.rows,
            vals@.len() == lk.pairs@.len(),
            forall|x: int| 0 <= x < vals@.len() ==> (#[trigger] vals@[x]).wf(),
            forall|x: int|
                0 <= x < lk.pairs@.len() ==> pair_ok(
                    #[trigger] lk.pairs@[x],
                    g.n_advice as int,
                    g.n_fixed as int,
                    g.n_selectors as int,
                    g.n_table as int,
                ),
            j <= lk.pairs@.len(),
            forall|x: int|
                0 <= x < j ==> (#[trigger] g.table_at(lk.pairs@[x].1 as int, t as int) matches Some(
                    w,
                ) && w.val() == vals_of(vals@)[x]),
        decreases lk.pairs@.len() - j,
    {
        let tc = lk.pairs[j].1;
        proof {
            lemma_flat_index(tc as int, t as int, g.n_table as int, g.rows as int);
        }
        match g.table[tc * g.rows + t] {
            None => {
                proof {
                    assert(g.table_at(tc as int, t as int) is None);
                }
                return false;
            },
            Some(w) => {
                let ve = vals[j];
                proof {
                    lemma_felt_eq_by_val(w, ve);
                }
                if w != ve {
                    return false;
                }
            },
        }
        j = j + 1;
    }
    true
}

/// Decides whether the lookup's tuple appears in some table row.
fn check_lookup_sat(g: &Grid, lk: &Lookup, vals: &Vec<Felt>) -> (b: bool)
    requires
        g.wf(),
        vals@.len() == lk.pairs@.len(),
        forall|j: int| 0 <= j < vals@.len() ==> (#[trigger] vals@[j]).wf(),
        forall|j: int|
            0 <= j < lk.pairs@.len() ==> pair_ok(
                #[trigger] lk.pairs@[j],
                g.n_advice as int,
                g.n_fixed as int,
                g.n_selectors as int,
                g.n_table as int,
            ),
    ensures
        b == lookup_sat(*g, lk.pairs@, vals_of(vals@)),
{
    let mut t: usize = 0;
    let mut found: bool = false;
    while t < g.rows
        invariant
            g.wf(),
            vals@.len() == lk.pairs@.len(),
            forall|j: int| 0 <= j < vals@.len() ==> (#[trigger] vals@[j]).wf(),
            forall|j: int|
                0 <= j < lk.pairs@.len() ==> pair_ok(
                    #[trigger] lk.pairs@[j],
                    g.n_advice as int,
                    g.n_fixed as int,
                    g.n_selectors as int,
                    g.n_table as int,
                ),
            t <= g.rows,
            found == exists|u: int|
                0 <= u < t && tuple_matches(*g, lk.pairs@, vals_of(vals@), u),
        decreases g.rows - t,
    {
        if !found {
            let m = check_tuple(g, lk, vals, t);
            if m {
                found = true;
            }
        }
        t = t + 1;
    }
    found
}

/// Checks every gate, then every lookup, at one row, appending the
/// failures found.
fn check_row(cs: &ConstraintSystem, g: &Grid, row: usize, fails: &mut Vec<Failure>) -> (r: Result<
    (),
    EvalError,
>)
    requires
        cs.wf(),
        g.wf(),
        g.matches_cs(*cs),
        row < g.rows,
    ensures
        (match scan_row(*cs, *g, row as int, old(fails)@) {
            Ok(out) => r matches Ok(x) && final(fails)@ == out,
            Err(e) => r matches Err(e2) && e2 == e,
        }),
{
    let mut i: usize = 0;
    while i < cs.gates.len()
        invariant
            cs.wf(),
            g.wf(),
            g.matches_cs(*cs),
            row < g.rows,
            i <= cs.gates@.len(),
            scan_gates(*cs, *g, row as int, i as int, fails@) == scan_gates(
                *cs,
                *g,
                row as int,
                0,
                old(fails)@,
            ),
        decreases cs.gates@.len() - i,
    {
        let gr = check_gate(g, &cs.gates[i], row);
        match gr {
            Err(e) => {
                return Err(e);
            },
            Ok(z) => {
                if !z {
                    fails.push(Failure::Gate { gate: i, row });
                }
            },
        }
        i = i + 1;
    }
    let ghost gates_out = fails@;
    let mut li: usize = 0;
    while li < cs.lookups.len()
        invariant
            cs.wf(),
            g.wf(),
            g.matches_cs(*cs),
            row < g.rows,
            li <= cs.lookups@.len(),
            scan_gates(*cs, *g, row as int, 0, old(fails)@) == Ok::<Seq<Failure>, EvalError>(
                gates_out,
            ),
            scan_lookups(*cs, *g, row as int, li as int, fails@) == scan_lookups(
                *cs,
                *g,
                row as int,
                0,
                gates_out,
            ),
        decreases cs.lookups@.len() - li,
    {
        let vals = match check_inputs(g, &cs.lookups[li], row) {
            Err(e) => {
                return Err(e);
            },
            Ok(v) => v,
        };
        let sat = check_lookup_sat(g, &cs.lookups[li], &vals);
        if !sat {
            fails.push(Failure::Lookup { lookup: li, row });
        }
        li = li + 1;
    }
    Ok(())
}

/// Compares the two cells of one copy constraint.
fn check_copy(g: &Grid, a: Cell, b: Cell) -> (r: Result<bool, EvalError>)
    requires
        g.wf(),
        copy_cell_ok(*g, a),
        copy_cell_ok(*g, b),
    ensures
        r == copy_res(*g, a, b),
{
    proof {
        use_copy_range(*g, a);
        use_copy_range(*g, b);
    }
    let va = match g.read_cell(a) {
        Some(v) => v,
        None => {
            return Err(EvalError::Unassigned { column: a.column, row: a.row });
        },
    };
    let vb = match g.read_cell(b) {
        Some(v) => v,
        None => {
            return Err(EvalError::Unassigned { column: b.column, row: b.row });
        },
    };
    proof {
        lemma_felt_eq_by_val(va, vb);
    }
    Ok(va == vb)
}

/// Brings the flat-index bound of an equality-eligible cell into scope.
proof fn use_copy_range(g: Grid, c: Cell)
    requires
        g.wf(),
        copy_cell_ok(g, c),
    ensures
        g.cell_at(c) matches Some(v) ==> v.wf(),
{
    match c.column.kind {
        crate::cs::ColKind::Advice => {
            lemma_flat_index(c.column.index as int, c.row as int, g.n_advice as int, g.rows as int);
        },
        crate::cs::ColKind::Instance => {
            lemma_flat_index(
                c.column.index as int,
                c.row as int,
                g.n_instance as int,
                g.rows as int,
            );
        },
        _ => {},
    }
}

/// Decides whether the grid satisfies every gate at every usable row,
/// every lookup argument at every usable row, and every recorded copy
/// constraint. On success the result is `Ok`; otherwise it is the full,
/// deterministic failure list that `outcome` describes: row-ordered gate
/// and lookup failures, then copy failures, or the single configuration
/// error that stopped the check. The grid is only read: checking a grid
/// twice returns the same thing.
pub fn verify(cs: &ConstraintSystem, grid: &Grid) -> (r: Result<(), Vec<Failure>>)
    requires
        cs.wf(),
        grid.wf(),
        grid.matches_cs(*cs),
    ensures
        (match outcome(*cs, *grid) {
            Ok(fs) => if fs.len() == 0 {
                r matches Ok(x)
            } else {
                r matches Err(v) && v@ == fs
            },
            Err(e) => r matches Err(v) && v@ =~= seq![Failure::ConfigError { err: e }],
        }),
{
    let mut fails: Vec<Failure> = Vec::new();
    proof {
        assert(fails@ =~= Seq::<Failure>::empty());
    }
    let mut row: usize = 0;
    while row < grid.usable
        invariant
            cs.wf(),
            grid.wf(),
            grid.matches_cs(*cs),
            row <= grid.usable,
            scan_rows(*cs, *grid, row as int, fails@) == scan_rows(
                *cs,
                *grid,
                0,
                Seq::<Failure>::empty(),
            ),
        decreases grid.usable - row,
    {
        match check_row(cs, grid, row, &mut fails) {
            Err(e) => {
                return Err(config_failure(e));
            },
            Ok(u) => {},
        }
        row = row + 1;
    }
    let ghost rows_out = fails@;
    let mut ci: usize = 0;
    while ci < grid.copies.len()
        invariant
            cs.wf(),
            grid.wf(),
            grid.matches_cs(*cs),
            ci <= grid.copies@.len(),
            scan_rows(*cs, *grid, 0, Seq::<Failure>::empty()) == Ok::<Seq<Failure>, EvalError>(
                rows_out,
            ),
            scan_copies(*grid, ci as int, fails@) == scan_copies(*grid, 0, rows_out),
        decreases grid.copies@.len() - ci,
    {
        let (a, b) = grid.copies[ci];
        match check_copy(grid, a, b) {
            Err(e) => {
                return Err(config_failure(e));
            },
            Ok(eq) => {
                if !eq {
                    fails.push(Failure::Copy { a, b });
                }
            },
        }
        ci = ci + 1;
    }
    if fails.len() == 0 {
        Ok(())
    } else {
        Err(fails)
    }
}

/// Whether the grid satisfies the configuration outright: true exactly when
/// `verify` reports no failure. A caller that treats an unsatisfied grid as
/// fatal can stop on a false result.
pub fn assert_satisfied(cs: &ConstraintSystem, grid: &Grid) -> (b: bool)
    requires
        cs.wf(),
        grid.wf(),
        grid.matches_cs(*cs),
    ensures
        b == (outcome(*cs, *grid) == Ok::<Seq<Failure>, EvalError>(Seq::<Failure>::empty())),
{
    let r = verify(cs, grid);
    proof {
        match outcome(*cs, *grid) {
            Ok(fs) => {
                if fs.len() == 0 {
                    assert(fs =~= Seq::<Failure>::empty());
                }
            },
            Err(e) => {},
        }
    }
    match r {
        Ok(u) => true,
        Err(fails) => false,
    }
}

/// The one-element failure list of a configuration error.
fn config_failure(e: EvalError) -> (v: Vec<Failure>)
    ensures
        v@ =~= seq![Failure::ConfigError { err: e }],
{
    let mut v: Vec<Failure> = Vec::new();
    v.push(Failure::ConfigError { err: e });
    v
}

} // verus!
