use vstd::prelude::*;
use crate::cs::ConstraintSystem;
use crate::expr::{Expr, EvalError, eval};
use crate::grid::{Cell, Grid};
use crate::checker::{
    Failure, copy_res, eval_inputs, gate_res, lookup_sat, outcome, scan_copies, scan_gates,
    scan_lookups, scan_row, scan_rows, tuple_matches,
};

verus! {

proof fn lemma_push_keeps(s: Seq<Failure>, x: Failure, y: Failure)
    requires
        s.contains(x),
    ensures
        s.push(y).contains(x),
{
    let idx = choose|i: int| 0 <= i < s.len() && s[i] == x;
    assert(s.push(y)[idx] == x);
}

proof fn lemma_push_adds(s: Seq<Failure>, y: Failure)
    ensures
        s.push(y).contains(y),
{
    assert(s.push(y)[s.len() as int] == y);
}

proof fn lemma_gate_res_all_zero(g: Grid, polys: Seq<Expr>, row: int, i: int)
    requires
        0 <= i,
        forall|pi: int|
            i <= pi < polys.len() ==> eval(#[trigger] polys[pi], g, row) == Ok::<int, EvalError>(0),
    ensures
        gate_res(g, polys, row, i) == Ok::<bool, EvalError>(true),
    decreases polys.len() - i,
{
    if i < polys.len() {
        lemma_gate_res_all_zero(g, polys, row, i + 1);
    }
}

proof fn lemma_gate_res_is_ok(g: Grid, polys: Seq<Expr>, row: int, i: int)
    requires
        0 <= i,
        forall|pi: int| i <= pi < polys.len() ==> (#[trigger] eval(polys[pi], g, row)) is Ok,
    ensures
        gate_res(g, polys, row, i) is Ok,
    decreases polys.len() - i,
{
    if i < polys.len() {
        lemma_gate_res_is_ok(g, polys, row, i + 1);
    }
}

/// If every polynomial of a gate evaluates cleanly at a row and one of them
/// is not the additive identity there, that gate does not vanish as a whole.
pub proof fn lemma_gate_res_nonzero(g: Grid, polys: Seq<Expr>, row: int, i: int, pi: int)
    requires
        0 <= i <= pi < polys.len(),
        forall|t: int| i <= t < polys.len() ==> (#[trigger] eval(polys[t], g, row)) is Ok,
        eval(polys[pi], g, row) != Ok::<int, EvalError>(0),
    ensures
        gate_res(g, polys, row, i) == Ok::<bool, EvalError>(false),
    decreases polys.len() - i,
{
    lemma_gate_res_is_ok(g, polys, row, i + 1);
    if i < pi {
        lemma_gate_res_nonzero(g, polys, row, i + 1, pi);
    }
}

proof fn lemma_scan_gates_all_ok(cs: ConstraintSystem, g: Grid, row: int, i: int, acc: Seq<Failure>)
    requires
        0 <= i,
        forall|gi: int, pi: int|
            i <= gi < cs.gates@.len() && 0 <= pi < cs.gates@[gi].polys@.len() ==> eval(
                #[trigger] cs.gates@[gi].polys@[pi],
                g,
                row,
            ) == Ok::<int, EvalError>(0),
    ensures
        scan_gates(cs, g, row, i, acc) == Ok::<Seq<Failure>, EvalError>(acc),
    decreases cs.gates@.len() - i,
{
    if i < cs.gates@.len() {
        lemma_gate_res_all_zero(g, cs.gates@[i].polys@, row, 0);
        lemma_scan_gates_all_ok(cs, g, row, i + 1, acc);
    }
}

proof fn lemma_scan_lookups_all_ok(
    cs: ConstraintSystem,
    g: Grid,
    row: int,
    i: int,
    acc: Seq<Failure>,
)
    requires
        0 <= i,
        forall|li: int|
            i <= li < cs.lookups@.len() ==> ((#[trigger] eval_inputs(
                g,
                cs.lookups@[li].pairs@,
                row,
                0,
                Seq::empty(),
            )) matches Ok(vals) && lookup_sat(g, cs.lookups@[li].pairs@, vals)),
    ensures
        scan_lookups(cs, g, row, i, acc) == Ok::<Seq<Failure>, EvalError>(acc),
    decreases cs.lookups@.len() - i,
{
    if i < cs.lookups@.len() {
        lemma_scan_lookups_all_ok(cs, g, row, i + 1, acc);
    }
}

proof fn lemma_scan_rows_all_ok(cs: ConstraintSystem, g: Grid, r: int, acc: Seq<Failure>)
    requires
        0 <= r,
        forall|row: int, gi: int, pi: int|
            0 <= row < g.usable && 0 <= gi < cs.gates@.len() && 0 <= pi
                < cs.gates@[gi].polys@.len() ==> (#[trigger] eval(
                cs.gates@[gi].polys@[pi],
                g,
                row,
            )) == Ok::<int, EvalError>(0),
        forall|row: int, li: int|
            0 <= row < g.usable && 0 <= li < cs.lookups@.len() ==> ((#[trigger] eval_inputs(
                g,
                cs.lookups@[li].pairs@,
                row,
                0,
                Seq::empty(),
            )) matches Ok(vals) && lookup_sat(g, cs.lookups@[li].pairs@, vals)),
    ensures
        scan_rows(cs, g, r, acc) == Ok::<Seq<Failure>, EvalError>(acc),
    decreases g.usable - r,
{
    if r < g.usable {
        lemma_scan_gates_all_ok(cs, g, r, 0, acc);
        lemma_scan_lookups_all_ok(cs, g, r, 0, acc);
        lemma_scan_rows_all_ok(cs, g, r + 1, acc);
    }
}

proof fn lemma_scan_copies_all_ok(g: Grid, i: int, acc: Seq<Failure>)
    requires
        0 <= i,
        forall|ci: int|
            i <= ci < g.copies@.len() ==> copy_res(
                g,
                (#[trigger] g.copies@[ci]).0,
                g.copies@[ci].1,
            ) == Ok::<bool, EvalError>(true),
    ensures
        scan_copies(g, i, acc) == Ok::<Seq<Failure>, EvalError>(acc),
    decreases g.copies@.len() - i,
{
    if i < g.copies@.len() {
        lemma_scan_copies_all_ok(g, i + 1, acc);
    }
}

/// When every gate polynomial vanishes at every usable row, every lookup's
/// input tuple evaluates and appears in its table, and every recorded copy
/// constraint compares equal, checking reports no failure at all.
pub proof fn lemma_satisfied_outcome_ok(cs: ConstraintSystem, g: Grid)
    requires
        forall|row: int, gi: int, pi: int|
            0 <= row < g.usable && 0 <= gi < cs.gates@.len() && 0 <= pi
                < cs.gates@[gi].polys@.len() ==> (#[trigger] eval(
                cs.gates@[gi].polys@[pi],
                g,
                row,
            )) == Ok::<int, EvalError>(0),
        forall|row: int, li: int|
            0 <= row < g.usable && 0 <= li < cs.lookups@.len() ==> ((#[trigger] eval_inputs(
                g,
                cs.lookups@[li].pairs@,
                row,
                0,
                Seq::empty(),
            )) matches Ok(vals) && lookup_sat(g, cs.lookups@[li].pairs@, vals)),
        forall|ci: int|
            0 <= ci < g.copies@.len() ==> copy_res(
                g,
                (#[trigger] g.copies@[ci]).0,
                g.copies@[ci].1,
            ) == Ok::<bool, EvalError>(true),
    ensures
        outcome(cs, g) == Ok::<Seq<Failure>, EvalError>(Seq::<Failure>::empty()),
{
    lemma_scan_rows_all_ok(cs, g, 0, Seq::<Failure>::empty());
    lemma_scan_copies_all_ok(g, 0, Seq::<Failure>::empty());
}

proof fn lemma_scan_gates_keeps(
    cs: ConstraintSystem,
    g: Grid,
    row: int,
    i: int,
    acc: Seq<Failure>,
    x: Failure,
)
    requires
        0 <= i,
        acc.contains(x),
    ensures
        scan_gates(cs, g, row, i, acc) matches Ok(out) ==> out.contains(x),
    decreases cs.gates@.len() - i,
{
    if i < cs.gates@.len() {
        match gate_res(g, cs.gates@[i].polys@, row, 0) {
            Ok(z) => {
                let acc2 = if z {
                    acc
                } else {
                    acc.push(Failure::Gate { gate: i as usize, row: row as usize })
                };
                if !z {
                    lemma_push_keeps(acc, x, Failure::Gate { gate: i as usize, row: row as usize });
                }
                lemma_scan_gates_keeps(cs, g, row, i + 1, acc2, x);
            },
            Err(_) => {},
        }
    }
}

proof fn lemma_scan_lookups_keeps(
    cs: ConstraintSystem,
    g: Grid,
    row: int,
    i: int,
    acc: Seq<Failure>,
    x: Failure,
)
    requires
        0 <= i,
        acc.contains(x),
    ensures
        scan_lookups(cs, g, row, i, acc) matches Ok(out) ==> out.contains(x),
    decreases cs.lookups@.len() - i,
{
    if i < cs.lookups@.len() {
        match eval_inputs(g, cs.lookups@[i].pairs@, row, 0, Seq::empty()) {
            Ok(vals) => {
                let sat = lookup_sat(g, cs.lookups@[i].pairs@, vals);
                let acc2 = if sat {
                    acc
                } else {
                    acc.push(Failure::Lookup { lookup: i as usize, row: row as usize })
                };
                if !sat {
                    lemma_push_keeps(
                        acc,
                        x,
                        Failure::Lookup { lookup: i as usize, row: row as usize },
                    );
                }
                lemma_scan_lookups_keeps(cs, g, row, i + 1, acc2, x);
            },
            Err(_) => {},
        }
    }
}

proof fn lemma_scan_row_keeps(cs: ConstraintSystem, g: Grid, row: int, acc: Seq<Failure>, x: Failure)
    requires
        acc.contains(x),
    ensures
        scan_row(cs, g, row, acc) matches Ok(out) ==> out.contains(x),
{
    match scan_gates(cs, g, row, 0, acc) {
        Ok(a2) => {
            lemma_scan_gates_keeps(cs, g, row, 0, acc, x);
            lemma_scan_lookups_keeps(cs, g, row, 0, a2, x);
        },
        Err(_) => {},
    }
}

proof fn lemma_scan_rows_keeps(cs: ConstraintSystem, g: Grid, r: int, acc: Seq<Failure>, x: Failure)
    requires
        acc.contains(x),
    ensures
        scan_rows(cs, g, r, acc) matches Ok(out) ==> out.contains(x),
    decreases g.usable - r,
{
    if r < g.usable {
        match scan_row(cs, g, r, acc) {
            Ok(a2) => {
                lemma_scan_row_keeps(cs, g, r, acc, x);
                lemma_scan_rows_keeps(cs, g, r + 1, a2, x);
            },
            Err(_) => {},
        }
    }
}

proof fn lemma_scan_copies_keeps(g: Grid, i: int, acc: Seq<Failure>, x: Failure)
    requires
        0 <= i,
        acc.contains(x),
    ensures
        scan_copies(g, i, acc) matches Ok(out) ==> out.contains(x),
    decreases g.copies@.len() - i,
{
    if i < g.copies@.len() {
        match copy_res(g, g.copies@[i].0, g.copies@[i].1) {
            Ok(eq) => {
                let acc2 = if eq {
                    acc
                } else {
                    acc.push(Failure::Copy { a: g.copies@[i].0, b: g.copies@[i].1 })
                };
                if !eq {
                    lemma_push_keeps(
                        acc,
                        x,
                        Failure::Copy { a: g.copies@[i].0, b: g.copies@[i].1 },
                    );
                }
                lemma_scan_copies_keeps(g, i + 1, acc2, x);
            },
            Err(_) => {},
        }
    }
}

proof fn lemma_scan_gates_adds(
    cs: ConstraintSystem,
    g: Grid,
    row: int,
    i: int,
    acc: Seq<Failure>,
    gi: int,
)
    requires
        0 <= i <= gi < cs.gates@.len(),
        gate_res(g, cs.gates@[gi].polys@, row, 0) == Ok::<bool, EvalError>(false),
    ensures
        scan_gates(cs, g, row, i, acc) matches Ok(out) ==> out.contains(
            Failure::Gate { gate: gi as usize, row: row as usize },
        ),
    decreases gi - i,
{
    let f = Failure::Gate { gate: gi as usize, row: row as usize };
    if i == gi {
        lemma_push_adds(acc, f);
        lemma_scan_gates_keeps(cs, g, row, i + 1, acc.push(f), f);
    } else {
        match gate_res(g, cs.gates@[i].polys@, row, 0) {
            Ok(z) => {
                let acc2 = if z {
                    acc
                } else {
                    acc.push(Failure::Gate { gate: i as usize, row: row as usize })
                };
                lemma_scan_gates_adds(cs, g, row, i + 1, acc2, gi);
            },
            Err(_) => {},
        }
    }
}

proof fn lemma_scan_rows_adds(
    cs: ConstraintSystem,
    g: Grid,
    r: int,
    acc: Seq<Failure>,
    target: int,
    gi: int,
)
    requires
        0 <= r <= target < g.usable,
        0 <= gi < cs.gates@.len(),
        gate_res(g, cs.gates@[gi].polys@, target, 0) == Ok::<bool, EvalError>(false),
    ensures
        scan_rows(cs, g, r, acc) matches Ok(out) ==> out.contains(
            Failure::Gate { gate: gi as usize, row: target as usize },
        ),
    decreases g.usable - r,
{
    let f = Failure::Gate { gate: gi as usize, row: target as usize };
    match scan_row(cs, g, r, acc) {
        Ok(a2) => {
            if r == target {
                match scan_gates(cs, g, r, 0, acc) {
                    Ok(ga) => {
                        lemma_scan_gates_adds(cs, g, r, 0, acc, gi);
                        lemma_scan_lookups_keeps(cs, g, r, 0, ga, f);
                        lemma_scan_rows_keeps(cs, g, r + 1, a2, f);
                    },
                    Err(_) => {},
                }
            } else {
                lemma_scan_rows_adds(cs, g, r + 1, a2, target, gi);
            }
        },
        Err(_) => {},
    }
}

/// Whenever some gate does not vanish at a usable row and checking meets no
/// configuration error, the reported failure list contains a gate failure
/// at exactly that gate and row.
pub proof fn lemma_gate_failure_reported(cs: ConstraintSystem, g: Grid, gi: int, r: int)
    requires
        0 <= r < g.usable,
        0 <= gi < cs.gates@.len(),
        gate_res(g, cs.gates@[gi].polys@, r, 0) == Ok::<bool, EvalError>(false),
    ensures
        outcome(cs, g) matches Ok(fs) ==> fs.contains(
            Failure::Gate { gate: gi as usize, row: r as usize },
        ),
{
    let f = Failure::Gate { gate: gi as usize, row: r as usize };
    match scan_rows(cs, g, 0, Seq::<Failure>::empty()) {
        Ok(acc) => {
            lemma_scan_rows_adds(cs, g, 0, Seq::<Failure>::empty(), r, gi);
            lemma_scan_copies_keeps(g, 0, acc, f);
        },
        Err(_) => {},
    }
}

/// Lookup membership is tuple-based, not positional: an input tuple that
/// equals the tuple of any table row satisfies the lookup, whatever row the
/// witness sits at.
pub proof fn lemma_lookup_tuple_membership(
    g: Grid,
    pairs: Seq<(Expr, usize)>,
    vals: Seq<int>,
    t: int,
)
    requires
        0 <= t < g.rows,
        tuple_matches(g, pairs, vals, t),
    ensures
        lookup_sat(g, pairs, vals),
{
    assert(0 <= t < g.rows && tuple_matches(g, pairs, vals, t));
}

/// A copy constraint reads the same on either orientation: comparing a
/// against b succeeds exactly when comparing b against a does.
pub proof fn lemma_copy_symmetric(g: Grid, a: Cell, b: Cell)
    requires
        g.cell_at(a) is Some,
        g.cell_at(b) is Some,
    ensures
        copy_res(g, a, b) == Ok::<bool, EvalError>(true) <==> copy_res(g, b, a) == Ok::<
            bool,
            EvalError,
        >(true),
{
}

/// Copy constraints are transitive in effect: if a agrees with b and b with
/// c, then a agrees with c.
pub proof fn lemma_copy_transitive(g: Grid, a: Cell, b: Cell, c: Cell)
    requires
        copy_res(g, a, b) == Ok::<bool, EvalError>(true),
        copy_res(g, b, c) == Ok::<bool, EvalError>(true),
    ensures
        copy_res(g, a, c) == Ok::<bool, EvalError>(true),
{
}

/// What `verify` reports, as a relation between a run's result and the
/// specified outcome.
pub open spec fn report_of(cs: ConstraintSystem, g: Grid, r: Result<(), Seq<Failure>>) -> bool {
    match outcome(cs, g) {
        Ok(fs) => if fs.len() == 0 {
            r == Ok::<(), Seq<Failure>>(())
        } else {
            r == Err::<(), Seq<Failure>>(fs)
        },
        Err(e) => r == Err::<(), Seq<Failure>>(seq![Failure::ConfigError { err: e }]),
    }
}

/// Checking never mutates the grid and is a function of the configuration
/// and grid alone, so re-running it on an unchanged grid reports the
/// identical failure list.
pub proof fn lemma_verify_idempotent(
    cs: ConstraintSystem,
    g: Grid,
    r1: Result<(), Seq<Failure>>,
    r2: Result<(), Seq<Failure>>,
)
    requires
        report_of(cs, g, r1),
        report_of(cs, g, r2),
    ensures
        r1 == r2,
{
}

} // verus!
