use vstd::prelude::*;
use crate::field::{Felt, p_int, felt_add, felt_mul, felt_neg};
use crate::cs::{ColKind, Column};
use crate::grid::{Grid, lemma_flat_index};

verus! {

/// A polynomial expression over the cells of a grid: constants, cell queries
/// relative to the row being evaluated, selector queries, and the field
/// operations.
#[derive(Debug)]
pub enum Expr {
    /// A constant field element.
    Constant(Felt),
    /// The advice cell of column `col`, `rot` rows below the current row.
    Advice { col: usize, rot: i32 },
    /// The fixed cell of column `col`, `rot` rows below the current row.
    Fixed { col: usize, rot: i32 },
    /// 1 when selector `sel` is on at the current row, 0 otherwise.
    Selector { sel: usize },
    /// Field negation.
    Neg(Box<Expr>),
    /// Field addition.
    Sum(Box<Expr>, Box<Expr>),
    /// Field multiplication.
    Prod(Box<Expr>, Box<Expr>),
}

/// The reason an expression could not be evaluated. Either is a
/// configuration error: the circuit queried a row outside the grid, or a
/// cell that the synthesis run never assigned.
#[derive(Clone, Copy, PartialEq, Eq, Structural, Debug)]
pub enum EvalError {
    /// The row plus a query's rotation fell outside the grid.
    RowOutOfRange,
    /// The queried cell was never assigned.
    Unassigned { column: Column, row: usize },
}

/// Whether every query in the expression names a column or selector that the
/// configuration with the given counts owns.
pub open spec fn expr_ok(e: Expr, na: int, nf: int, ns: int) -> bool
    decreases e,
{
    match e {
        Expr::Constant(_) => true,
        Expr::Advice { col, rot } => col < na,
        Expr::Fixed { col, rot } => col < nf,
        Expr::Selector { sel } => sel < ns,
        Expr::Neg(a) => expr_ok(*a, na, nf, ns),
        Expr::Sum(a, b) => expr_ok(*a, na, nf, ns) && expr_ok(*b, na, nf, ns),
        Expr::Prod(a, b) => expr_ok(*a, na, nf, ns) && expr_ok(*b, na, nf, ns),
    }
}

/// Ownership is kept when a configuration only grows.
pub proof fn lemma_expr_ok_mono(e: Expr, na: int, nf: int, ns: int, na2: int, nf2: int, ns2: int)
    requires
        expr_ok(e, na, nf, ns),
        na <= na2,
        nf <= nf2,
        ns <= ns2,
    ensures
        expr_ok(e, na2, nf2, ns2),
    decreases e,
{
    match e {
        Expr::Neg(a) => lemma_expr_ok_mono(*a, na, nf, ns, na2, nf2, ns2),
        Expr::Sum(a, b) => {
            lemma_expr_ok_mono(*a, na, nf, ns, na2, nf2, ns2);
            lemma_expr_ok_mono(*b, na, nf, ns, na2, nf2, ns2);
        },
        Expr::Prod(a, b) => {
            lemma_expr_ok_mono(*a, na, nf, ns, na2, nf2, ns2);
            lemma_expr_ok_mono(*b, na, nf, ns, na2, nf2, ns2);
        },
        _ => {},
    }
}

/// Decides `expr_ok`.
pub fn check_expr(e: &Expr, na: usize, nf: usize, ns: usize) -> (b: bool)
    ensures
        b == expr_ok(*e, na as int, nf as int, ns as int),
    decreases *e,
{
    match e {
        Expr::Constant(_) => true,
        Expr::Advice { col, rot: _ } => *col < na,
        Expr::Fixed { col, rot: _ } => *col < nf,
        Expr::Selector { sel } => *sel < ns,
        Expr::Neg(a) => check_expr(&**a, na, nf, ns),
        Expr::Sum(a, b) => check_expr(&**a, na, nf, ns) && check_expr(&**b, na, nf, ns),
        Expr::Prod(a, b) => check_expr(&**a, na, nf, ns) && check_expr(&**b, na, nf, ns),
    }
}

/// The value of an expression at an absolute row of a grid, as the integer
/// value of the field element it denotes, or the first evaluation error met
/// in a leftmost-innermost traversal. Each query reads the grid at the row
/// plus the query's rotation; rows do not wrap, and a cell that was never
/// assigned is an error, not an implicit zero. Constants are reduced to
/// their canonical representative.
pub open spec fn eval(e: Expr, g: Grid, row: int) -> Result<int, EvalError>
    decreases e,
{
    match e {
        Expr::Constant(c) => Ok(c.val() % p_int()),
        Expr::Advice { col, rot } => {
            let r = row + rot as int;
            if r < 0 || r >= g.rows {
                Err(EvalError::RowOutOfRange)
            } else {
                match g.advice_at(col as int, r) {
                    Some(v) => Ok(v.val()),
                    None => Err(
                        EvalError::Unassigned {
                            column: Column { kind: ColKind::Advice, index: col },
                            row: r as usize,
                        },
                    ),
                }
            }
        },
        Expr::Fixed { col, rot } => {
            let r = row + rot as int;
            if r < 0 || r >= g.rows {
                Err(EvalError::RowOutOfRange)
            } else {
                match g.fixed_at(col as int, r) {
                    Some(v) => Ok(v.val()),
                    None => Err(
                        EvalError::Unassigned {
                            column: Column { kind: ColKind::Fixed, index: col },
                            row: r as usize,
                        },
                    ),
                }
            }
        },
        Expr::Selector { sel } => {
            if row < 0 || row >= g.rows {
                Err(EvalError::RowOutOfRange)
            } else if g.sel_at(sel as int, row) {
                Ok(1int)
            } else {
                Ok(0int)
            }
        },
        Expr::Neg(a) => match eval(*a, g, row) {
            Ok(v) => Ok((p_int() - v % p_int()) % p_int()),
            Err(er) => Err(er),
        },
        Expr::Sum(a, b) => match eval(*a, g, row) {
            Ok(va) => match eval(*b, g, row) {
                Ok(vb) => Ok((va + vb) % p_int()),
                Err(er) => Err(er),
            },
            Err(er) => Err(er),
        },
        Expr::Prod(a, b) => match eval(*a, g, row) {
            Ok(va) => match eval(*b, g, row) {
                Ok(vb) => Ok((va * vb) % p_int()),
                Err(er) => Err(er),
            },
            Err(er) => Err(er),
        },
    }
}

/// Evaluates an expression at an absolute row, returning the field element
/// whose value `eval` gives, or the same first error.
pub fn eval_expr(e: &Expr, g: &Grid, row: usize) -> (r: Result<Felt, EvalError>)
    requires
        g.wf(),
        expr_ok(*e, g.n_advice as int, g.n_fixed as int, g.n_selectors as int),
        row < g.rows,
    ensures
        (match eval(*e, *g, row as int) {
            Ok(v) => r matches Ok(f) && f.wf() && f.val() == v,
            Err(er) => r matches Err(e2) && e2 == er,
        }),
    decreases *e,
{
    match e {
        Expr::Constant(c) => Ok(felt_add(c, &Felt::zero())),
        Expr::Advice { col, rot } => {
            let target: i64 = row as i64 + *rot as i64;
            if target < 0 || target >= g.rows as i64 {
                Err(EvalError::RowOutOfRange)
            } else {
                let abs: usize = target as usize;
                proof {
                    lemma_flat_index(*col as int, abs as int, g.n_advice as int, g.rows as int);
                }
                match g.advice[*col * g.rows + abs] {
                    Some(v) => Ok(v),
                    None => Err(
                        EvalError::Unassigned {
                            column: Column { kind: ColKind::Advice, index: *col },
                            row: abs,
                        },
                    ),
                }
            }
        },
        Expr::Fixed { col, rot } => {
            let target: i64 = row as i64 + *rot as i64;
            if target < 0 || target >= g.rows as i64 {
                Err(EvalError::RowOutOfRange)
            } else {
                let abs: usize = target as usize;
                proof {
                    lemma_flat_index(*col as int, abs as int, g.n_fixed as int, g.rows as int);
                }
                match g.fixed[*col * g.rows + abs] {
                    Some(v) => Ok(v),
                    None => Err(
                        EvalError::Unassigned {
                            column: Column { kind: ColKind::Fixed, index: *col },
                            row: abs,
                        },
                    ),
                }
            }
        },
        Expr::Selector { sel } => {
            proof {
                lemma_flat_index(*sel as int, row as int, g.n_selectors as int, g.rows as int);
            }
            if g.selectors[*sel * g.rows + row] {
                Ok(Felt::one())
            } else {
                Ok(Felt::zero())
            }
        },
        Expr::Neg(a) => match eval_expr(&**a, g, row) {
            Ok(f) => Ok(felt_neg(&f)),
            Err(er) => Err(er),
        },
        Expr::Sum(a, b) => match eval_expr(&**a, g, row) {
            Ok(fa) => match eval_expr(&**b, g, row) {
                Ok(fb) => Ok(felt_add(&fa, &fb)),
                Err(er) => Err(er),
            },
            Err(er) => Err(er),
        },
        Expr::Prod(a, b) => match eval_expr(&**a, g, row) {
            Ok(fa) => match eval_expr(&**b, g, row) {
                Ok(fb) => Ok(felt_mul(&fa, &fb)),
                Err(er) => Err(er),
            },
            Err(er) => Err(er),
        },
    }
}

} // verus!
