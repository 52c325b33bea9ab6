use vstd::prelude::*;
use crate::field::{Felt, p_int, felt_add};
use crate::cs::{ColKind, Column, ConstraintSystem, Selector, eq_enabled_spec};
use crate::grid::{Cell, Grid, lemma_flat_index, lemma_flat_index_distinct};
use crate::layout::Layouter;
use crate::expr::{Expr, expr_ok};

verus! {

broadcast use vstd::string::to_string_from_display_ensures_for_str;

/// The columns and selector of the Fibonacci-recurrence circuit: two advice
/// columns and one gate stating that wherever the selector is on, the right
/// cell of the next row is the sum of the current left and right cells.
pub struct Fibonacci {
    pub q_enable: Selector,
    pub left: Column,
    pub right: Column,
}

/// The one polynomial of the Fibonacci gate:
/// `q_enable * (left + right - right_next)`.
pub open spec fn fib_poly(l: usize, r: usize, q: usize) -> Expr {
    Expr::Prod(
        Box::new(Expr::Selector { sel: q }),
        Box::new(
            Expr::Sum(
                Box::new(
                    Expr::Sum(
                        Box::new(Expr::Advice { col: l, rot: 0 }),
                        Box::new(Expr::Advice { col: r, rot: 0 }),
                    ),
                ),
                Box::new(Expr::Neg(Box::new(Expr::Advice { col: r, rot: 1 }))),
            ),
        ),
    )
}

impl Fibonacci {
    /// The handles name columns that the configuration owns, the two advice
    /// columns are distinct and equality-enabled, and the selector exists.
    pub open spec fn wf(self, cs: ConstraintSystem) -> bool {
        &&& self.left.kind matches ColKind::Advice
        &&& self.right.kind matches ColKind::Advice
        &&& self.left.index < cs.n_advice
        &&& self.right.index < cs.n_advice
        &&& self.left.index != self.right.index
        &&& self.q_enable.index < cs.n_selectors
        &&& eq_enabled_spec(cs, self.left)
        &&& eq_enabled_spec(cs, self.right)
    }

    /// Declares the circuit's shape: two fresh equality-enabled advice
    /// columns, one fresh simple selector, and one gate
    /// `q_enable * (left + right - right_next)`. The configuration only
    /// grows: everything registered before the call is left as it was.
    pub fn configure(meta: &mut ConstraintSystem) -> (fib: Fibonacci)
        requires
            old(meta).wf(),
            old(meta).n_advice + 2 <= 0xFFF,
            old(meta).n_selectors < 0xFFF,
            forall|i: int|
                0 <= i < old(meta).gates@.len() ==> (#[trigger] old(meta).gates@[i]).name@
                    != "fib"@,
        ensures
            final(meta).wf(),
            fib.wf(*final(meta)),
            fib.left == (Column { kind: ColKind::Advice, index: old(meta).n_advice }),
            fib.right == (Column { kind: ColKind::Advice, index: (old(meta).n_advice + 1) as usize }),
            fib.q_enable == (Selector { index: old(meta).n_selectors }),
            final(meta).n_advice == old(meta).n_advice + 2,
            final(meta).n_selectors == old(meta).n_selectors + 1,
            final(meta).n_fixed == old(meta).n_fixed,
            final(meta).n_instance == old(meta).n_instance,
            final(meta).n_table == old(meta).n_table,
            final(meta).advice_eq@ == old(meta).advice_eq@.push(true).push(true),
            final(meta).instance_eq == old(meta).instance_eq,
            final(meta).selector_complex@ == old(meta).selector_complex@.push(false),
            final(meta).gates@.len() == old(meta).gates@.len() + 1,
            final(meta).gates@.subrange(0, old(meta).gates@.len() as int) == old(meta).gates@,
            final(meta).gates@.last().name@ == "fib"@,
            final(meta).gates@.last().polys@ =~= seq![
                fib_poly(fib.left.index, fib.right.index, fib.q_enable.index),
            ],
            final(meta).lookups == old(meta).lookups,
    {
        let left = meta.advice_column();
        let right = meta.advice_column();
        let q_enable = meta.selector();

        meta.enable_equality(left).unwrap();
        meta.enable_equality(right).unwrap();

        let poly = Expr::Prod(
            Box::new(Expr::Selector { sel: q_enable.index }),
            Box::new(
                Expr::Sum(
                    Box::new(
                        Expr::Sum(
                            Box::new(Expr::Advice { col: left.index, rot: 0 }),
                            Box::new(Expr::Advice { col: right.index, rot: 0 }),
                        ),
                    ),
                    Box::new(Expr::Neg(Box::new(Expr::Advice { col: right.index, rot: 1 }))),
                ),
            ),
        );
        let mut polys: Vec<Expr> = Vec::new();
        polys.push(poly);
        proof {
            assert(expr_ok(
                poly,
                meta.n_advice as int,
                meta.n_fixed as int,
                meta.n_selectors as int,
            )) by {
                reveal_with_fuel(expr_ok, 8);
            };
            assert(meta.advice_eq@ =~= old(meta).advice_eq@.push(true).push(true));
        }
        let name = "fib".to_string();
        meta.create_gate(name, polys).unwrap();
        Fibonacci { q_enable, left, right }
    }

    /// Lays out one run of the recurrence into the open region: the initial
    /// pair at offset 0, then four steps, each writing the sum of the
    /// current pair into the right column of the next offset and carrying
    /// the old right value into the left column of the next offset through
    /// a copy constraint. The right column thus holds the five values
    /// `r0, r1, .., r4` with `r_next = (left + right) mod p`, and nothing
    /// else of the grid changes. The region must have room for five rows;
    /// under that precondition no layout call can fail.
    #[verifier::rlimit(100)]
    pub fn assign(&self, ly: &mut Layouter, cs: &ConstraintSystem, init_left: Felt, init_right: Felt)
        requires
            old(ly).wf(),
            old(ly).in_region,
            cs.wf(),
            old(ly).grid.matches_cs(*cs),
            old(ly).base + 5 <= old(ly).grid.rows,
            self.wf(*cs),
            init_left.wf(),
            init_right.wf(),
        ensures
            final(ly).wf(),
            ({
                let l0 = init_left.val();
                let r0 = init_right.val();
                let r1 = (l0 + r0) % p_int();
                let r2 = (r0 + r1) % p_int();
                let r3 = (r1 + r2) % p_int();
                let r4 = (r2 + r3) % p_int();
                let b = old(ly).base as int;
                let li = self.left.index as int;
                let ri = self.right.index as int;
                &&& (final(ly).grid.advice_at(li, b) matches Some(v) && v.val() == l0)
                &&& (final(ly).grid.advice_at(ri, b) matches Some(v) && v.val() == r0)
                &&& (final(ly).grid.advice_at(li, b + 1) matches Some(v) && v.val() == r0)
                &&& (final(ly).grid.advice_at(ri, b + 1) matches Some(v) && v.val() == r1)
                &&& (final(ly).grid.advice_at(li, b + 2) matches Some(v) && v.val() == r1)
                &&& (final(ly).grid.advice_at(ri, b + 2) matches Some(v) && v.val() == r2)
                &&& (final(ly).grid.advice_at(li, b + 3) matches Some(v) && v.val() == r2)
                &&& (final(ly).grid.advice_at(ri, b + 3) matches Some(v) && v.val() == r3)
                &&& (final(ly).grid.advice_at(li, b + 4) matches Some(v) && v.val() == r3)
                &&& (final(ly).grid.advice_at(ri, b + 4) matches Some(v) && v.val() == r4)
                &&& forall|j: int|
                    0 <= j < 4 ==> #[trigger] final(ly).grid.sel_at(
                        self.q_enable.index as int,
                        b + j,
                    )
                &&& forall|c: int, rr: int|
                    0 <= c < old(ly).grid.n_advice && 0 <= rr < old(ly).grid.rows && !((c == li
                        || c == ri) && b <= rr <= b + 4) ==> #[trigger] final(ly).grid.advice_at(
                        c,
                        rr,
                    ) == old(ly).grid.advice_at(c, rr)
                &&& forall|s: int, rr: int|
                    0 <= s < old(ly).grid.n_selectors && 0 <= rr < old(ly).grid.rows && !(s
                        == self.q_enable.index && b <= rr <= b + 3)
                        ==> #[trigger] final(ly).grid.sel_at(s, rr) == old(ly).grid.sel_at(s, rr)
                &&& final(ly).grid.copies@ == old(ly).grid.copies@.push(
                    ((Cell { column: self.right, row: (b + 0) as usize }), (Cell {
                        column: self.left,
                        row: (b + 1) as usize,
                    })),
                ).push(
                    ((Cell { column: self.right, row: (b + 1) as usize }), (Cell {
                        column: self.left,
                        row: (b + 2) as usize,
                    })),
                ).push(
                    ((Cell { column: self.right, row: (b + 2) as usize }), (Cell {
                        column: self.left,
                        row: (b + 3) as usize,
                    })),
                ).push(
                    ((Cell { column: self.right, row: (b + 3) as usize }), (Cell {
                        column: self.left,
                        row: (b + 4) as usize,
                    })),
                )
                &&& final(ly).grid == (Grid {
                    advice: final(ly).grid.advice,
                    selectors: final(ly).grid.selectors,
                    copies: final(ly).grid.copies,
                    ..old(ly).grid
                })
                &&& final(ly).used == if old(ly).used > 5 {
                    old(ly).used as int
                } else {
                    5int
                }
                &&& *final(ly) == (Layouter {
                    grid: final(ly).grid,
                    used: final(ly).used,
                    ..*old(ly)
                })
            }),
    {
        proof {
            let rows = old(ly).grid.rows as int;
            let b = old(ly).base as int;
            let li = self.left.index as int;
            let ri = self.right.index as int;
            lemma_flat_index(li, b + 0, old(ly).grid.n_advice as int, rows);
            lemma_flat_index(ri, b + 0, old(ly).grid.n_advice as int, rows);
            lemma_flat_index(li, b + 1, old(ly).grid.n_advice as int, rows);
            lemma_flat_index(ri, b + 1, old(ly).grid.n_advice as int, rows);
            lemma_flat_index(li, b + 2, old(ly).grid.n_advice as int, rows);
            lemma_flat_index(ri, b + 2, old(ly).grid.n_advice as int, rows);
            lemma_flat_index(li, b + 3, old(ly).grid.n_advice as int, rows);
            lemma_flat_index(ri, b + 3, old(ly).grid.n_advice as int, rows);
            lemma_flat_index(li, b + 4, old(ly).grid.n_advice as int, rows);
            lemma_flat_index(ri, b + 4, old(ly).grid.n_advice as int, rows);
            lemma_flat_index(self.q_enable.index as int, b + 0, old(ly).grid.n_selectors as int, rows);
            lemma_flat_index(self.q_enable.index as int, b + 1, old(ly).grid.n_selectors as int, rows);
            lemma_flat_index(self.q_enable.index as int, b + 2, old(ly).grid.n_selectors as int, rows);
            lemma_flat_index(self.q_enable.index as int, b + 3, old(ly).grid.n_selectors as int, rows);
            lemma_flat_index_distinct(li, b + 0, ri, b + 0, rows);
            lemma_flat_index_distinct(li, b + 0, ri, b + 1, rows);
            lemma_flat_index_distinct(li, b + 0, ri, b + 2, rows);
            lemma_flat_index_distinct(li, b + 0, ri, b + 3, rows);
            lemma_flat_index_distinct(li, b + 0, ri, b + 4, rows);
            lemma_flat_index_distinct(li, b + 1, ri, b + 0, rows);
            lemma_flat_index_distinct(li, b + 1, ri, b + 1, rows);
            lemma_flat_index_distinct(li, b + 1, ri, b + 2, rows);
            lemma_flat_index_distinct(li, b + 1, ri, b + 3, rows);
            lemma_flat_index_distinct(li, b + 1, ri, b + 4, rows);
            lemma_flat_index_distinct(li, b + 2, ri, b + 0, rows);
            lemma_flat_index_distinct(li, b + 2, ri, b + 1, rows);
            lemma_flat_index_distinct(li, b + 2, ri, b + 2, rows);
            lemma_flat_index_distinct(li, b + 2, ri, b + 3, rows);
            lemma_flat_index_distinct(li, b + 2, ri, b + 4, rows);
            lemma_flat_index_distinct(li, b + 3, ri, b + 0, rows);
            lemma_flat_index_distinct(li, b + 3, ri, b + 1, rows);
            lemma_flat_index_distinct(li, b + 3, ri, b + 2, rows);
            lemma_flat_index_distinct(li, b + 3, ri, b + 3, rows);
            lemma_flat_index_distinct(li, b + 3, ri, b + 4, rows);
            lemma_flat_index_distinct(li, b + 4, ri, b + 0, rows);
            lemma_flat_index_distinct(li, b + 4, ri, b + 1, rows);
            lemma_flat_index_distinct(li, b + 4, ri, b + 2, rows);
            lemma_flat_index_distinct(li, b + 4, ri, b + 3, rows);
            lemma_flat_index_distinct(li, b + 4, ri, b + 4, rows);
        }
        self.enable_step(ly, 0);
        self.enable_step(ly, 1);
        self.enable_step(ly, 2);
        self.enable_step(ly, 3);

        ly.assign_advice(self.left, 0, init_left).unwrap();
        let rc = ly.assign_advice(self.right, 0, init_right).unwrap();
        let l_val = init_left;
        let r_val = init_right;

        // Four unrolled steps of the recurrence.
        let next1 = felt_add(&l_val, &r_val);
        let rc1 = ly.assign_advice(self.right, 1, next1).unwrap();
        ly.copy_advice(cs, rc, self.left, 1).unwrap();
        let next2 = felt_add(&r_val, &next1);
        let rc2 = ly.assign_advice(self.right, 2, next2).unwrap();
        ly.copy_advice(cs, rc1, self.left, 2).unwrap();
        let next3 = felt_add(&next1, &next2);
        let rc3 = ly.assign_advice(self.right, 3, next3).unwrap();
        ly.copy_advice(cs, rc2, self.left, 3).unwrap();
        let next4 = felt_add(&next2, &next3);
        ly.assign_advice(self.right, 4, next4).unwrap();
        ly.copy_advice(cs, rc3, self.left, 4).unwrap();

        proof {
            let rows = old(ly).grid.rows as int;
            let b = old(ly).base as int;
            let li = self.left.index as int;
            let ri = self.right.index as int;
            let qi = self.q_enable.index as int;
            assert forall|c: int, rr: int|
                0 <= c < old(ly).grid.n_advice && 0 <= rr < old(ly).grid.rows && !((c == li || c
                    == ri) && b <= rr <= b + 4) implies #[trigger] ly.grid.advice_at(c, rr)
                == old(ly).grid.advice_at(c, rr) by {
                lemma_flat_index(c, rr, old(ly).grid.n_advice as int, rows);
                lemma_flat_index_distinct(c, rr, li, b + 0, rows);
                lemma_flat_index_distinct(c, rr, li, b + 1, rows);
                lemma_flat_index_distinct(c, rr, li, b + 2, rows);
                lemma_flat_index_distinct(c, rr, li, b + 3, rows);
                lemma_flat_index_distinct(c, rr, li, b + 4, rows);
                lemma_flat_index_distinct(c, rr, ri, b + 0, rows);
                lemma_flat_index_distinct(c, rr, ri, b + 1, rows);
                lemma_flat_index_distinct(c, rr, ri, b + 2, rows);
                lemma_flat_index_distinct(c, rr, ri, b + 3, rows);
                lemma_flat_index_distinct(c, rr, ri, b + 4, rows);
            }
            assert forall|s: int, rr: int|
                0 <= s < old(ly).grid.n_selectors && 0 <= rr < old(ly).grid.rows && !(s == qi && b
                    <= rr <= b + 3) implies #[trigger] ly.grid.sel_at(s, rr)
                == old(ly).grid.sel_at(s, rr) by {
                lemma_flat_index(s, rr, old(ly).grid.n_selectors as int, rows);
                lemma_flat_index_distinct(s, rr, qi, b + 0, rows);
                lemma_flat_index_distinct(s, rr, qi, b + 1, rows);
                lemma_flat_index_distinct(s, rr, qi, b + 2, rows);
                lemma_flat_index_distinct(s, rr, qi, b + 3, rows);
            }
        }
    }

    /// Turns the recurrence's selector on at one offset of the open region.
    fn enable_step(&self, ly: &mut Layouter, offset: usize)
        requires
            old(ly).wf(),
            old(ly).in_region,
            self.q_enable.index < old(ly).grid.n_selectors,
            old(ly).base + offset < old(ly).grid.rows,
        ensures
            final(ly).wf(),
            final(ly).grid.selectors@ == old(ly).grid.selectors@.update(
                self.q_enable.index * old(ly).grid.rows + old(ly).base + offset,
                true,
            ),
            final(ly).grid == (Grid { selectors: final(ly).grid.selectors, ..old(ly).grid }),
            final(ly).used == if offset + 1 > old(ly).used {
                offset + 1
            } else {
                old(ly).used as int
            },
            *final(ly) == (Layouter { grid: final(ly).grid, used: final(ly).used, ..*old(ly) }),
    {
        ly.enable_selector(self.q_enable, offset).unwrap();
    }
}

} // verus!
