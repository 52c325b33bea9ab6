use vstd::prelude::*;
use vstd::arithmetic::mul::lemma_mul_upper_bound;
use crate::field::Felt;
use crate::cs::{ColKind, Column, ConstraintSystem};

verus! {

/// An absolute cell position: a column together with an absolute row.
#[derive(Clone, Copy, PartialEq, Eq, Structural, Debug)]
pub struct Cell {
    pub column: Column,
    pub row: usize,
}

/// 2^n.
pub open spec fn pow2_spec(n: nat) -> nat
    decreases n,
{
    if n == 0 {
        1
    } else {
        2 * pow2_spec((n - 1) as nat)
    }
}

pub proof fn lemma_pow2_le(a: nat, b: nat)
    requires
        a <= b,
    ensures
        pow2_spec(a) <= pow2_spec(b),
    decreases b,
{
    if a < b {
        lemma_pow2_le(a, (b - 1) as nat);
    }
}

pub proof fn lemma_pow2_20()
    ensures
        pow2_spec(20) == 0x100000,
{
    reveal_with_fuel(pow2_spec, 22);
}

/// Number of grid rows for a grid of size parameter `k`.
pub fn rows_for_k(k: u32) -> (r: usize)
    requires
        k <= 20,
    ensures
        r == pow2_spec(k as nat),
        1 <= r <= 0x100000,
{
    proof {
        lemma_pow2_20();
    }
    let mut r: usize = 1;
    let mut i: u32 = 0;
    while i < k
        invariant
            i <= k <= 20,
            r == pow2_spec(i as nat),
            pow2_spec(20) == 0x100000,
        decreases k - i,
    {
        proof {
            lemma_pow2_le(i as nat + 1, 20);
            assert(pow2_spec(i as nat + 1) == 2 * pow2_spec(i as nat));
        }
        r = r * 2;
        i = i + 1;
    }
    proof {
        lemma_pow2_le(0, k as nat);
        assert(pow2_spec(0) == 1);
        lemma_pow2_le(k as nat, 20);
    }
    r
}

/// The witness of one synthesis run: a two-dimensional table of optional
/// field values for each column kind, the per-row selector activations, and
/// the recorded copy constraints. Each per-kind table is stored flat, the
/// cell of column `c` at row `r` sitting at index `c * rows + r`.
pub struct Grid {
    pub rows: usize,
    pub usable: usize,
    pub n_advice: usize,
    pub n_fixed: usize,
    pub n_instance: usize,
    pub n_table: usize,
    pub n_selectors: usize,
    pub advice: Vec<Option<Felt>>,
    pub fixed: Vec<Option<Felt>>,
    pub instance: Vec<Option<Felt>>,
    pub table: Vec<Option<Felt>>,
    pub selectors: Vec<bool>,
    pub copies: Vec<(Cell, Cell)>,
}

/// A cell position that lies inside the grid: its row and its index among
/// the columns of its kind are both in range.
pub open spec fn cell_in_range(g: Grid, c: Cell) -> bool {
    &&& c.row < g.rows
    &&& match c.column.kind {
        ColKind::Advice => c.column.index < g.n_advice,
        ColKind::Fixed => c.column.index < g.n_fixed,
        ColKind::Instance => c.column.index < g.n_instance,
        ColKind::Table => c.column.index < g.n_table,
    }
}

/// A cell position that a copy constraint may name: an equality-eligible
/// column kind, in range for the grid.
pub open spec fn copy_cell_ok(g: Grid, c: Cell) -> bool {
    &&& c.row < g.rows
    &&& match c.column.kind {
        ColKind::Advice => c.column.index < g.n_advice,
        ColKind::Instance => c.column.index < g.n_instance,
        ColKind::Fixed => false,
        ColKind::Table => false,
    }
}

impl Grid {
    pub open spec fn advice_at(self, c: int, r: int) -> Option<Felt> {
        self.advice@[c * self.rows + r]
    }

    pub open spec fn fixed_at(self, c: int, r: int) -> Option<Felt> {
        self.fixed@[c * self.rows + r]
    }

    pub open spec fn instance_at(self, c: int, r: int) -> Option<Felt> {
        self.instance@[c * self.rows + r]
    }

    pub open spec fn table_at(self, c: int, r: int) -> Option<Felt> {
        self.table@[c * self.rows + r]
    }

    pub open spec fn sel_at(self, s: int, r: int) -> bool {
        self.selectors@[s * self.rows + r]
    }

    /// The value at a cell position, by the column's kind.
    pub open spec fn cell_at(self, c: Cell) -> Option<Felt> {
        match c.column.kind {
            ColKind::Advice => self.advice_at(c.column.index as int, c.row as int),
            ColKind::Fixed => self.fixed_at(c.column.index as int, c.row as int),
            ColKind::Instance => self.instance_at(c.column.index as int, c.row as int),
            ColKind::Table => self.table_at(c.column.index as int, c.row as int),
        }
    }

    pub open spec fn wf(self) -> bool {
        &&& 1 <= self.rows <= 0x100000
        &&& self.usable <= self.rows
        &&& self.n_advice <= 0xFFF
        &&& self.n_fixed <= 0xFFF
        &&& self.n_instance <= 0xFFF
        &&& self.n_table <= 0xFFF
        &&& self.n_selectors <= 0xFFF
        &&& self.advice@.len() == self.n_advice * self.rows
        &&& self.fixed@.len() == self.n_fixed * self.rows
        &&& self.instance@.len() == self.n_instance * self.rows
        &&& self.table@.len() == self.n_table * self.rows
        &&& self.selectors@.len() == self.n_selectors * self.rows
        &&& forall|i: int|
            0 <= i < self.advice@.len() ==> (#[trigger] self.advice@[i] matches Some(f) ==> f.wf())
        &&& forall|i: int|
            0 <= i < self.fixed@.len() ==> (#[trigger] self.fixed@[i] matches Some(f) ==> f.wf())
        &&& forall|i: int|
            0 <= i < self.instance@.len() ==> (#[trigger] self.instance@[i] matches Some(f)
                ==> f.wf())
        &&& forall|i: int|
            0 <= i < self.table@.len() ==> (#[trigger] self.table@[i] matches Some(f) ==> f.wf())
        &&& forall|i: int|
            0 <= i < self.copies@.len() ==> copy_cell_ok(self, (#[trigger] self.copies@[i]).0)
                && copy_cell_ok(self, self.copies@[i].1)
    }

    /// The grid was sized for this configuration.
    pub open spec fn matches_cs(self, cs: ConstraintSystem) -> bool {
        &&& self.n_advice == cs.n_advice
        &&& self.n_fixed == cs.n_fixed
        &&& self.n_instance == cs.n_instance
        &&& self.n_table == cs.n_table
        &&& self.n_selectors == cs.n_selectors
    }

    /// A fresh grid for a finished configuration: 2^k rows, of which all but
    /// the trailing `blinding` rows are usable; every cell unset, every
    /// selector off, no copy constraints.
    pub fn new(cs: &ConstraintSystem, k: u32, blinding: usize) -> (g: Grid)
        requires
            cs.wf(),
            k <= 20,
        ensures
            g.wf(),
            g.matches_cs(*cs),
            g.rows == pow2_spec(k as nat),
            g.usable == if blinding <= g.rows {
                g.rows - blinding
            } else {
                0
            },
            forall|i: int| 0 <= i < g.advice@.len() ==> (#[trigger] g.advice@[i]) is None,
            forall|i: int| 0 <= i < g.fixed@.len() ==> (#[trigger] g.fixed@[i]) is None,
            forall|i: int| 0 <= i < g.instance@.len() ==> (#[trigger] g.instance@[i]) is None,
            forall|i: int| 0 <= i < g.table@.len() ==> (#[trigger] g.table@[i]) is None,
            forall|i: int| 0 <= i < g.selectors@.len() ==> !(#[trigger] g.selectors@[i]),
            g.copies@.len() == 0,
    {
        let rows = rows_for_k(k);
        let usable = if blinding <= rows {
            rows - blinding
        } else {
            0
        };
        proof {
            lemma_mul_upper_bound(cs.n_advice as int, 0xFFF, rows as int, 0x100000);
            lemma_mul_upper_bound(cs.n_fixed as int, 0xFFF, rows as int, 0x100000);
            lemma_mul_upper_bound(cs.n_instance as int, 0xFFF, rows as int, 0x100000);
            lemma_mul_upper_bound(cs.n_table as int, 0xFFF, rows as int, 0x100000);
            lemma_mul_upper_bound(cs.n_selectors as int, 0xFFF, rows as int, 0x100000);
        }
        Grid {
            rows,
            usable,
            n_advice: cs.n_advice,
            n_fixed: cs.n_fixed,
            n_instance: cs.n_instance,
            n_table: cs.n_table,
            n_selectors: cs.n_selectors,
            advice: none_cells(cs.n_advice * rows),
            fixed: none_cells(cs.n_fixed * rows),
            instance: none_cells(cs.n_instance * rows),
            table: none_cells(cs.n_table * rows),
            selectors: false_flags(cs.n_selectors * rows),
            copies: Vec::new(),
        }
    }

    /// Reads the value at a cell position.
    pub fn read_cell(&self, c: Cell) -> (v: Option<Felt>)
        requires
            self.wf(),
            cell_in_range(*self, c),
        ensures
            v == self.cell_at(c),
    {
        match c.column.kind {
            ColKind::Advice => {
                proof {
                    lemma_flat_index(c.column.index as int, c.row as int, self.n_advice as int, self.rows as int);
                }
                self.advice[c.column.index * self.rows + c.row]
            },
            ColKind::Fixed => {
                proof {
                    lemma_flat_index(c.column.index as int, c.row as int, self.n_fixed as int, self.rows as int);
                }
                self.fixed[c.column.index * self.rows + c.row]
            },
            ColKind::Instance => {
                proof {
                    lemma_flat_index(c.column.index as int, c.row as int, self.n_instance as int, self.rows as int);
                }
                self.instance[c.column.index * self.rows + c.row]
            },
            ColKind::Table => {
                proof {
                    lemma_flat_index(c.column.index as int, c.row as int, self.n_table as int, self.rows as int);
                }
                self.table[c.column.index * self.rows + c.row]
            },
        }
    }

    /// The value of an advice cell, for inspection.
    pub fn advice_value(&self, col: usize, row: usize) -> (v: Option<Felt>)
        requires
            self.wf(),
            col < self.n_advice,
            row < self.rows,
        ensures
            v == self.advice_at(col as int, row as int),
    {
        proof {
            lemma_flat_index(col as int, row as int, self.n_advice as int, self.rows as int);
        }
        self.advice[col * self.rows + row]
    }
}

/// For `c < n` and `r < rows`, the flat index `c * rows + r` is in range.
pub proof fn lemma_flat_index(c: int, r: int, n: int, rows: int)
    requires
        0 <= c < n,
        0 <= r < rows,
        n <= 0xFFF,
        rows <= 0x100000,
    ensures
        0 <= c * rows + r < n * rows,
        c * rows + r < 0xFFF00000,
        c * rows + r >= r,
{
    assert(n * rows <= 0xFFF00000) by (nonlinear_arith)
        requires
            0 <= n <= 0xFFF,
            0 <= rows <= 0x100000,
    ;
    assert((c + 1) * rows == c * rows + rows) by (nonlinear_arith);
    assert((c + 1) * rows <= n * rows) by (nonlinear_arith)
        requires
            c + 1 <= n,
            rows >= 0,
    ;
    assert(c * rows >= 0) by (nonlinear_arith)
        requires
            c >= 0,
            rows >= 0,
    ;
}

/// Distinct (column, row) positions have distinct flat indices.
pub proof fn lemma_flat_index_injective(c1: int, r1: int, c2: int, r2: int, rows: int)
    requires
        0 <= r1 < rows,
        0 <= r2 < rows,
        0 <= c1,
        0 <= c2,
        c1 * rows + r1 == c2 * rows + r2,
    ensures
        c1 == c2,
        r1 == r2,
{
    assert(c1 == c2 && r1 == r2) by (nonlinear_arith)
        requires
            0 <= r1 < rows,
            0 <= r2 < rows,
            0 <= c1,
            0 <= c2,
            c1 * rows + r1 == c2 * rows + r2,
    ;
}

/// Distinct (column, row) positions, stated on the indices directly.
pub proof fn lemma_flat_index_distinct(c1: int, r1: int, c2: int, r2: int, rows: int)
    requires
        0 <= r1 < rows,
        0 <= r2 < rows,
        0 <= c1,
        0 <= c2,
        c1 != c2 || r1 != r2,
    ensures
        c1 * rows + r1 != c2 * rows + r2,
{
    if c1 * rows + r1 == c2 * rows + r2 {
        lemma_flat_index_injective(c1, r1, c2, r2, rows);
    }
}

fn none_cells(len: usize) -> (v: Vec<Option<Felt>>)
    ensures
        v@.len() == len,
        forall|i: int| 0 <= i < len ==> (#[trigger] v@[i]) is None,
{
    let mut v: Vec<Option<Felt>> = Vec::new();
    let mut i: usize = 0;
    while i < len
        invariant
            i <= len,
            v@.len() == i,
            forall|j: int| 0 <= j < i ==> (#[trigger] v@[j]) is None,
        decreases len - i,
    {
        v.push(None);
        i = i + 1;
    }
    v
}

fn false_flags(len: usize) -> (v: Vec<bool>)
    ensures
        v@.len() == len,
        forall|i: int| 0 <= i < len ==> !(#[trigger] v@[i]),
{
    let mut v: Vec<bool> = Vec::new();
    let mut i: usize = 0;
    while i < len
        invariant
            i <= len,
            v@.len() == i,
            forall|j: int| 0 <= j < i ==> !(#[trigger] v@[j]),
        decreases len - i,
    {
        v.push(false);
        i = i + 1;
    }
    v
}

} // verus!
