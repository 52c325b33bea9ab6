use vstd::prelude::*;
use crate::field::Felt;
use crate::cs::{ColKind, Column, ConfigError, ConstraintSystem, Selector, eq_enabled_spec};
use crate::grid::{Cell, Grid, cell_in_range, copy_cell_ok, lemma_flat_index};

verus! {

/// Lays a circuit's witness out into a grid. Regions are allocated one
/// after the other: a region opened at the next free absolute row maps each
/// author-relative offset to `base + offset`, and closing it advances the
/// next free row past the highest offset the region touched. Table columns
/// and instance columns are addressed by absolute row, outside regions.
pub struct Layouter {
    pub grid: Grid,
    pub next_row: usize,
    pub in_region: bool,
    pub base: usize,
    pub used: usize,
}

impl Layouter {
    pub open spec fn wf(self) -> bool {
        &&& self.grid.wf()
        &&& self.next_row <= self.grid.rows
        &&& self.in_region ==> self.base == self.next_row && self.base + self.used
            <= self.grid.rows
    }

    /// Starts laying out into a fresh grid.
    pub fn new(grid: Grid) -> (ly: Layouter)
        requires
            grid.wf(),
        ensures
            ly.wf(),
            ly.grid == grid,
            ly.next_row == 0,
            !ly.in_region,
    {
        Layouter { grid, next_row: 0, in_region: false, base: 0, used: 0 }
    }

    /// Opens a region at the next free row.
    pub fn begin_region(&mut self) -> (r: Result<(), ConfigError>)
        requires
            old(self).wf(),
        ensures
            final(self).wf(),
            ({
                if old(self).in_region {
                    r == Err::<(), ConfigError>(ConfigError::InsideRegion) && *final(self) == *old(
                        self,
                    )
                } else {
                    &&& r == Ok::<(), ConfigError>(())
                    &&& final(self).in_region
                    &&& final(self).base == old(self).next_row
                    &&& final(self).used == 0
                    &&& final(self).next_row == old(self).next_row
                    &&& final(self).grid == old(self).grid
                }
            }),
    {
        if self.in_region {
            return Err(ConfigError::InsideRegion);
        }
        self.base = self.next_row;
        self.used = 0;
        self.in_region = true;
        Ok(())
    }

    /// Closes the open region, advancing the next free row past every
    /// offset the region touched.
    pub fn end_region(&mut self) -> (r: Result<(), ConfigError>)
        requires
            old(self).wf(),
        ensures
            final(self).wf(),
            ({
                if !old(self).in_region {
                    r == Err::<(), ConfigError>(ConfigError::OutsideRegion) && *final(self)
                        == *old(self)
                } else {
                    &&& r == Ok::<(), ConfigError>(())
                    &&& !final(self).in_region
                    &&& final(self).next_row == old(self).base + old(self).used
                    &&& final(self).grid == old(self).grid
                }
            }),
    {
        if !self.in_region {
            return Err(ConfigError::OutsideRegion);
        }
        self.next_row = self.base + self.used;
        self.in_region = false;
        Ok(())
    }

    /// Turns the selector on at the region's `offset`-th row.
    pub fn enable_selector(&mut self, sel: Selector, offset: usize) -> (r: Result<
        (),
        ConfigError,
    >)
        requires
            old(self).wf(),
        ensures
            final(self).wf(),
            ({
                if !old(self).in_region {
                    r == Err::<(), ConfigError>(ConfigError::OutsideRegion) && *final(self)
                        == *old(self)
                } else if sel.index >= old(self).grid.n_selectors {
                    r == Err::<(), ConfigError>(ConfigError::ForeignColumn) && *final(self) == *old(
                        self,
                    )
                } else if old(self).base + offset >= old(self).grid.rows {
                    r == Err::<(), ConfigError>(ConfigError::RowOutOfRange) && *final(self) == *old(
                        self,
                    )
                } else {
                    &&& r == Ok::<(), ConfigError>(())
                    &&& final(self).grid.selectors@ == old(self).grid.selectors@.update(
                        sel.index * old(self).grid.rows + old(self).base + offset,
                        true,
                    )
                    &&& final(self).grid == (Grid {
                        selectors: final(self).grid.selectors,
                        ..old(self).grid
                    })
                    &&& final(self).used == if offset + 1 > old(self).used {
                        offset + 1
                    } else {
                        old(self).used as int
                    }
                    &&& *final(self) == (Layouter {
                        grid: final(self).grid,
                        used: final(self).used,
                        ..*old(self)
                    })
                }
            }),
    {
        if !self.in_region {
            return Err(ConfigError::OutsideRegion);
        }
        if sel.index >= self.grid.n_selectors {
            return Err(ConfigError::ForeignColumn);
        }
        if offset >= self.grid.rows - self.base {
            return Err(ConfigError::RowOutOfRange);
        }
        let row = self.base + offset;
        proof {
            lemma_flat_index(
                sel.index as int,
                row as int,
                self.grid.n_selectors as int,
                self.grid.rows as int,
            );
        }
        self.grid.selectors.set(sel.index * self.grid.rows + row, true);
        if offset + 1 > self.used {
            self.used = offset + 1;
        }
        Ok(())
    }

    /// Writes a witness value into an advice cell at the region's
    /// `offset`-th row, returning the absolute cell for later copying.
    pub fn assign_advice(&mut self, col: Column, offset: usize, v: Felt) -> (r: Result<
        Cell,
        ConfigError,
    >)
        requires
            old(self).wf(),
            v.wf(),
        ensures
            final(self).wf(),
            ({
                if !old(self).in_region {
                    r == Err::<Cell, ConfigError>(ConfigError::OutsideRegion) && *final(self)
                        == *old(self)
                } else if !(col.kind matches ColKind::Advice) {
                    r == Err::<Cell, ConfigError>(ConfigError::WrongColumnKind) && *final(self)
                        == *old(self)
                } else if col.index >= old(self).grid.n_advice {
                    r == Err::<Cell, ConfigError>(ConfigError::ForeignColumn) && *final(self)
                        == *old(self)
                } else if old(self).base + offset >= old(self).grid.rows {
                    r == Err::<Cell, ConfigError>(ConfigError::RowOutOfRange) && *final(self)
                        == *old(self)
                } else {
                    &&& r == Ok::<Cell, ConfigError>(
                        Cell { column: col, row: (old(self).base + offset) as usize },
                    )
                    &&& final(self).grid.advice@ == old(self).grid.advice@.update(
                        col.index * old(self).grid.rows + old(self).base + offset,
                        Some(v),
                    )
                    &&& final(self).grid == (Grid {
                        advice: final(self).grid.advice,
                        ..old(self).grid
                    })
                    &&& final(self).used == if offset + 1 > old(self).used {
                        offset + 1
                    } else {
                        old(self).used as int
                    }
                    &&& *final(self) == (Layouter {
                        grid: final(self).grid,
                        used: final(self).used,
                        ..*old(self)
                    })
                }
            }),
    {
        if !self.in_region {
            return Err(ConfigError::OutsideRegion);
        }
        if !matches!(col.kind, ColKind::Advice) {
            return Err(ConfigError::WrongColumnKind);
        }
        if col.index >= self.grid.n_advice {
            return Err(ConfigError::ForeignColumn);
        }
        if offset >= self.grid.rows - self.base {
            return Err(ConfigError::RowOutOfRange);
        }
        let row = self.base + offset;
        proof {
            lemma_flat_index(
                col.index as int,
                row as int,
                self.grid.n_advice as int,
                self.grid.rows as int,
            );
        }
        self.grid.advice.set(col.index * self.grid.rows + row, Some(v));
        if offset + 1 > self.used {
            self.used = offset + 1;
        }
        Ok(Cell { column: col, row })
    }

    /// Writes a circuit constant into a fixed cell at the region's
    /// `offset`-th row.
    pub fn assign_fixed(&mut self, col: Column, offset: usize, v: Felt) -> (r: Result<
        Cell,
        ConfigError,
    >)
        requires
            old(self).wf(),
            v.wf(),
        ensures
            final(self).wf(),
            ({
                if !old(self).in_region {
                    r == Err::<Cell, ConfigError>(ConfigError::OutsideRegion) && *final(self)
                        == *old(self)
                } else if !(col.kind matches ColKind::Fixed) {
                    r == Err::<Cell, ConfigError>(ConfigError::WrongColumnKind) && *final(self)
                        == *old(self)
                } else if col.index >= old(self).grid.n_fixed {
                    r == Err::<Cell, ConfigError>(ConfigError::ForeignColumn) && *final(self)
                        == *old(self)
                } else if old(self).base + offset >= old(self).grid.rows {
                    r == Err::<Cell, ConfigError>(ConfigError::RowOutOfRange) && *final(self)
                        == *old(self)
                } else {
                    &&& r == Ok::<Cell, ConfigError>(
                        Cell { column: col, row: (old(self).base + offset) as usize },
                    )
                    &&& final(self).grid.fixed@ == old(self).grid.fixed@.update(
                        col.index * old(self).grid.rows + old(self).base + offset,
                        Some(v),
                    )
                    &&& final(self).grid == (Grid {
                        fixed: final(self).grid.fixed,
                        ..old(self).grid
                    })
                    &&& final(self).used == if offset + 1 > old(self).used {
                        offset + 1
                    } else {
                        old(self).used as int
                    }
                    &&& *final(self) == (Layouter {
                        grid: final(self).grid,
                        used: final(self).used,
                        ..*old(self)
                    })
                }
            }),
    {
        if !self.in_region {
            return Err(ConfigError::OutsideRegion);
        }
        if !matches!(col.kind, ColKind::Fixed) {
            return Err(ConfigError::WrongColumnKind);
        }
        if col.index >= self.grid.n_fixed {
            return Err(ConfigError::ForeignColumn);
        }
        if offset >= self.grid.rows - self.base {
            return Err(ConfigError::RowOutOfRange);
        }
        let row = self.base + offset;
        proof {
            lemma_flat_index(
                col.index as int,
                row as int,
                self.grid.n_fixed as int,
                self.grid.rows as int,
            );
        }
        self.grid.fixed.set(col.index * self.grid.rows + row, Some(v));
        if offset + 1 > self.used {
            self.used = offset + 1;
        }
        Ok(Cell { column: col, row })
    }

    /// Writes a value into a lookup table cell, addressed by absolute row
    /// from the top of the reserved table region.
    pub fn assign_table_cell(&mut self, col: Column, row: usize, v: Felt) -> (r: Result<
        (),
        ConfigError,
    >)
        requires
            old(self).wf(),
            v.wf(),
        ensures
            final(self).wf(),
            ({
                if !(col.kind matches ColKind::Table) {
                    r == Err::<(), ConfigError>(ConfigError::WrongColumnKind) && *final(self)
                        == *old(self)
                } else if col.index >= old(self).grid.n_table {
                    r == Err::<(), ConfigError>(ConfigError::ForeignColumn) && *final(self) == *old(
                        self,
                    )
                } else if row >= old(self).grid.rows {
                    r == Err::<(), ConfigError>(ConfigError::RowOutOfRange) && *final(self) == *old(
                        self,
                    )
                } else {
                    &&& r == Ok::<(), ConfigError>(())
                    &&& final(self).grid.table@ == old(self).grid.table@.update(
                        col.index * old(self).grid.rows + row,
                        Some(v),
                    )
                    &&& final(self).grid == (Grid {
                        table: final(self).grid.table,
                        ..old(self).grid
                    })
                    &&& *final(self) == (Layouter { grid: final(self).grid, ..*old(self) })
                }
            }),
    {
        if !matches!(col.kind, ColKind::Table) {
            return Err(ConfigError::WrongColumnKind);
        }
        if col.index >= self.grid.n_table {
            return Err(ConfigError::ForeignColumn);
        }
        if row >= self.grid.rows {
            return Err(ConfigError::RowOutOfRange);
        }
        proof {
            lemma_flat_index(
                col.index as int,
                row as int,
                self.grid.n_table as int,
                self.grid.rows as int,
            );
        }
        self.grid.table.set(col.index * self.grid.rows + row, Some(v));
        Ok(())
    }

    /// Writes a public input into an instance cell, addressed by absolute
    /// row.
    pub fn set_instance(&mut self, col: Column, row: usize, v: Felt) -> (r: Result<
        (),
        ConfigError,
    >)
        requires
            old(self).wf(),
            v.wf(),
        ensures
            final(self).wf(),
            ({
                if !(col.kind matches ColKind::Instance) {
                    r == Err::<(), ConfigError>(ConfigError::WrongColumnKind) && *final(self)
                        == *old(self)
                } else if col.index >= old(self).grid.n_instance {
                    r == Err::<(), ConfigError>(ConfigError::ForeignColumn) && *final(self) == *old(
                        self,
                    )
                } else if row >= old(self).grid.rows {
                    r == Err::<(), ConfigError>(ConfigError::RowOutOfRange) && *final(self) == *old(
                        self,
                    )
                } else {
                    &&& r == Ok::<(), ConfigError>(())
                    &&& final(self).grid.instance@ == old(self).grid.instance@.update(
                        col.index * old(self).grid.rows + row,
                        Some(v),
                    )
                    &&& final(self).grid == (Grid {
                        instance: final(self).grid.instance,
                        ..old(self).grid
                    })
                    &&& *final(self) == (Layouter { grid: final(self).grid, ..*old(self) })
                }
            }),
    {
        if !matches!(col.kind, ColKind::Instance) {
            return Err(ConfigError::WrongColumnKind);
        }
        if col.index >= self.grid.n_instance {
            return Err(ConfigError::ForeignColumn);
        }
        if row >= self.grid.rows {
            return Err(ConfigError::RowOutOfRange);
        }
        proof {
            lemma_flat_index(
                col.index as int,
                row as int,
                self.grid.n_instance as int,
                self.grid.rows as int,
            );
        }
        self.grid.instance.set(col.index * self.grid.rows + row, Some(v));
        Ok(())
    }

    /// Records a copy constraint between two already-assigned cells of
    /// equality-enabled columns, without rewriting either value.
    pub fn constrain_equal(&mut self, cs: &ConstraintSystem, a: Cell, b: Cell) -> (r: Result<
        (),
        ConfigError,
    >)
        requires
            old(self).wf(),
            cs.wf(),
            old(self).grid.matches_cs(*cs),
        ensures
            final(self).wf(),
            ({
                if !eq_enabled_spec(*cs, a.column) || !eq_enabled_spec(*cs, b.column) {
                    r == Err::<(), ConfigError>(ConfigError::NotEqualityEnabled) && *final(self)
                        == *old(self)
                } else if a.row >= old(self).grid.rows || b.row >= old(self).grid.rows {
                    r == Err::<(), ConfigError>(ConfigError::RowOutOfRange) && *final(self) == *old(
                        self,
                    )
                } else if old(self).grid.cell_at(a) is None || old(self).grid.cell_at(b) is None {
                    r == Err::<(), ConfigError>(ConfigError::NotAssigned) && *final(self) == *old(
                        self,
                    )
                } else {
                    &&& r == Ok::<(), ConfigError>(())
                    &&& final(self).grid.copies@ == old(self).grid.copies@.push((a, b))
                    &&& final(self).grid == (Grid {
                        copies: final(self).grid.copies,
                        ..old(self).grid
                    })
                    &&& *final(self) == (Layouter { grid: final(self).grid, ..*old(self) })
                }
            }),
    {
        if !self.grid_eq_ok(cs, a) || !self.grid_eq_ok(cs, b) {
            return Err(ConfigError::NotEqualityEnabled);
        }
        if a.row >= self.grid.rows || b.row >= self.grid.rows {
            return Err(ConfigError::RowOutOfRange);
        }
        let va = self.grid.read_cell(a);
        let vb = self.grid.read_cell(b);
        if va.is_none() || vb.is_none() {
            return Err(ConfigError::NotAssigned);
        }
        self.grid.copies.push((a, b));
        Ok(())
    }

    /// Writes the value of `src` into an advice cell at the region's
    /// `offset`-th row and records a copy constraint between the two cells.
    pub fn copy_advice(&mut self, cs: &ConstraintSystem, src: Cell, col: Column, offset: usize) -> (r:
        Result<Cell, ConfigError>)
        requires
            old(self).wf(),
            cs.wf(),
            old(self).grid.matches_cs(*cs),
        ensures
            final(self).wf(),
            ({
                let dst_row = old(self).base + offset;
                if !old(self).in_region {
                    r == Err::<Cell, ConfigError>(ConfigError::OutsideRegion) && *final(self)
                        == *old(self)
                } else if !(col.kind matches ColKind::Advice) {
                    r == Err::<Cell, ConfigError>(ConfigError::WrongColumnKind) && *final(self)
                        == *old(self)
                } else if !eq_enabled_spec(*cs, col) || !eq_enabled_spec(*cs, src.column) {
                    r == Err::<Cell, ConfigError>(ConfigError::NotEqualityEnabled) && *final(self)
                        == *old(self)
                } else if src.row >= old(self).grid.rows {
                    r == Err::<Cell, ConfigError>(ConfigError::RowOutOfRange) && *final(self)
                        == *old(self)
                } else if old(self).grid.cell_at(src) is None {
                    r == Err::<Cell, ConfigError>(ConfigError::NotAssigned) && *final(self) == *old(
                        self,
                    )
                } else if dst_row >= old(self).grid.rows {
                    r == Err::<Cell, ConfigError>(ConfigError::RowOutOfRange) && *final(self)
                        == *old(self)
                } else {
                    &&& r == Ok::<Cell, ConfigError>(
                        Cell { column: col, row: dst_row as usize },
                    )
                    &&& final(self).grid.advice@ == old(self).grid.advice@.update(
                        col.index * old(self).grid.rows + dst_row,
                        old(self).grid.cell_at(src),
                    )
                    &&& final(self).grid.copies@ == old(self).grid.copies@.push(
                        (src, (Cell { column: col, row: dst_row as usize })),
                    )
                    &&& final(self).grid == (Grid {
                        advice: final(self).grid.advice,
                        copies: final(self).grid.copies,
                        ..old(self).grid
                    })
                    &&& final(self).used == if offset + 1 > old(self).used {
                        offset + 1
                    } else {
                        old(self).used as int
                    }
                    &&& *final(self) == (Layouter {
                        grid: final(self).grid,
                        used: final(self).used,
                        ..*old(self)
                    })
                }
            }),
    {
        if !self.in_region {
            return Err(ConfigError::OutsideRegion);
        }
        if !matches!(col.kind, ColKind::Advice) {
            return Err(ConfigError::WrongColumnKind);
        }
        if !self.grid_eq_ok(cs, Cell { column: col, row: 0 }) || !self.grid_eq_ok(cs, src) {
            return Err(ConfigError::NotEqualityEnabled);
        }
        if src.row >= self.grid.rows {
            return Err(ConfigError::RowOutOfRange);
        }
        proof {
            match src.column.kind {
                ColKind::Advice => {
                    lemma_flat_index(
                        src.column.index as int,
                        src.row as int,
                        self.grid.n_advice as int,
                        self.grid.rows as int,
                    );
                },
                ColKind::Instance => {
                    lemma_flat_index(
                        src.column.index as int,
                        src.row as int,
                        self.grid.n_instance as int,
                        self.grid.rows as int,
                    );
                },
                _ => {},
            }
        }
        let sv = self.grid.read_cell(src);
        let v = match sv {
            Some(v) => v,
            None => {
                return Err(ConfigError::NotAssigned);
            },
        };
        if offset >= self.grid.rows - self.base {
            return Err(ConfigError::RowOutOfRange);
        }
        let row = self.base + offset;
        proof {
            lemma_flat_index(
                col.index as int,
                row as int,
                self.grid.n_advice as int,
                self.grid.rows as int,
            );
        }
        self.grid.advice.set(col.index * self.grid.rows + row, Some(v));
        let dst = Cell { column: col, row };
        self.grid.copies.push((src, dst));
        if offset + 1 > self.used {
            self.used = offset + 1;
        }
        Ok(dst)
    }

    /// Whether a column is equality-enabled, by the configuration.
    fn grid_eq_ok(&self, cs: &ConstraintSystem, c: Cell) -> (b: bool)
        requires
            cs.wf(),
        ensures
            b == eq_enabled_spec(*cs, c.column),
    {
        cs.eq_enabled(c.column)
    }
}

} // verus!
