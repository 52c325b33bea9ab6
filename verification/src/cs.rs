use vstd::prelude::*;
use crate::expr::{Expr, expr_ok, check_expr, lemma_expr_ok_mono};

verus! {

/// The kind of a column: who fills it and what it is for.
#[derive(Clone, Copy, PartialEq, Eq, Structural, Debug)]
pub enum ColKind {
    /// Witness values, chosen per instance.
    Advice,
    /// Circuit-defined constants, the same across instances.
    Fixed,
    /// Public inputs.
    Instance,
    /// Contents of a lookup table.
    Table,
}

/// A handle for a declared column: its kind and its index among the columns
/// of that kind.
#[derive(Clone, Copy, PartialEq, Eq, Structural, Debug)]
pub struct Column {
    pub kind: ColKind,
    pub index: usize,
}

/// A handle for a declared selector.
#[derive(Clone, Copy, PartialEq, Eq, Structural, Debug)]
pub struct Selector {
    pub index: usize,
}

/// A configuration error: the circuit description itself is malformed.
#[derive(Clone, Copy, PartialEq, Eq, Structural, Debug)]
pub enum ConfigError {
    /// A gate was declared with no polynomial.
    EmptyGate,
    /// A lookup was declared with no pair.
    EmptyLookup,
    /// A gate reused the name of an earlier gate.
    DuplicateName,
    /// An expression queried a column or selector that the configuration
    /// does not own.
    ForeignExpression,
    /// A column handle does not name a declared column.
    ForeignColumn,
    /// Equality was requested on a column kind that cannot take part in
    /// copy constraints.
    EqualityNotAllowed,
    /// A copy constraint named a column that is not equality-enabled.
    NotEqualityEnabled,
    /// An assignment named a column of the wrong kind.
    WrongColumnKind,
    /// An assignment fell outside the grid's rows.
    RowOutOfRange,
    /// A region operation was used outside a region.
    OutsideRegion,
    /// A region was opened while another was open.
    InsideRegion,
    /// A copy constraint named a cell that was never assigned.
    NotAssigned,
}

/// A named gate: a non-empty list of polynomials, all of which must vanish
/// at every usable row.
pub struct Gate {
    pub name: String,
    pub polys: Vec<Expr>,
}

/// A pair of a lookup: the input expression together with the index of the
/// table column its value must be found in.
pub open spec fn pair_ok(p: (Expr, usize), na: int, nf: int, ns: int, nt: int) -> bool {
    expr_ok(p.0, na, nf, ns) && p.1 < nt
}

/// A named lookup argument: a non-empty list of (input expression, table
/// column) pairs.
pub struct Lookup {
    pub name: String,
    pub pairs: Vec<(Expr, usize)>,
}

impl Gate {
    pub open spec fn wf(self, na: int, nf: int, ns: int) -> bool {
        &&& self.polys@.len() >= 1
        &&& forall|i: int| 0 <= i < self.polys@.len() ==> expr_ok(#[trigger] self.polys@[i], na, nf, ns)
    }
}

impl Lookup {
    pub open spec fn wf(self, na: int, nf: int, ns: int, nt: int) -> bool {
        &&& self.pairs@.len() >= 1
        &&& forall|i: int| 0 <= i < self.pairs@.len() ==> pair_ok(#[trigger] self.pairs@[i], na, nf, ns, nt)
    }
}

/// The static shape of a circuit: how many columns of each kind and how many
/// selectors exist, which advice and instance columns may take part in copy
/// constraints, and the declared gates and lookup arguments. Built once,
/// before any witness exists, and immutable afterwards.
pub struct ConstraintSystem {
    pub n_advice: usize,
    pub n_fixed: usize,
    pub n_instance: usize,
    pub n_table: usize,
    pub n_selectors: usize,
    pub advice_eq: Vec<bool>,
    pub instance_eq: Vec<bool>,
    pub selector_complex: Vec<bool>,
    pub gates: Vec<Gate>,
    pub lookups: Vec<Lookup>,
}

/// Whether a column may take part in copy constraints under this
/// configuration.
pub open spec fn eq_enabled_spec(cs: ConstraintSystem, col: Column) -> bool {
    match col.kind {
        ColKind::Advice => col.index < cs.n_advice && cs.advice_eq@[col.index as int],
        ColKind::Instance => col.index < cs.n_instance && cs.instance_eq@[col.index as int],
        ColKind::Fixed => false,
        ColKind::Table => false,
    }
}

impl ConstraintSystem {
    pub open spec fn wf(self) -> bool {
        &&& self.n_advice <= 0xFFF
        &&& self.n_fixed <= 0xFFF
        &&& self.n_instance <= 0xFFF
        &&& self.n_table <= 0xFFF
        &&& self.n_selectors <= 0xFFF
        &&& self.advice_eq@.len() == self.n_advice
        &&& self.instance_eq@.len() == self.n_instance
        &&& self.selector_complex@.len() == self.n_selectors
        &&& forall|i: int|
            0 <= i < self.gates@.len() ==> (#[trigger] self.gates@[i]).wf(
                self.n_advice as int,
                self.n_fixed as int,
                self.n_selectors as int,
            )
        &&& forall|i: int|
            0 <= i < self.lookups@.len() ==> (#[trigger] self.lookups@[i]).wf(
                self.n_advice as int,
                self.n_fixed as int,
                self.n_selectors as int,
                self.n_table as int,
            )
        &&& forall|i: int, j: int|
            0 <= i < j < self.gates@.len() ==> (#[trigger] self.gates@[i]).name@ != (
            #[trigger] self.gates@[j]).name@
    }

    /// All fields except the counts and per-column flags are unchanged.
    pub open spec fn same_bodies(self, other: ConstraintSystem) -> bool {
        &&& self.gates == other.gates
        &&& self.lookups == other.lookups
    }

    /// An empty configuration: no columns, selectors, gates or lookups.
    pub fn new() -> (cs: ConstraintSystem)
        ensures
            cs.wf(),
            cs.n_advice == 0,
            cs.n_fixed == 0,
            cs.n_instance == 0,
            cs.n_table == 0,
            cs.n_selectors == 0,
            cs.gates@.len() == 0,
            cs.lookups@.len() == 0,
    {
        ConstraintSystem {
            n_advice: 0,
            n_fixed: 0,
            n_instance: 0,
            n_table: 0,
            n_selectors: 0,
            advice_eq: Vec::new(),
            instance_eq: Vec::new(),
            selector_complex: Vec::new(),
            gates: Vec::new(),
            lookups: Vec::new(),
        }
    }

    /// Allocates a fresh advice (witness) column.
    pub fn advice_column(&mut self) -> (c: Column)
        requires
            old(self).wf(),
            old(self).n_advice < 0xFFF,
        ensures
            final(self).wf(),
            c == (Column { kind: ColKind::Advice, index: old(self).n_advice }),
            final(self).n_advice == old(self).n_advice + 1,
            final(self).advice_eq@ == old(self).advice_eq@.push(false),
            final(self).n_fixed == old(self).n_fixed,
            final(self).n_instance == old(self).n_instance,
            final(self).n_table == old(self).n_table,
            final(self).n_selectors == old(self).n_selectors,
            final(self).instance_eq == old(self).instance_eq,
            final(self).selector_complex == old(self).selector_complex,
            final(self).same_bodies(*old(self)),
    {
        let idx = self.n_advice;
        self.n_advice = self.n_advice + 1;
        self.advice_eq.push(false);
        proof {
            lemma_bodies_wf_mono(*old(self), *self);
        }
        Column { kind: ColKind::Advice, index: idx }
    }

    /// Allocates a fresh fixed (circuit constant) column.
    pub fn fixed_column(&mut self) -> (c: Column)
        requires
            old(self).wf(),
            old(self).n_fixed < 0xFFF,
        ensures
            final(self).wf(),
            c == (Column { kind: ColKind::Fixed, index: old(self).n_fixed }),
            final(self).n_fixed == old(self).n_fixed + 1,
            final(self).n_advice == old(self).n_advice,
            final(self).n_instance == old(self).n_instance,
            final(self).n_table == old(self).n_table,
            final(self).n_selectors == old(self).n_selectors,
            final(self).advice_eq == old(self).advice_eq,
            final(self).instance_eq == old(self).instance_eq,
            final(self).selector_complex == old(self).selector_complex,
            final(self).same_bodies(*old(self)),
    {
        let idx = self.n_fixed;
        self.n_fixed = self.n_fixed + 1;
        proof {
            lemma_bodies_wf_mono(*old(self), *self);
        }
        Column { kind: ColKind::Fixed, index: idx }
    }

    /// Allocates a fresh instance (public input) column.
    pub fn instance_column(&mut self) -> (c: Column)
        requires
            old(self).wf(),
            old(self).n_instance < 0xFFF,
        ensures
            final(self).wf(),
            c == (Column { kind: ColKind::Instance, index: old(self).n_instance }),
            final(self).n_instance == old(self).n_instance + 1,
            final(self).instance_eq@ == old(self).instance_eq@.push(false),
            final(self).n_advice == old(self).n_advice,
            final(self).n_fixed == old(self).n_fixed,
            final(self).n_table == old(self).n_table,
            final(self).n_selectors == old(self).n_selectors,
            final(self).advice_eq == old(self).advice_eq,
            final(self).selector_complex == old(self).selector_complex,
            final(self).same_bodies(*old(self)),
    {
        let idx = self.n_instance;
        self.n_instance = self.n_instance + 1;
        self.instance_eq.push(false);
        proof {
            lemma_bodies_wf_mono(*old(self), *self);
        }
        Column { kind: ColKind::Instance, index: idx }
    }

    /// Allocates a fresh lookup table column.
    pub fn lookup_table_column(&mut self) -> (c: Column)
        requires
            old(self).wf(),
            old(self).n_table < 0xFFF,
        ensures
            final(self).wf(),
            c == (Column { kind: ColKind::Table, index: old(self).n_table }),
            final(self).n_table == old(self).n_table + 1,
            final(self).n_advice == old(self).n_advice,
            final(self).n_fixed == old(self).n_fixed,
            final(self).n_instance == old(self).n_instance,
            final(self).n_selectors == old(self).n_selectors,
            final(self).advice_eq == old(self).advice_eq,
            final(self).instance_eq == old(self).instance_eq,
            final(self).selector_complex == old(self).selector_complex,
            final(self).same_bodies(*old(self)),
    {
        let idx = self.n_table;
        self.n_table = self.n_table + 1;
        proof {
            lemma_bodies_wf_mono(*old(self), *self);
        }
        Column { kind: ColKind::Table, index: idx }
    }

    /// Allocates a fresh simple selector.
    pub fn selector(&mut self) -> (s: Selector)
        requires
            old(self).wf(),
            old(self).n_selectors < 0xFFF,
        ensures
            final(self).wf(),
            s == (Selector { index: old(self).n_selectors }),
            final(self).n_selectors == old(self).n_selectors + 1,
            final(self).selector_complex@ == old(self).selector_complex@.push(false),
            final(self).n_advice == old(self).n_advice,
            final(self).n_fixed == old(self).n_fixed,
            final(self).n_instance == old(self).n_instance,
            final(self).n_table == old(self).n_table,
            final(self).advice_eq == old(self).advice_eq,
            final(self).instance_eq == old(self).instance_eq,
            final(self).same_bodies(*old(self)),
    {
        let idx = self.n_selectors;
        self.n_selectors = self.n_selectors + 1;
        self.selector_complex.push(false);
        proof {
            lemma_bodies_wf_mono(*old(self), *self);
        }
        Selector { index: idx }
    }

    /// Allocates a fresh complex selector, usable in lookups.
    pub fn complex_selector(&mut self) -> (s: Selector)
        requires
            old(self).wf(),
            old(self).n_selectors < 0xFFF,
        ensures
            final(self).wf(),
            s == (Selector { index: old(self).n_selectors }),
            final(self).n_selectors == old(self).n_selectors + 1,
            final(self).selector_complex@ == old(self).selector_complex@.push(true),
            final(self).n_advice == old(self).n_advice,
            final(self).n_fixed == old(self).n_fixed,
            final(self).n_instance == old(self).n_instance,
            final(self).n_table == old(self).n_table,
            final(self).advice_eq == old(self).advice_eq,
            final(self).instance_eq == old(self).instance_eq,
            final(self).same_bodies(*old(self)),
    {
        let idx = self.n_selectors;
        self.n_selectors = self.n_selectors + 1;
        self.selector_complex.push(true);
        proof {
            lemma_bodies_wf_mono(*old(self), *self);
        }
        Selector { index: idx }
    }

    /// Marks an advice or instance column as eligible for copy constraints.
    /// Table and fixed columns cannot take part in them.
    pub fn enable_equality(&mut self, col: Column) -> (r: Result<(), ConfigError>)
        requires
            old(self).wf(),
        ensures
            final(self).wf(),
            ({
                if col.kind matches ColKind::Advice && col.index < old(self).n_advice {
                    &&& r == Ok::<(), ConfigError>(())
                    &&& final(self).advice_eq@ == old(self).advice_eq@.update(col.index as int, true)
                    &&& final(self).instance_eq == old(self).instance_eq
                    &&& *final(self) == (ConstraintSystem { advice_eq: final(self).advice_eq, ..*old(self) })
                } else if col.kind matches ColKind::Instance && col.index < old(self).n_instance {
                    &&& r == Ok::<(), ConfigError>(())
                    &&& final(self).instance_eq@ == old(self).instance_eq@.update(col.index as int, true)
                    &&& final(self).advice_eq == old(self).advice_eq
                    &&& *final(self) == (ConstraintSystem { instance_eq: final(self).instance_eq, ..*old(self) })
                } else if (col.kind matches ColKind::Advice) || (col.kind matches ColKind::Instance) {
                    r == Err::<(), ConfigError>(ConfigError::ForeignColumn) && *final(self) == *old(self)
                } else {
                    r == Err::<(), ConfigError>(ConfigError::EqualityNotAllowed) && *final(self) == *old(self)
                }
            }),
    {
        match col.kind {
            ColKind::Advice => {
                if col.index < self.advice_eq.len() {
                    self.advice_eq.set(col.index, true);
                    Ok(())
                } else {
                    Err(ConfigError::ForeignColumn)
                }
            },
            ColKind::Instance => {
                if col.index < self.instance_eq.len() {
                    self.instance_eq.set(col.index, true);
                    Ok(())
                } else {
                    Err(ConfigError::ForeignColumn)
                }
            },
            ColKind::Fixed => Err(ConfigError::EqualityNotAllowed),
            ColKind::Table => Err(ConfigError::EqualityNotAllowed),
        }
    }

    /// Decides `eq_enabled_spec`.
    pub fn eq_enabled(&self, col: Column) -> (b: bool)
        requires
            self.wf(),
        ensures
            b == eq_enabled_spec(*self, col),
    {
        match col.kind {
            ColKind::Advice => col.index < self.advice_eq.len() && self.advice_eq[col.index],
            ColKind::Instance => col.index < self.instance_eq.len() && self.instance_eq[col.index],
            ColKind::Fixed => false,
            ColKind::Table => false,
        }
    }

    /// Declares a gate: a fresh name and a non-empty list of polynomials,
    /// every one of which must vanish at every usable row of a grid. The
    /// polynomials may only query columns and selectors owned by this
    /// configuration; no selector factor is added implicitly.
    pub fn create_gate(&mut self, name: String, polys: Vec<Expr>) -> (r: Result<(), ConfigError>)
        requires
            old(self).wf(),
        ensures
            final(self).wf(),
            ({
                let dup = exists|i: int|
                    0 <= i < old(self).gates@.len() && (#[trigger] old(self).gates@[i]).name@
                        == name@;
                let all_ok = forall|i: int|
                    0 <= i < polys@.len() ==> expr_ok(
                        #[trigger] polys@[i],
                        old(self).n_advice as int,
                        old(self).n_fixed as int,
                        old(self).n_selectors as int,
                    );
                if polys@.len() == 0 {
                    r == Err::<(), ConfigError>(ConfigError::EmptyGate) && *final(self) == *old(self)
                } else if dup {
                    r == Err::<(), ConfigError>(ConfigError::DuplicateName) && *final(self) == *old(self)
                } else if !all_ok {
                    r == Err::<(), ConfigError>(ConfigError::ForeignExpression) && *final(self) == *old(self)
                } else {
                    &&& r == Ok::<(), ConfigError>(())
                    &&& final(self).gates@ == old(self).gates@.push((Gate { name, polys }))
                    &&& *final(self) == (ConstraintSystem { gates: final(self).gates, ..*old(self) })
                }
            }),
    {
        if polys.len() == 0 {
            return Err(ConfigError::EmptyGate);
        }
        let n = self.gates.len();
        let mut i: usize = 0;
        while i < n
            invariant
                self == old(self),
                old(self).wf(),
                polys@.len() != 0,
                n == self.gates@.len(),
                forall|j: int| 0 <= j < i ==> (#[trigger] self.gates@[j]).name@ != name@,
            decreases n - i,
        {
            if self.gates[i].name == name {
                proof {
                    assert(old(self).gates@[i as int].name@ == name@);
                }
                return Err(ConfigError::DuplicateName);
            }
            i = i + 1;
        }
        let mut j: usize = 0;
        while j < polys.len()
            invariant
                self == old(self),
                old(self).wf(),
                polys@.len() != 0,
                forall|t: int| 0 <= t < self.gates@.len() ==> (#[trigger] self.gates@[t]).name@ != name@,
                forall|t: int|
                    0 <= t < j ==> expr_ok(
                        #[trigger] polys@[t],
                        self.n_advice as int,
                        self.n_fixed as int,
                        self.n_selectors as int,
                    ),
            decreases polys@.len() - j,
        {
            if !check_expr(&polys[j], self.n_advice, self.n_fixed, self.n_selectors) {
                return Err(ConfigError::ForeignExpression);
            }
            j = j + 1;
        }
        self.gates.push(Gate { name, polys });
        Ok(())
    }

    /// Declares a lookup argument: a name and a non-empty list of (input
    /// expression, table column) pairs. At every usable row, the tuple of
    /// input values must appear among the rows of the referenced table
    /// columns.
    pub fn lookup(&mut self, name: String, pairs: Vec<(Expr, usize)>) -> (r: Result<
        (),
        ConfigError,
    >)
        requires
            old(self).wf(),
        ensures
            final(self).wf(),
            ({
                let all_ok = forall|i: int|
                    0 <= i < pairs@.len() ==> pair_ok(
                        #[trigger] pairs@[i],
                        old(self).n_advice as int,
                        old(self).n_fixed as int,
                        old(self).n_selectors as int,
                        old(self).n_table as int,
                    );
                if pairs@.len() == 0 {
                    r == Err::<(), ConfigError>(ConfigError::EmptyLookup) && *final(self) == *old(self)
                } else if !all_ok {
                    r == Err::<(), ConfigError>(ConfigError::ForeignExpression) && *final(self) == *old(self)
                } else {
                    &&& r == Ok::<(), ConfigError>(())
                    &&& final(self).lookups@ == old(self).lookups@.push((Lookup { name, pairs }))
                    &&& *final(self) == (ConstraintSystem { lookups: final(self).lookups, ..*old(self) })
                }
            }),
    {
        if pairs.len() == 0 {
            return Err(ConfigError::EmptyLookup);
        }
        let mut j: usize = 0;
        while j < pairs.len()
            invariant
                self == old(self),
                old(self).wf(),
                pairs@.len() != 0,
                forall|t: int|
                    0 <= t < j ==> pair_ok(
                        #[trigger] pairs@[t],
                        self.n_advice as int,
                        self.n_fixed as int,
                        self.n_selectors as int,
                        self.n_table as int,
                    ),
            decreases pairs@.len() - j,
        {
            let ok = check_expr(&pairs[j].0, self.n_advice, self.n_fixed, self.n_selectors)
                && pairs[j].1 < self.n_table;
            if !ok {
                return Err(ConfigError::ForeignExpression);
            }
            j = j + 1;
        }
        self.lookups.push(Lookup { name, pairs });
        Ok(())
    }
}

/// Gates and lookups stay well formed when the configuration only grows.
proof fn lemma_bodies_wf_mono(a: ConstraintSystem, b: ConstraintSystem)
    requires
        a.wf(),
        a.gates == b.gates,
        a.lookups == b.lookups,
        a.n_advice <= b.n_advice,
        a.n_fixed <= b.n_fixed,
        a.n_selectors <= b.n_selectors,
        a.n_table <= b.n_table,
    ensures
        forall|i: int|
            0 <= i < b.gates@.len() ==> (#[trigger] b.gates@[i]).wf(
                b.n_advice as int,
                b.n_fixed as int,
                b.n_selectors as int,
            ),
        forall|i: int|
            0 <= i < b.lookups@.len() ==> (#[trigger] b.lookups@[i]).wf(
                b.n_advice as int,
                b.n_fixed as int,
                b.n_selectors as int,
                b.n_table as int,
            ),
{
    assert forall|i: int|
        0 <= i < b.gates@.len() implies (#[trigger] b.gates@[i]).wf(
        b.n_advice as int,
        b.n_fixed as int,
        b.n_selectors as int,
    ) by {
        let g = b.gates@[i];
        assert(g.wf(a.n_advice as int, a.n_fixed as int, a.n_selectors as int));
        assert forall|t: int| 0 <= t < g.polys@.len() implies expr_ok(
            #[trigger] g.polys@[t],
            b.n_advice as int,
            b.n_fixed as int,
            b.n_selectors as int,
        ) by {
            lemma_expr_ok_mono(
                g.polys@[t],
                a.n_advice as int,
                a.n_fixed as int,
                a.n_selectors as int,
                b.n_advice as int,
                b.n_fixed as int,
                b.n_selectors as int,
            );
        }
    }
    assert forall|i: int|
        0 <= i < b.lookups@.len() implies (#[trigger] b.lookups@[i]).wf(
        b.n_advice as int,
        b.n_fixed as int,
        b.n_selectors as int,
        b.n_table as int,
    ) by {
        let l = b.lookups@[i];
        assert(l.wf(a.n_advice as int, a.n_fixed as int, a.n_selectors as int, a.n_table as int));
        assert forall|t: int| 0 <= t < l.pairs@.len() implies pair_ok(
            #[trigger] l.pairs@[t],
            b.n_advice as int,
            b.n_fixed as int,
            b.n_selectors as int,
            b.n_table as int,
        ) by {
            assert(pair_ok(
                l.pairs@[t],
                a.n_advice as int,
                a.n_fixed as int,
                a.n_selectors as int,
                a.n_table as int,
            ));
            lemma_expr_ok_mono(
                l.pairs@[t].0,
                a.n_advice as int,
                a.n_fixed as int,
                a.n_selectors as int,
                b.n_advice as int,
                b.n_fixed as int,
                b.n_selectors as int,
            );
        }
    }
}

} // verus!
