use plonkish::checker::{verify, Failure};
use plonkish::cs::{ColKind, Column, ConfigError, ConstraintSystem, Selector};
use plonkish::expr::{Expr, EvalError};
use plonkish::field::Felt;
use plonkish::grid::{Cell, Grid};
use plonkish::layout::Layouter;

#[test]
fn field_elements_from_u64() {
    assert_eq!(Felt::from_u64(5), Felt::from_u64(5));
    assert_ne!(Felt::from_u64(5), Felt::from_u64(6));
    assert!(Felt::zero().is_zero());
    assert!(!Felt::one().is_zero());
    assert_eq!(Felt::from_u64(0), Felt::zero());
    assert_eq!(Felt::from_u64(1), Felt::one());
}

fn one_gate_system(poly: Expr) -> (ConstraintSystem, Column, Selector) {
    let mut cs = ConstraintSystem::new();
    let xcol = cs.advice_column();
    let q = cs.selector();
    cs.create_gate("g".to_string(), vec![poly]).unwrap();
    (cs, xcol, q)
}

fn q_times_x() -> Expr {
    Expr::Prod(
        Box::new(Expr::Selector { sel: 0 }),
        Box::new(Expr::Advice { col: 0, rot: 0 }),
    )
}

#[test]
fn gate_failure_at_exact_row() {
    let (cs, xcol, q) = one_gate_system(q_times_x());
    let grid = Grid::new(&cs, 2, 2);
    let mut ly = Layouter::new(grid);
    ly.begin_region().unwrap();
    ly.enable_selector(q, 0).unwrap();
    ly.enable_selector(q, 1).unwrap();
    ly.assign_advice(xcol, 0, Felt::from_u64(0)).unwrap();
    ly.assign_advice(xcol, 1, Felt::from_u64(7)).unwrap();
    ly.end_region().unwrap();
    let fails = verify(&cs, &ly.grid).unwrap_err();
    assert_eq!(fails, vec![Failure::Gate { gate: 0, row: 1 }]);
}

#[test]
fn selector_off_row_multiplies_to_zero() {
    let (cs, xcol, q) = one_gate_system(q_times_x());
    let grid = Grid::new(&cs, 2, 2);
    let mut ly = Layouter::new(grid);
    ly.begin_region().unwrap();
    ly.enable_selector(q, 0).unwrap();
    ly.assign_advice(xcol, 0, Felt::from_u64(0)).unwrap();
    // Selector stays off at this row, so a non-zero cell is fine.
    ly.assign_advice(xcol, 1, Felt::from_u64(7)).unwrap();
    ly.end_region().unwrap();
    assert!(verify(&cs, &ly.grid).is_ok());
}

#[test]
fn fixed_column_constant_gate() {
    // x - f vanishes where the fixed cell f carries the expected constant.
    let mut cs = ConstraintSystem::new();
    let xcol = cs.advice_column();
    let fcol = cs.fixed_column();
    let poly = Expr::Sum(
        Box::new(Expr::Advice { col: 0, rot: 0 }),
        Box::new(Expr::Neg(Box::new(Expr::Fixed { col: 0, rot: 0 }))),
    );
    cs.create_gate("x equals f".to_string(), vec![poly])
        .unwrap();
    let grid = Grid::new(&cs, 2, 3);
    let mut ly = Layouter::new(grid);
    ly.begin_region().unwrap();
    ly.assign_fixed(fcol, 0, Felt::from_u64(7)).unwrap();
    ly.assign_advice(xcol, 0, Felt::from_u64(7)).unwrap();
    ly.end_region().unwrap();
    assert!(verify(&cs, &ly.grid).is_ok());

    let mut ly2 = Layouter::new(Grid::new(&cs, 2, 3));
    ly2.begin_region().unwrap();
    ly2.assign_fixed(fcol, 0, Felt::from_u64(7)).unwrap();
    ly2.assign_advice(xcol, 0, Felt::from_u64(8)).unwrap();
    ly2.end_region().unwrap();
    assert_eq!(
        verify(&cs, &ly2.grid).unwrap_err(),
        vec![Failure::Gate { gate: 0, row: 0 }]
    );
}

#[test]
fn constant_expression_in_gate() {
    // x - 7 as a constant in the polynomial itself.
    let mut cs = ConstraintSystem::new();
    let xcol = cs.advice_column();
    let poly = Expr::Sum(
        Box::new(Expr::Advice { col: 0, rot: 0 }),
        Box::new(Expr::Neg(Box::new(Expr::Constant(Felt::from_u64(7))))),
    );
    cs.create_gate("x equals seven".to_string(), vec![poly])
        .unwrap();
    let grid = Grid::new(&cs, 2, 3);
    let mut ly = Layouter::new(grid);
    ly.begin_region().unwrap();
    ly.assign_advice(xcol, 0, Felt::from_u64(7)).unwrap();
    ly.end_region().unwrap();
    assert!(verify(&cs, &ly.grid).is_ok());
    let _ = xcol;
}

#[test]
fn unassigned_cell_is_a_configuration_error() {
    let mut cs = ConstraintSystem::new();
    let xcol = cs.advice_column();
    cs.create_gate(
        "x".to_string(),
        vec![Expr::Advice { col: 0, rot: 0 }],
    )
    .unwrap();
    let grid = Grid::new(&cs, 2, 3);
    let ly = Layouter::new(grid);
    let fails = verify(&cs, &ly.grid).unwrap_err();
    assert_eq!(
        fails,
        vec![Failure::ConfigError {
            err: EvalError::Unassigned {
                column: xcol,
                row: 0
            }
        }]
    );
}

#[test]
fn rotation_outside_grid_is_a_configuration_error() {
    let mut cs = ConstraintSystem::new();
    let xcol = cs.advice_column();
    cs.create_gate(
        "previous x".to_string(),
        vec![Expr::Advice { col: 0, rot: -1 }],
    )
    .unwrap();
    let grid = Grid::new(&cs, 2, 3);
    let mut ly = Layouter::new(grid);
    ly.begin_region().unwrap();
    ly.assign_advice(xcol, 0, Felt::from_u64(0)).unwrap();
    ly.end_region().unwrap();
    let fails = verify(&cs, &ly.grid).unwrap_err();
    assert_eq!(
        fails,
        vec![Failure::ConfigError {
            err: EvalError::RowOutOfRange
        }]
    );
}

#[test]
fn configuration_errors_are_reported() {
    let mut cs = ConstraintSystem::new();
    let xcol = cs.advice_column();
    let tcol = cs.lookup_table_column();

    assert_eq!(
        cs.create_gate("empty".to_string(), vec![]),
        Err(ConfigError::EmptyGate)
    );
    assert_eq!(cs.lookup("empty".to_string(), vec![]), Err(ConfigError::EmptyLookup));

    cs.create_gate("g".to_string(), vec![Expr::Advice { col: 0, rot: 0 }])
        .unwrap();
    assert_eq!(
        cs.create_gate("g".to_string(), vec![Expr::Advice { col: 0, rot: 0 }]),
        Err(ConfigError::DuplicateName)
    );

    assert_eq!(
        cs.create_gate(
            "foreign".to_string(),
            vec![Expr::Advice { col: 5, rot: 0 }]
        ),
        Err(ConfigError::ForeignExpression)
    );
    assert_eq!(
        cs.lookup(
            "foreign table".to_string(),
            vec![(Expr::Advice { col: 0, rot: 0 }, 3)]
        ),
        Err(ConfigError::ForeignExpression)
    );

    assert_eq!(
        cs.enable_equality(tcol),
        Err(ConfigError::EqualityNotAllowed)
    );
    assert_eq!(
        cs.enable_equality(Column {
            kind: ColKind::Advice,
            index: 9
        }),
        Err(ConfigError::ForeignColumn)
    );
    let _ = xcol;
}

#[test]
fn layout_errors_are_reported() {
    let mut cs = ConstraintSystem::new();
    let xcol = cs.advice_column();
    let fcol = cs.fixed_column();
    let grid = Grid::new(&cs, 1, 0);
    let mut ly = Layouter::new(grid);

    assert_eq!(
        ly.assign_advice(xcol, 0, Felt::zero()),
        Err(ConfigError::OutsideRegion)
    );
    ly.begin_region().unwrap();
    assert_eq!(ly.begin_region(), Err(ConfigError::InsideRegion));
    assert_eq!(
        ly.assign_advice(fcol, 0, Felt::zero()),
        Err(ConfigError::WrongColumnKind)
    );
    assert_eq!(
        ly.assign_advice(xcol, 9, Felt::zero()),
        Err(ConfigError::RowOutOfRange)
    );
    let a = ly.assign_advice(xcol, 0, Felt::from_u64(1)).unwrap();
    let b = ly.assign_advice(xcol, 1, Felt::from_u64(1)).unwrap();
    // The column was never equality-enabled.
    assert_eq!(
        ly.constrain_equal(&cs, a, b),
        Err(ConfigError::NotEqualityEnabled)
    );
    ly.end_region().unwrap();
    assert_eq!(ly.end_region(), Err(ConfigError::OutsideRegion));
}

#[test]
fn regions_are_laid_out_one_after_the_other() {
    let mut cs = ConstraintSystem::new();
    let xcol = cs.advice_column();
    let grid = Grid::new(&cs, 3, 0);
    let mut ly = Layouter::new(grid);
    ly.begin_region().unwrap();
    ly.assign_advice(xcol, 0, Felt::from_u64(1)).unwrap();
    ly.assign_advice(xcol, 1, Felt::from_u64(2)).unwrap();
    ly.end_region().unwrap();
    ly.begin_region().unwrap();
    // Offset 0 of the second region is absolute row 2.
    ly.assign_advice(xcol, 0, Felt::from_u64(3)).unwrap();
    ly.end_region().unwrap();
    assert_eq!(ly.grid.advice_value(0, 2), Some(Felt::from_u64(3)));
    assert_eq!(ly.grid.advice_value(0, 3), None);
}

#[test]
fn constraining_an_unassigned_cell_is_rejected() {
    let mut cs = ConstraintSystem::new();
    let xcol = cs.advice_column();
    cs.enable_equality(xcol).unwrap();
    let grid = Grid::new(&cs, 1, 0);
    let mut ly = Layouter::new(grid);
    ly.begin_region().unwrap();
    let a = ly.assign_advice(xcol, 0, Felt::from_u64(1)).unwrap();
    ly.end_region().unwrap();
    let empty = Cell {
        column: xcol,
        row: 1,
    };
    assert_eq!(ly.constrain_equal(&cs, a, empty), Err(ConfigError::NotAssigned));
}

#[test]
fn assert_satisfied_mirrors_verify() {
    let (cs, xcol, q) = one_gate_system(q_times_x());
    let grid = Grid::new(&cs, 2, 2);
    let mut ly = Layouter::new(grid);
    ly.begin_region().unwrap();
    ly.enable_selector(q, 0).unwrap();
    ly.assign_advice(xcol, 0, Felt::from_u64(0)).unwrap();
    ly.assign_advice(xcol, 1, Felt::from_u64(0)).unwrap();
    ly.end_region().unwrap();
    assert!(plonkish::checker::assert_satisfied(&cs, &ly.grid));

    let mut ly2 = Layouter::new(Grid::new(&cs, 2, 2));
    ly2.begin_region().unwrap();
    ly2.enable_selector(q, 0).unwrap();
    ly2.enable_selector(q, 1).unwrap();
    ly2.assign_advice(xcol, 0, Felt::from_u64(0)).unwrap();
    ly2.assign_advice(xcol, 1, Felt::from_u64(4)).unwrap();
    ly2.end_region().unwrap();
    assert!(!plonkish::checker::assert_satisfied(&cs, &ly2.grid));
}
