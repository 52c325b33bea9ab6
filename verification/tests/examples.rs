use plonkish::checker::{verify, Failure};
use plonkish::cs::ConstraintSystem;
use plonkish::expr::Expr;
use plonkish::field::Felt;
use plonkish::fibonacci::Fibonacci;
use plonkish::grid::{Cell, Grid};
use plonkish::layout::Layouter;

#[test]
fn test_fib_example() {
    let mut cs = ConstraintSystem::new();
    let fib = Fibonacci::configure(&mut cs);
    let grid = Grid::new(&cs, 4, 12);
    let mut ly = Layouter::new(grid);
    ly.begin_region().unwrap();
    fib.assign(&mut ly, &cs, Felt::from_u64(1), Felt::from_u64(1));
    ly.end_region().unwrap();
    let r = verify(&cs, &ly.grid);
    assert!(r.is_ok());
    // The Fibonacci sequence appears in the left column; the right column
    // runs one step ahead of it.
    for (i, v) in [1u64, 1, 2, 3, 5].iter().enumerate() {
        assert_eq!(
            ly.grid.advice_value(fib.left.index, i),
            Some(Felt::from_u64(*v))
        );
    }
    for (i, v) in [1u64, 2, 3, 5, 8].iter().enumerate() {
        assert_eq!(
            ly.grid.advice_value(fib.right.index, i),
            Some(Felt::from_u64(*v))
        );
    }
}

#[test]
fn fib_wrong_witness_fails() {
    let mut cs = ConstraintSystem::new();
    let fib = Fibonacci::configure(&mut cs);
    let grid = Grid::new(&cs, 4, 12);
    let mut ly = Layouter::new(grid);
    ly.begin_region().unwrap();
    fib.assign(&mut ly, &cs, Felt::from_u64(1), Felt::from_u64(1));
    // Overwrite one right-column cell so the recurrence breaks at row 2.
    ly.assign_advice(fib.right, 3, Felt::from_u64(9)).unwrap();
    ly.end_region().unwrap();
    let r = verify(&cs, &ly.grid);
    let fails = r.unwrap_err();
    assert!(fails.contains(&Failure::Gate { gate: 0, row: 2 }));
}

fn two_column_lookup(x: u64, y: u64) -> Result<(), Vec<Failure>> {
    let mut cs = ConstraintSystem::new();
    let xcol = cs.advice_column();
    let ycol = cs.advice_column();
    let q = cs.complex_selector();
    let tcol = cs.lookup_table_column();
    let qx = Expr::Prod(
        Box::new(Expr::Selector { sel: q.index }),
        Box::new(Expr::Advice {
            col: xcol.index,
            rot: 0,
        }),
    );
    let qy = Expr::Prod(
        Box::new(Expr::Selector { sel: q.index }),
        Box::new(Expr::Advice {
            col: ycol.index,
            rot: 0,
        }),
    );
    cs.lookup(
        "x and y".to_string(),
        vec![(qx, tcol.index), (qy, tcol.index)],
    )
    .unwrap();
    let grid = Grid::new(&cs, 4, 15);
    let mut ly = Layouter::new(grid);
    for (i, v) in [0u64, 1, 2, 3].iter().enumerate() {
        ly.assign_table_cell(tcol, i, Felt::from_u64(*v)).unwrap();
    }
    ly.begin_region().unwrap();
    ly.enable_selector(q, 0).unwrap();
    ly.assign_advice(xcol, 0, Felt::from_u64(x)).unwrap();
    ly.assign_advice(ycol, 0, Felt::from_u64(y)).unwrap();
    ly.end_region().unwrap();
    verify(&cs, &ly.grid)
}

#[test]
fn test_lookup_example() {
    fn test_circuit(x: u64, y: u64, success: bool) {
        let r = two_column_lookup(x, y);
        if success {
            assert!(r.is_ok());
        } else {
            assert!(r.is_err());
        }
    }
    test_circuit(3, 4, false);
    test_circuit(3, 3, true);
    test_circuit(2, 2, true);
}

fn single_column_lookup(x: u64, rows_of_x: usize) -> Result<(), Vec<Failure>> {
    let mut cs = ConstraintSystem::new();
    let xcol = cs.advice_column();
    let q = cs.complex_selector();
    let tcol = cs.lookup_table_column();
    let qx = Expr::Prod(
        Box::new(Expr::Selector { sel: q.index }),
        Box::new(Expr::Advice {
            col: xcol.index,
            rot: 0,
        }),
    );
    cs.lookup("x in table".to_string(), vec![(qx, tcol.index)])
        .unwrap();
    let grid = Grid::new(&cs, 4, 16 - rows_of_x);
    let mut ly = Layouter::new(grid);
    for (i, v) in [1u64, 2, 3].iter().enumerate() {
        ly.assign_table_cell(tcol, i, Felt::from_u64(*v)).unwrap();
    }
    ly.begin_region().unwrap();
    for i in 0..rows_of_x {
        ly.enable_selector(q, i).unwrap();
        ly.assign_advice(xcol, i, Felt::from_u64(x)).unwrap();
    }
    ly.end_region().unwrap();
    verify(&cs, &ly.grid)
}

#[test]
fn lookup_ten_rows_of_three_pass() {
    assert!(single_column_lookup(3, 10).is_ok());
}

#[test]
fn lookup_ten_rows_of_four_fail() {
    let fails = single_column_lookup(4, 10).unwrap_err();
    assert!(fails.len() == 10);
    assert!(fails
        .iter()
        .all(|f| matches!(f, Failure::Lookup { lookup: 0, .. })));
    assert!(fails.contains(&Failure::Lookup { lookup: 0, row: 0 }));
}

#[test]
fn lookup_membership_is_not_positional() {
    // Witness value 2 sits at witness row 0 but matches table row 1.
    assert!(single_column_lookup(2, 1).is_ok());
    assert!(single_column_lookup(4, 1).is_err());
}

fn copy_chain_grid() -> (ConstraintSystem, Layouter, Cell, Cell, Cell) {
    let mut cs = ConstraintSystem::new();
    let col = cs.advice_column();
    cs.enable_equality(col).unwrap();
    let grid = Grid::new(&cs, 2, 0);
    let mut ly = Layouter::new(grid);
    ly.begin_region().unwrap();
    let a = ly.assign_advice(col, 0, Felt::from_u64(5)).unwrap();
    let b = ly.assign_advice(col, 1, Felt::from_u64(5)).unwrap();
    let c = ly.assign_advice(col, 2, Felt::from_u64(6)).unwrap();
    ly.end_region().unwrap();
    (cs, ly, a, b, c)
}

#[test]
fn copy_chain_reports_exactly_one_failure() {
    let (cs, mut ly, a, b, c) = copy_chain_grid();
    ly.constrain_equal(&cs, a, b).unwrap();
    ly.constrain_equal(&cs, b, c).unwrap();
    let fails = verify(&cs, &ly.grid).unwrap_err();
    assert_eq!(fails, vec![Failure::Copy { a: b, b: c }]);
}

#[test]
fn copy_constraint_is_symmetric() {
    let (cs, mut ly, a, b, c) = copy_chain_grid();
    // The same mismatching pair, recorded in the other orientation.
    ly.constrain_equal(&cs, c, b).unwrap();
    let fails = verify(&cs, &ly.grid).unwrap_err();
    assert_eq!(fails, vec![Failure::Copy { a: c, b: b }]);
    let _ = a;
}

#[test]
fn verify_twice_reports_identical_lists() {
    let (cs, mut ly, a, b, c) = copy_chain_grid();
    ly.constrain_equal(&cs, a, b).unwrap();
    ly.constrain_equal(&cs, b, c).unwrap();
    let r1 = verify(&cs, &ly.grid);
    let r2 = verify(&cs, &ly.grid);
    assert_eq!(r1, r2);
    assert_eq!(r1.unwrap_err().len(), 1);
}

#[test]
fn instance_copy_constraint() {
    let mut cs = ConstraintSystem::new();
    let acol = cs.advice_column();
    let icol = cs.instance_column();
    cs.enable_equality(acol).unwrap();
    cs.enable_equality(icol).unwrap();
    let grid = Grid::new(&cs, 2, 0);
    let mut ly = Layouter::new(grid);
    ly.set_instance(icol, 0, Felt::from_u64(5)).unwrap();
    ly.begin_region().unwrap();
    let a = ly.assign_advice(acol, 0, Felt::from_u64(5)).unwrap();
    ly.end_region().unwrap();
    let i_cell = Cell {
        column: icol,
        row: 0,
    };
    ly.constrain_equal(&cs, a, i_cell).unwrap();
    assert!(verify(&cs, &ly.grid).is_ok());

    // A different public input makes the same constraint fail.
    ly.set_instance(icol, 0, Felt::from_u64(7)).unwrap();
    let fails = verify(&cs, &ly.grid).unwrap_err();
    assert_eq!(fails, vec![Failure::Copy { a, b: i_cell }]);
}
