use micro_tower::borrow::Cell;

#[test]
fn cell_starts_available() {
    let cell = Cell::new(42);
    assert!(cell.is_available());
}

#[test]
fn borrow_takes_the_value_out() {
    let mut cell = Cell::new(42);
    let b = cell.try_borrow().unwrap();
    assert_eq!(*b.get(), 42);
    assert!(!cell.is_available());
    assert!(cell.try_borrow().is_none());
    cell.restore(b);
    assert!(cell.is_available());
}

#[test]
fn fork_clones_an_available_value() {
    let cell = Cell::new(42);
    let fork = cell.fork().unwrap();
    assert!(fork.is_available());
    assert!(cell.is_available());
}

#[test]
fn fork_refused_while_borrowed() {
    let mut cell = Cell::new(42);
    let b = cell.try_borrow().unwrap();
    assert!(cell.fork().is_none());
    cell.restore(b);
    assert!(cell.fork().is_some());
}
