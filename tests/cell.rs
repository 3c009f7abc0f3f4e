use smart_pointers::cell::Cell;

#[test]
fn mutate_unsafe() {
    let mut x = Cell::new(6);
    x.set(7);
    assert_eq!(7, x.get());
}

#[test]
fn some_test() {
    assert!(true);
}

#[test]
fn cell_get_returns_initial_value() {
    let x = Cell::new(-3i64);
    assert_eq!(-3, x.get());
    assert_eq!(-3, x.get());
}

#[test]
fn cell_set_replaces_each_time() {
    let mut x = Cell::new((1u8, 2u8));
    x.set((3, 4));
    assert_eq!((3, 4), x.get());
    x.set((5, 6));
    assert_eq!((5, 6), x.get());
}
