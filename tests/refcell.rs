use smart_pointers::refcell::{RefCell, RefState};

#[test]
fn test_refcell() {
    // test creation, mutation, and dropping
    let mut cell = RefCell::new(42);
    let mut cell_string = RefCell::new(String::from("hello"));
    let cell_borrow = cell.borrow();
    assert_eq!(42, *cell_borrow.unwrap().deref(&cell));
    let string_borrow = cell_string.borrow().unwrap();
    assert_eq!("hello".to_string(), *string_borrow.deref(&cell_string));
    string_borrow.drop(&mut cell_string);
    assert!(cell_string.borrow_state() == RefState::Unborrowed);
}

#[test]
fn borrow_drop_then_borrow_mut() {
    let mut c = RefCell::new(1);
    {
        let r = c.borrow();
        assert!(r.is_some());
        r.unwrap().drop(&mut c);
    }
    assert!(c.borrow_mut().is_some());
}

#[test]
fn two_readers_refuse_writer() {
    let mut c = RefCell::new(1);
    let r1 = c.borrow();
    let r2 = c.borrow();
    assert!(r1.is_some());
    assert!(r2.is_some());
    assert!(c.borrow_state() == RefState::Shared(2));
    assert!(c.borrow_mut().is_none());
    assert!(c.borrow_state() == RefState::Shared(2));
}

#[test]
fn writer_refuses_readers_and_writers() {
    let mut c = RefCell::new(String::from("a"));
    let w = c.borrow_mut().unwrap();
    assert!(c.borrow_state() == RefState::Exclusive);
    assert!(c.borrow().is_none());
    assert!(c.borrow_mut().is_none());
    assert!(c.borrow_state() == RefState::Exclusive);
    w.drop(&mut c);
    assert!(c.borrow_state() == RefState::Unborrowed);
    assert!(c.borrow().is_some());
}

#[test]
fn reader_count_goes_up_and_down() {
    let mut c = RefCell::new(0u8);
    let r1 = c.borrow().unwrap();
    let r2 = c.borrow().unwrap();
    let r3 = c.borrow().unwrap();
    assert!(c.borrow_state() == RefState::Shared(3));
    r2.drop(&mut c);
    assert!(c.borrow_state() == RefState::Shared(2));
    r1.drop(&mut c);
    assert!(c.borrow_state() == RefState::Shared(1));
    assert!(c.borrow_mut().is_none());
    r3.drop(&mut c);
    assert!(c.borrow_state() == RefState::Unborrowed);
    assert!(c.borrow_mut().is_some());
}

#[test]
fn writer_changes_value() {
    let mut c = RefCell::new(vec![1, 2]);
    let w = c.borrow_mut().unwrap();
    assert_eq!(vec![1, 2], *w.deref(&c));
    w.deref_mut(&mut c).push(3);
    assert_eq!(vec![1, 2, 3], *w.deref(&c));
    w.drop(&mut c);
    let r = c.borrow().unwrap();
    assert_eq!(vec![1, 2, 3], *r.deref(&c));
}
