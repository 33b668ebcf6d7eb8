use orc::cell::Cell;
use orc::cell::RefCell;
use orc::cell::RefState;
use orc::cell::UnsafeCell;

#[test]
fn cell_into_inner() {
    let cell = Cell::new(42);
    assert_eq!(cell.into_inner(), 42);
}

#[test]
fn cell_set() {
    let mut cell = Cell::new(42);
    cell.set(45);
    assert_eq!(cell.into_inner(), 45);
}

#[derive(Debug, PartialEq)]
struct Foo {
    pub value: i32,
}

struct Bar {
    pub foo: RefCell<Foo>,
}

#[test]
fn get_immutable_reference_from_inner_value() {
    let mut ref_cell = RefCell::new(Foo { value: 32 });
    let s1 = ref_cell.borrow();
    let s2 = ref_cell.borrow();
    assert_eq!(ref_cell.read(&s1).value, 32);
    assert_eq!(ref_cell.read(&s1).value, ref_cell.read(&s2).value);
}

#[test]
fn get_mutable_reference_from_inner_value() {
    let mut bar = Bar {
        foo: RefCell::new(Foo { value: 32 }),
    };

    let foo2 = Foo { value: 1 };
    let guard = bar.foo.borrow_mut();
    *bar.foo.write(&guard) = foo2;

    assert!(bar.foo == RefCell::new(Foo { value: 1 }));
}

#[test]
fn should_panic_when_both_mutable_and_immutable_reference_exist_at_the_same_time() {}

#[test]
fn unsafe_cell_holds_and_returns_its_value() {
    let mut slot = UnsafeCell::new(7);
    assert_eq!(*slot.get(), 7);
    *slot.get() = 8;
    assert_eq!(*slot.get(), 8);
    assert_eq!(slot.into_inner(), 8);
}

#[test]
fn unsafe_cell_clone_is_independent() {
    let mut a = UnsafeCell::new(String::from("a"));
    let b = a.clone();
    a.get().push('x');
    assert_eq!(a.into_inner(), "ax");
    assert_eq!(b.into_inner(), "a");
}

#[test]
fn cell_replace_returns_previous_value() {
    let mut cell = Cell::new(String::from("old"));
    let previous = cell.replace(String::from("new"));
    assert_eq!(previous, "old");
    assert_eq!(cell.into_inner(), "new");
}

#[test]
fn cell_get_copies_without_consuming() {
    let mut cell = Cell::new(3usize);
    assert_eq!(cell.get(), 3);
    cell.set(4);
    assert_eq!(cell.get(), 4);
    let copy = cell;
    assert_eq!(copy.get(), 4);
    assert_eq!(cell.get(), 4);
    assert_eq!(cell.clone().into_inner(), 4);
}

#[test]
fn new_ref_cell_is_unborrowed() {
    let cell = RefCell::new(5);
    assert_eq!(cell.ref_state(), RefState::Initialized);
    assert!(cell.can_borrow());
    assert!(cell.can_borrow_mut());
}

#[test]
fn shared_borrows_count_up_and_down() {
    let mut cell = RefCell::new(5);
    let a = cell.borrow();
    assert_eq!(cell.ref_state(), RefState::ImmutableRef(1));
    let b = cell.borrow();
    assert_eq!(cell.ref_state(), RefState::ImmutableRef(2));
    let c = cell.borrow();
    assert_eq!(cell.ref_state(), RefState::ImmutableRef(3));
    cell.release(b);
    assert_eq!(cell.ref_state(), RefState::ImmutableRef(2));
    cell.release(a);
    assert_eq!(cell.ref_state(), RefState::ImmutableRef(1));
    cell.release(c);
    assert_eq!(cell.ref_state(), RefState::Initialized);
}

#[test]
fn two_shared_borrows_see_one_value_and_shut_out_the_exclusive_one() {
    let mut cell = RefCell::new(Foo { value: 9 });
    let first = cell.borrow();
    let second = cell.borrow();
    assert_eq!(cell.read(&first), cell.read(&second));
    assert_eq!(cell.read(&first).value, 9);
    // an exclusive borrow is not to be had while shared borrows are out
    assert!(!cell.can_borrow_mut());
    assert!(cell.can_borrow());
    cell.release(first);
    assert!(!cell.can_borrow_mut());
    cell.release(second);
    // and is to be had once they are all back
    assert!(cell.can_borrow_mut());
    let guard = cell.borrow_mut();
    assert_eq!(cell.ref_state(), RefState::MutableRef);
    cell.write(&guard).value = 10;
    cell.release_mut(guard);
    assert_eq!(cell.ref_state(), RefState::Initialized);
    let reader = cell.borrow();
    assert_eq!(cell.read(&reader).value, 10);
}

#[test]
fn exclusive_borrow_shuts_out_every_other() {
    let mut cell = RefCell::new(1);
    let guard = cell.borrow_mut();
    assert!(!cell.can_borrow());
    assert!(!cell.can_borrow_mut());
    cell.release_mut(guard);
    assert!(cell.can_borrow());
    assert!(cell.can_borrow_mut());
}

#[test]
fn ref_cell_equality_ignores_borrow_state() {
    let mut borrowed = RefCell::new(Foo { value: 3 });
    let _guard = borrowed.borrow();
    let fresh = RefCell::new(Foo { value: 3 });
    let other = RefCell::new(Foo { value: 4 });
    assert!(borrowed == fresh);
    assert!(borrowed != other);
}

#[test]
fn scoped_shared_borrow_leaves_the_state_as_found() {
    let mut cell = RefCell::new(Foo { value: 4 });
    let seen = cell.with_borrow(|foo| foo.value * 2);
    assert_eq!(seen, 8);
    assert_eq!(cell.ref_state(), RefState::Initialized);
    let outer = cell.borrow();
    let seen = cell.with_borrow(|foo| foo.value + 1);
    assert_eq!(seen, 5);
    assert_eq!(cell.ref_state(), RefState::ImmutableRef(1));
    cell.release(outer);
    assert_eq!(cell.ref_state(), RefState::Initialized);
}

#[test]
fn scoped_exclusive_borrow_writes_and_gives_back() {
    let mut cell = RefCell::new(Foo { value: 4 });
    let before = cell.with_borrow_mut(|foo| {
        let before = foo.value;
        foo.value = 11;
        before
    });
    assert_eq!(before, 4);
    assert_eq!(cell.ref_state(), RefState::Initialized);
    assert!(cell == RefCell::new(Foo { value: 11 }));
    assert!(cell.can_borrow_mut());
}
