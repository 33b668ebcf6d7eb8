use orc::bocs::Bocs;
use std::ops::Deref;
use std::ops::DerefMut;

#[test]
fn test_deref_trait() {
    let b = Bocs::new(1);

    assert_eq!((&b).deref(), &1);
    assert_eq!(*(&b).deref(), 1);
    assert_eq!(*b, 1);
}

#[test]
fn test_deref_mut_trait() {
    let mut b = Bocs::new(1);

    assert_eq!((&mut b).deref_mut(), &mut 1);
    assert_eq!(*(&mut b).deref_mut(), 1);

    *b.deref_mut() = 42;

    assert_eq!(*b, 42);
}

#[test]
fn bocs_clone_owns_a_value_of_its_own() {
    let mut a = Bocs::new(String::from("a"));
    let b = a.clone();
    a.push('x');
    assert_eq!(*a, "ax");
    assert_eq!(*b, "a");
}
