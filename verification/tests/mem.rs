use orc::mem::replace;

#[test]
fn replace_swaps_in_and_returns_old() {
    let mut dest = String::from("before");
    let old = replace(&mut dest, String::from("after"));
    assert_eq!(old, "before");
    assert_eq!(dest, "after");
}

#[test]
fn replace_with_equal_value_returns_old() {
    let mut dest = 5;
    let old = replace(&mut dest, 5);
    assert_eq!(old, 5);
    assert_eq!(dest, 5);
}
