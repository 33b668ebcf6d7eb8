use orc::iter::FromIterator;
use orc::iter::IntoIterator;
use orc::iter::Iterator;
use orc::iter::IteratorExt;
use orc::iter::Mapped;
use orc::vec1::Vec1;
use orc::vec1::VecIntoIter;

#[test]
fn vec1_test_new_1() {
    let a = 42;
    let v: Vec1<i32> = Vec1::new_1(a);
    let result = v.at(0);
    assert_eq!(result, &42)
}

#[test]
fn vec1_test_push() {
    let mut v = Vec1::new_1(0);
    v.push(1);
    v.push(2);
    v.push(3);

    assert_eq!(v.at(0), &0);
    assert_eq!(v.at(1), &1);
    assert_eq!(v.at(2), &2);
    assert_eq!(v.at(3), &3);
}

// iterator trait
#[test]
fn test_iterator() {
    let mut v = Vec1::new_1(0);
    v.push(1);
    v.push(2);
    v.push(3);

    let mut iterator = v.into_iter();
    assert_eq!(iterator.next(), Some(0));
    assert_eq!(iterator.next(), Some(1));
    assert_eq!(iterator.next(), Some(2));
    assert_eq!(iterator.next(), Some(3));
    assert_eq!(iterator.next(), None);
    assert_eq!(iterator.next(), None);
}

#[test]
fn test_iterator_fold() {
    let mut v = Vec1::new_1(0);
    v.push(1);
    v.push(2);
    v.push(3);

    let result = v.into_iter().fold(0, |sum, cur| sum + cur);

    assert_eq!(result, 6);
}

#[test]
fn test_iterator_next() {
    let mut v = Vec1::new_1(0);
    v.push(1);
    v.push(2);
    v.push(3);

    let v = v.into_iter().map(|x| x * 2).collect::<Vec1<_>>();

    assert_eq!(v.at(0), &0);
    assert_eq!(v.at(1), &2);
    assert_eq!(v.at(2), &4);
    assert_eq!(v.at(3), &6);
}

#[test]
fn vec1_capacity_doubles_from_one() {
    let mut v: Vec1<i32> = Vec1::new_with_size_and_cap(0, 1);
    let mut caps = vec![v.cap()];
    for x in 0..4 {
        v.push(x);
        caps.push(v.cap());
    }
    assert_eq!(caps, vec![1, 1, 2, 4, 4]);
    assert_eq!(v.len(), 4);
    for i in 0..4usize {
        assert!(v.is_filled(i));
        assert_eq!(*v.at(i), i as i32);
    }
    assert!(!v.is_filled(4));
}

#[test]
fn vec1_sized_construction_leaves_slots_vacant() {
    let v: Vec1<u8> = Vec1::new_with_size_and_cap(3, 3);
    assert_eq!(v.len(), 3);
    assert_eq!(v.cap(), 3);
    assert!(!v.is_filled(0));
    assert!(!v.is_filled(2));
}

#[test]
fn size_hint_is_exact_for_array_iterator() {
    let mut v = Vec1::new_1('a');
    v.push('b');
    v.push('c');
    let mut it = VecIntoIter::new(v);
    assert_eq!(it.size_hint(), (3, Some(3)));
    assert_eq!(it.next(), Some('a'));
    assert_eq!(it.size_hint(), (2, Some(2)));
    assert_eq!(it.next(), Some('b'));
    assert_eq!(it.next(), Some('c'));
    assert_eq!(it.size_hint(), (0, Some(0)));
    assert_eq!(it.next(), None);
    assert_eq!(it.size_hint(), (0, Some(0)));
}

#[test]
fn iterator_hands_elements_out_by_value() {
    let mut v = Vec1::new_1(String::from("a"));
    v.push(String::from("b"));
    let mut it = v.into_iter();
    let a: String = it.next().unwrap();
    let b: String = it.next().unwrap();
    assert_eq!(a, "a");
    assert_eq!(b, "b");
    assert!(it.next().is_none());
}

#[test]
fn fold_runs_left_to_right() {
    let mut v = Vec1::new_1(1);
    v.push(2);
    v.push(3);
    let digits = v.into_iter().fold(String::new(), |acc, x: i32| format!("{}{}", acc, x));
    assert_eq!(digits, "123");
}

#[test]
fn fold_of_nothing_is_the_start() {
    let v: Vec1<i32> = Vec1::new_with_size_and_cap(0, 4);
    assert_eq!(v.into_iter().fold(17, |acc, x| acc + x), 17);
}

#[test]
fn mapped_adaptor_transforms_each_item_once_and_in_order() {
    let mut v = Vec1::new_1(1);
    v.push(2);
    v.push(3);
    let mut m = Mapped::new(v.into_iter(), |x: i32| x + 10);
    assert_eq!(m.size_hint(), (3, Some(3)));
    assert_eq!(m.next(), Some(11));
    assert_eq!(m.next(), Some(12));
    assert_eq!(m.size_hint(), (1, Some(1)));
    assert_eq!(m.next(), Some(13));
    assert_eq!(m.next(), None);
    assert_eq!(m.next(), None);
}

#[test]
fn an_iterator_turns_into_itself() {
    let mut v = Vec1::new_1(5);
    v.push(6);
    let it = v.into_iter();
    let mut same = IntoIterator::into_iter(it);
    assert_eq!(same.next(), Some(5));
    assert_eq!(same.next(), Some(6));
    assert_eq!(same.next(), None);
}

#[test]
fn collect_keeps_every_item_in_order() {
    let mut v = Vec1::new_1(0usize);
    for i in 1..37usize {
        v.push(i);
    }
    let out: Vec1<usize> = v.into_iter().collect();
    assert_eq!(out.len(), 37);
    // sized by the exact estimate: no reallocation on the way
    assert_eq!(out.cap(), 37);
    for i in 0..37usize {
        assert_eq!(*out.at(i), i);
    }
}

#[test]
fn collect_of_nothing_is_empty() {
    let v: Vec1<i32> = Vec1::new_with_size_and_cap(0, 8);
    let out: Vec1<i32> = Vec1::from_iter(v);
    assert_eq!(out.len(), 0);
    assert_eq!(out.cap(), 1);
}

#[test]
fn from_iter_takes_an_array_directly() {
    let mut v = Vec1::new_1("x");
    v.push("y");
    let out: Vec1<&str> = FromIterator::from_iter(v);
    assert_eq!(out.len(), 2);
    assert_eq!(out.cap(), 2);
    assert_eq!(*out.at(0), "x");
    assert_eq!(*out.at(1), "y");
}
