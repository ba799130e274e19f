use deft::computed::{ComputedValue, ComputedValueInner};
use std::cell::Cell;
use std::rc::Rc;

#[test]
fn test_computed_value() {
    let mut cv = ComputedValue::new();
    let counter = Rc::new(Cell::new(0));
    {
        let counter2 = counter.clone();
        let _h1 = cv.dep(&vec!["counter".to_string()], move |v: Vec<i32>| {
            counter2.set(v[0]);
        });
        cv.update_value("counter", 1);
        assert_eq!(counter.get(), 1);
        cv.remove_dep(_h1);
    }
    cv.update_value("counter", 2);
    assert_eq!(counter.get(), 1);
}

#[test]
fn computed_runs_at_registration_when_keys_have_values() {
    let mut cv = ComputedValue::new();
    cv.update_value("a", 3);
    cv.update_value("b", 4);
    let sum = Rc::new(Cell::new(0));
    let s2 = sum.clone();
    let _h = cv.dep(&vec!["a".to_string(), "b".to_string()], move |v: Vec<i32>| {
        s2.set(v[0] * 10 + v[1]);
    });
    assert_eq!(sum.get(), 34);
    cv.update_value("b", 5);
    assert_eq!(sum.get(), 35);
}

#[test]
fn computed_waits_for_all_keys() {
    let mut cv = ComputedValue::new();
    let calls = Rc::new(Cell::new(0));
    let c2 = calls.clone();
    let _h = cv.dep(&vec!["x".to_string(), "y".to_string()], move |_v: Vec<u8>| {
        c2.set(c2.get() + 1);
    });
    assert_eq!(calls.get(), 0);
    cv.update_value("x", 1);
    assert_eq!(calls.get(), 0);
    cv.update_value("y", 2);
    assert_eq!(calls.get(), 1);
    cv.update_value("z", 2);
    assert_eq!(calls.get(), 1);
}

#[test]
fn computed_removed_consumer_keeps_others() {
    let mut cv = ComputedValue::new();
    let first = Rc::new(Cell::new(0));
    let second = Rc::new(Cell::new(0));
    let f2 = first.clone();
    let s2 = second.clone();
    let first_consumer: Box<dyn Fn(Vec<i64>)> = Box::new(move |v: Vec<i64>| f2.set(v[0]));
    let second_consumer: Box<dyn Fn(Vec<i64>)> = Box::new(move |v: Vec<i64>| s2.set(v[0]));
    let h1 = cv.dep(&vec!["k".to_string()], first_consumer);
    let _h2 = cv.dep(&vec!["k".to_string()], second_consumer);
    cv.update_value("k", 7);
    assert_eq!((first.get(), second.get()), (7, 7));
    cv.remove_dep(h1);
    cv.update_value("k", 9);
    assert_eq!((first.get(), second.get()), (7, 9));
}

#[test]
fn computed_inner_reads_values() {
    let mut inner: ComputedValueInner<u32, fn(Vec<u32>)> = ComputedValueInner::new();
    assert_eq!(inner.read_value("a"), None);
    inner.update("a", 5);
    assert_eq!(inner.read_value("a"), Some(5));
    assert_eq!(inner.get_values(&vec!["a".to_string()]), Some(vec![5]));
    assert_eq!(inner.get_values(&vec!["a".to_string(), "b".to_string()]), None);
    fn ignore(_v: Vec<u32>) {}
    let id1 = inner.register_dep(&vec!["a".to_string()], ignore as fn(Vec<u32>));
    let id2 = inner.register_dep(&vec!["a".to_string()], ignore as fn(Vec<u32>));
    assert_eq!(id1, 1);
    assert_eq!(id2, 2);
    inner.unregister_dep(id1);
    inner.update("a", 6);
    assert_eq!(inner.read_value("a"), Some(6));
}
