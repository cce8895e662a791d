use lib::closures::{
    apply, apply_simple, call_with_fn_once, make_adder, process, sort_by_age, triple, Cacher,
};
use std::cell::Cell;

#[test]
fn apply_calls_the_closure() {
    assert_eq!(apply(|x| x * 2, 5), 10);
    assert_eq!(apply_simple(|x| x + 1, 5), 6);
}

#[test]
fn triple_of_five_is_fifteen() {
    assert_eq!(triple(5), 15);
    assert_eq!(triple(-4), -12);
}

#[test]
fn make_adder_adds_its_captured_value() {
    let add5 = make_adder(5);
    assert_eq!(add5(10), 15);
    assert_eq!(add5(-5), 0);
}

#[test]
fn process_maps_the_callback() {
    assert_eq!(process(vec![1, 2, 3], |x| x * x), vec![1, 4, 9]);
    assert_eq!(process(vec![], |x| x * x), Vec::<i32>::new());
}

#[test]
fn call_with_fn_once_runs_the_closure() {
    let ran = Cell::new(false);
    call_with_fn_once(|| ran.set(true));
    assert!(ran.get());
}

#[test]
fn cacher_computes_once() {
    let calls = Cell::new(0);
    let mut c = Cacher::new(|n| {
        calls.set(calls.get() + 1);
        n * 2
    });
    assert_eq!(c.value(10), 20);
    assert_eq!(c.value(10), 20);
    assert_eq!(calls.get(), 1);
}

#[test]
fn cacher_computes_each_new_argument() {
    let calls = Cell::new(0);
    let mut c = Cacher::new(|x| {
        calls.set(calls.get() + 1);
        x * 2
    });
    assert_eq!(c.value(1), 2);
    assert_eq!(c.value(2), 4);
    assert_eq!(c.value(1), 2);
    assert_eq!(c.value(2), 4);
    assert_eq!(calls.get(), 2);
}

#[test]
fn sort_by_age_orders_people() {
    let mut people = vec![("Alice", 30), ("Bob", 25), ("Charlie", 35)];
    sort_by_age(&mut people);
    assert_eq!(people, vec![("Bob", 25), ("Alice", 30), ("Charlie", 35)]);
}

#[test]
fn sort_by_age_is_stable() {
    let mut people = vec![("A", 2), ("B", 1), ("C", 2), ("D", 1), ("E", 0)];
    sort_by_age(&mut people);
    assert_eq!(people, vec![("E", 0), ("B", 1), ("D", 1), ("A", 2), ("C", 2)]);
}

#[test]
fn sort_by_age_of_empty_list() {
    let mut people: Vec<(&str, i32)> = vec![];
    sort_by_age(&mut people);
    assert!(people.is_empty());
}
