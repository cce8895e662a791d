use lib::macros::Person;
use lib::modules::{api, backend, calculator, math, shapes};
use lib::smart_pointers::{process_input, Animal, Cat, Dog, MyBox};
use std::borrow::Cow;

#[test]
fn math_module() {
    assert_eq!(math::add(1, 2), 3);
    assert_eq!(math::multiply(3, 4), 12);
    assert_eq!(math::get_secret(), 42);
}

#[test]
fn test_add() {
    assert_eq!(calculator::add(1, 2), 3);
}

#[test]
fn shapes_module() {
    let r = shapes::Rectangle::new(10, 20);
    assert_eq!(r.width, 10);
    assert_eq!(r.height, 20);
    assert_eq!(r.get_id(), 0);
    let p = shapes::Point(1, 2);
    assert_eq!((p.0, p.1), (1, 2));
}

#[test]
fn api_and_backend() {
    assert_eq!(api::process(), "内部帮助函数");
    assert_eq!(backend::connect().name, "mydb");
    let u = backend::models::User { name: String::from("Alice") };
    assert_eq!(u.name, "Alice");
}

#[test]
fn person_constructor() {
    let p = Person::new(String::from("Alice"), 30);
    assert_eq!(p.name, "Alice");
    assert_eq!(p.age, 30);
}

#[test]
fn animal_sounds() {
    let animals: Vec<Box<dyn Animal>> = vec![Box::new(Dog), Box::new(Cat)];
    let sounds: Vec<&str> = animals.iter().map(|a| a.make_sound()).collect();
    assert_eq!(sounds, vec!["汪汪", "喵喵"]);
}

#[test]
fn my_box_derefs() {
    let b = MyBox::new(10);
    assert_eq!(*b, 10);
    let name = MyBox::new(String::from("Rust"));
    let s: &str = &name;
    assert_eq!(s, "Rust");
}

#[test]
fn process_input_borrows_when_there_is_nothing_to_replace() {
    let r = process_input(Cow::Borrowed("hello"));
    assert!(matches!(r, Cow::Borrowed("hello")));
}

#[test]
fn process_input_replaces_x_with_y() {
    let r = process_input(Cow::Borrowed("hello X"));
    assert!(matches!(&r, Cow::Owned(_)));
    assert_eq!(r, "hello Y");
    let r2 = process_input(Cow::Owned(String::from("XxX")));
    assert_eq!(r2, "YxY");
}
