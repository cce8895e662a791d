use lib::basics::{countdown, greet, if_value, labelled_loops, loop_break_value, number_band, swap, LoopEvent};
use lib::struct_enum::{Direction, Message, Rectangle, User};

#[test]
fn greet_rust() {
    assert_eq!(greet("Rust"), "Hello, Rust!");
    assert_eq!(greet(""), "Hello, !");
}

#[test]
fn swap_one_two() {
    assert_eq!(swap(1, 2), (2, 1));
    let (a, b) = swap(1, 2);
    assert_eq!(swap(a, b), (1, 2));
}

#[test]
fn control_flow_pieces() {
    assert_eq!(number_band(13), "10-20之间");
    assert_eq!(number_band(9), "小于10");
    assert_eq!(number_band(20), "大于等于20");
    assert_eq!(if_value(true), 5);
    assert_eq!(if_value(false), 6);
    assert_eq!(loop_break_value(10), 20);
    assert_eq!(countdown(5), vec![5, 4, 3, 2, 1]);
    assert_eq!(countdown(0), Vec::<i32>::new());
    assert_eq!(countdown(-3), Vec::<i32>::new());
}

#[test]
fn labelled_loop_trace() {
    assert_eq!(
        labelled_loops(2),
        vec![
            LoopEvent::Count(0), LoopEvent::Remaining(10), LoopEvent::Remaining(9),
            LoopEvent::Count(1), LoopEvent::Remaining(10), LoopEvent::Remaining(9),
            LoopEvent::Count(2), LoopEvent::Remaining(10),
        ]
    );
    assert_eq!(labelled_loops(0), vec![LoopEvent::Count(0), LoopEvent::Remaining(10)]);
}

#[test]
fn struct_update_keeps_other_fields() {
    let user1 = User {
        email: String::from("someone@example.com"),
        username: String::from("someusername123"),
        active: true,
        sign_in_count: 1,
    };
    let user3 = user1.with_email(String::from("third@example.com"));
    assert_eq!(user3.email, "third@example.com");
    assert_eq!(user3.username, "someusername123");
    assert!(user3.active);
    assert_eq!(user3.sign_in_count, 1);
}

#[test]
fn rectangle_methods() {
    let rect = Rectangle { width: 30, height: 50 };
    assert_eq!(rect.area(), 1500);
    assert_eq!(rect.perimeter(), 160);
    let sq = Rectangle::square(5);
    assert_eq!(sq, Rectangle { width: 5, height: 5 });
    assert_eq!(sq.area(), 25);
    let mut rect2 = Rectangle { width: 10, height: 20 };
    rect2.scale(2);
    assert_eq!(rect2.area(), 800);
}

#[test]
fn scaling_multiplies_area_by_the_square_of_the_factor() {
    let mut r = Rectangle { width: 7, height: 3 };
    let before = r.area();
    r.scale(4);
    assert_eq!(r.area(), before * 16);
}

#[test]
fn direction_labels() {
    assert_eq!(Direction::Up.label(), "向上");
    assert_eq!(Direction::Down.label(), "向下");
    assert_eq!(Direction::Left.label(), "向左");
    assert_eq!(Direction::Right.label(), "向右");
}

#[test]
fn message_descriptions() {
    assert_eq!(Message::Move { x: 10, y: 20 }.describe(), "移动到(10, 20)");
    assert_eq!(Message::Move { x: -1, y: 0 }.describe(), "移动到(-1, 0)");
    assert_eq!(Message::Write(String::from("hello")).describe(), "写入: hello");
    assert_eq!(Message::ChangeColor(255, 0, 0).describe(), "颜色: 255 0 0");
    assert_eq!(Message::Quit.describe(), "退出");
}
