use lib::trait_generics::{
    largest, returns_summarizable, some_function, Counter, Display, Iterator2, NewsArticle, Pair,
    Point, Summary, Tweet, Wrapper,
};

fn article() -> NewsArticle {
    NewsArticle {
        headline: String::from("Rust发布新版本"),
        location: String::from("北京"),
        author: String::from("张三"),
        content: String::from("..."),
    }
}

fn tweet() -> Tweet {
    Tweet {
        username: String::from("rustlang"),
        content: String::from("Exciting news!"),
        reply: false,
        retweet: false,
    }
}

#[test]
fn article_summaries() {
    let a = article();
    assert_eq!(a.summarize(), "Rust发布新版本, by 张三 (北京)");
    assert_eq!(a.summarize_author(), "作者: 张三");
    assert_eq!(
        a.summarize_with_author(),
        "Rust发布新版本, by 张三 (北京) — 作者: 作者: 张三"
    );
    assert_eq!(a.display(), "[News] Rust发布新版本");
}

#[test]
fn tweet_summaries() {
    let t = tweet();
    assert_eq!(t.summarize(), "rustlang: Exciting news!");
    assert_eq!(t.summarize_author(), "@rustlang");
    assert_eq!(
        t.summarize_with_author(),
        "rustlang: Exciting news! — 作者: @rustlang"
    );
}

#[test]
fn returns_summarizable_is_a_hello_tweet() {
    let s = returns_summarizable();
    assert_eq!(s.summarize(), "rustlang: Hello world!");
    assert_eq!(s.summarize_author(), "@rustlang");
}

#[test]
fn largest_number_and_char() {
    assert_eq!(*largest(&[34, 50, 25, 100, 65]), 100);
    assert_eq!(*largest(&['y', 'm', 'a', 'q']), 'y');
    assert_eq!(*largest(&[7]), 7);
}

#[test]
fn largest_picks_the_first_of_equals() {
    let v = [1, 3, 3, 2];
    assert!(std::ptr::eq(largest(&v), &v[1]));
}

#[test]
fn largest_is_no_smaller_than_any_element() {
    let v = [4, -2, 9, 9, 0, 8];
    let m = *largest(&v);
    assert!(v.iter().all(|x| *x <= m));
}

#[test]
fn point_mixup_takes_x_from_self_and_y_from_other() {
    let p1 = Point { x: 5, y: 10.0 };
    let p2 = Point { x: "hello", y: 'c' };
    let p3 = p1.mixup(p2);
    assert_eq!(p3.x, 5);
    assert_eq!(p3.y, 'c');
    assert_eq!(*p3.x(), 5);
    assert_eq!(*p3.y(), 'c');
}

#[test]
fn some_function_returns_result() {
    assert_eq!(some_function(&1, &"x"), "result");
}

#[test]
fn counter_counts_to_max_then_stops() {
    let mut c = Counter::new(3);
    assert_eq!(c.next(), Some(1));
    assert_eq!(c.next(), Some(2));
    assert_eq!(c.next(), Some(3));
    assert_eq!(c.next(), None);
    assert_eq!(c.next(), None);
}

#[test]
fn empty_counter_produces_nothing() {
    let mut c = Counter::new(0);
    assert_eq!(c.next(), None);
}

#[test]
fn wrapper_default_holds_default() {
    let w: Wrapper = Wrapper::default();
    assert_eq!(w.value, vec![String::from("default")]);
}

#[test]
fn pair_reports_the_larger_side() {
    assert!(!Pair::new(5, 10).x_is_largest());
    assert!(Pair::new(10, 5).x_is_largest());
    assert!(Pair::new(7, 7).x_is_largest());
}
