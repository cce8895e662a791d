use lib::pattern_match::{
    bind_in_range, char_kind, chinese_numeral, eval, guard_arm, locate, number_name, or_pattern_with_guard, pair_sums,
    pop_all, range_label, small_positive_x, tuple_label, Expr, GuardArm, Location, Point,
};

fn lit(n: i32) -> Box<Expr> {
    Box::new(Expr::Value(n))
}

#[test]
fn eval_of_two_plus_three_times_four_is_twenty() {
    let expr = Expr::Mul(Box::new(Expr::Add(lit(2), lit(3))), lit(4));
    assert_eq!(eval(&expr), 20);
}

#[test]
fn eval_handles_subtraction_and_literals() {
    assert_eq!(eval(&Expr::Value(-7)), -7);
    assert_eq!(eval(&Expr::Sub(lit(3), lit(10))), -7);
    let nested = Expr::Sub(Box::new(Expr::Mul(lit(6), lit(7))), Box::new(Expr::Add(lit(1), lit(-1))));
    assert_eq!(eval(&nested), 42);
}

#[test]
fn eval_is_compositional_on_concrete_operands() {
    let a = Expr::Mul(lit(3), lit(5));
    let b = Expr::Sub(lit(9), lit(4));
    let va = eval(&a);
    let vb = eval(&b);
    assert_eq!(eval(&Expr::Add(Box::new(a), Box::new(b))), va + vb);
}

#[test]
fn number_name_cases() {
    assert_eq!(number_name(1), "one");
    assert_eq!(number_name(2), "two");
    assert_eq!(number_name(3), "other");
    assert_eq!(number_name(-1), "other");
}

#[test]
fn range_label_cases() {
    assert_eq!(range_label(5), "1到5之间");
    assert_eq!(range_label(1), "1到5之间");
    assert_eq!(range_label(6), "6到10之间");
    assert_eq!(range_label(10), "6到10之间");
    assert_eq!(range_label(0), "其他");
    assert_eq!(range_label(11), "其他");
}

#[test]
fn char_kind_cases() {
    assert_eq!(char_kind('c'), "小写字母");
    assert_eq!(char_kind('Q'), "大写字母");
    assert_eq!(char_kind('7'), "数字");
    assert_eq!(char_kind('中'), "其他");
}

#[test]
fn locate_tries_arms_in_order() {
    assert_eq!(locate(Point { x: 10, y: 20 }), Location::Elsewhere(10, 20));
    assert_eq!(locate(Point { x: 3, y: 0 }), Location::OnXAxis(3));
    assert_eq!(locate(Point { x: 0, y: 0 }), Location::OnXAxis(0));
    assert_eq!(locate(Point { x: 0, y: 4 }), Location::OnYAxis(4));
    assert_eq!(locate(Point { x: 5, y: 5 }), Location::OnDiagonal);
}

#[test]
fn guard_arm_cases() {
    assert_eq!(guard_arm(Some(5)), GuardArm::AtLeast5(5));
    assert_eq!(guard_arm(Some(4)), GuardArm::Below5(4));
    assert_eq!(guard_arm(None), GuardArm::Nothing);
}

#[test]
fn guard_applies_to_the_whole_or_pattern() {
    assert!(!or_pattern_with_guard(4, false));
    assert!(or_pattern_with_guard(4, true));
    assert!(or_pattern_with_guard(6, true));
    assert!(!or_pattern_with_guard(7, true));
}

#[test]
fn at_bindings() {
    assert_eq!(bind_in_range(5), Some(5));
    assert_eq!(bind_in_range(6), None);
    assert_eq!(bind_in_range(0), None);
    assert_eq!(small_positive_x(Point { x: 3, y: 3 }), Some(3));
    assert_eq!(small_positive_x(Point { x: 0, y: 3 }), None);
    assert_eq!(small_positive_x(Point { x: 6, y: 3 }), None);
}

#[test]
fn pop_all_gives_the_reverse() {
    assert_eq!(pop_all(vec![1, 2, 3]), vec![3, 2, 1]);
    assert_eq!(pop_all(vec![]), Vec::<i32>::new());
}

#[test]
fn pair_sums_of_pairs() {
    assert_eq!(pair_sums(&[(1, 2), (3, 4), (5, 6)]), vec![3, 7, 11]);
}

#[test]
fn checked_eval_agrees_with_eval_when_nothing_overflows() {
    let expr = Expr::Mul(Box::new(Expr::Add(lit(2), lit(3))), lit(4));
    assert_eq!(lib::pattern_match::checked_eval(&expr), Some(eval(&expr)));
}

#[test]
fn checked_eval_reports_overflow_anywhere_in_the_tree() {
    use_checked(Expr::Mul(lit(i32::MAX), lit(2)));
    use_checked(Expr::Sub(lit(i32::MIN), lit(1)));
    use_checked(Expr::Add(Box::new(Expr::Mul(lit(65536), lit(65536))), lit(0)));
    use_checked(Expr::Mul(Box::new(Expr::Add(lit(i32::MAX), lit(1))), lit(0)));
}

fn use_checked(e: Expr) {
    assert_eq!(lib::pattern_match::checked_eval(&e), None);
}

#[test]
fn tuple_match_takes_the_first_arm_that_fits() {
    assert_eq!(tuple_label((1, 2, 3)), "第一个是1");
    assert_eq!(tuple_label((0, 2, 3)), "第二个是2");
    assert_eq!(tuple_label((0, 0, 3)), "第三个是3");
    assert_eq!(tuple_label((0, 0, 0)), "其他");
}

#[test]
fn chinese_numerals() {
    assert_eq!(chinese_numeral(1), "一");
    assert_eq!(chinese_numeral(2), "二");
    assert_eq!(chinese_numeral(3), "三");
    assert_eq!(chinese_numeral(4), "其他");
    assert_eq!(chinese_numeral(-1), "其他");
}
