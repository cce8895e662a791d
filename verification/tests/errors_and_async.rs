use lib::async_await::{async_operation, fetch_data, may_fail, process, PollState, Service, SimpleFuture};
use lib::error_handling::{parse_number, read_number_from_file, with_match, with_question_mark, MyError};

#[test]
fn read_number_is_forty_two() {
    assert_eq!(read_number_from_file(), Ok(42));
    assert_eq!(with_match(), Ok(42));
    assert_eq!(with_question_mark(), Ok(42));
}

#[test]
fn parse_number_accepts_signed_decimal_integers() {
    assert_eq!(parse_number("42").unwrap(), 42);
    assert_eq!(parse_number("-17").unwrap(), -17);
    assert_eq!(parse_number("+8").unwrap(), 8);
    assert_eq!(parse_number("007").unwrap(), 7);
    assert_eq!(parse_number("2147483647").unwrap(), i32::MAX);
    assert_eq!(parse_number("-2147483648").unwrap(), i32::MIN);
}

#[test]
fn parse_number_reports_parse_errors() {
    for bad in ["", "-", "+", "4 2", " 42", "42\n", "x", "2147483648", "1.5", "--1"] {
        assert!(matches!(parse_number(bad), Err(MyError::ParseError(_))), "{:?}", bad);
    }
}

#[test]
fn my_error_converts_from_io_error() {
    let e: MyError = std::io::Error::new(std::io::ErrorKind::NotFound, "missing").into();
    assert!(matches!(e, MyError::IoError(_)));
}

#[test]
fn simple_future_is_pending_once_then_ready() {
    let mut f = SimpleFuture::new();
    assert!(matches!(f.poll_step(), PollState::Pending));
    assert!(matches!(f.poll_step(), PollState::Ready("Future 完成!")));
    assert!(matches!(f.poll_step(), PollState::Ready("Future 完成!")));
}

#[test]
fn fetch_and_may_fail() {
    assert_eq!(fetch_data(1), "数据 1");
    assert_eq!(fetch_data(4294967295), "数据 4294967295");
    assert_eq!(may_fail(0), Err("ID不能为0"));
    assert_eq!(may_fail(12), Ok(String::from("数据 12")));
    assert_eq!(process(), Ok(String::from("数据 1 + 数据 2")));
    assert_eq!(async_operation(21), 42);
}

#[test]
fn service_methods() {
    let s = Service { name: String::from("svc") };
    assert_eq!(s.fetch(), "svc 的数据");
    assert_eq!(s.process("x"), "处理: x");
}
