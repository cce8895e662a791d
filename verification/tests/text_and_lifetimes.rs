use lib::lifetime::{first_word, longest, Config, ImportantExcerpt, Parser, SimpleParser};
use lib::text::{chars_of, decimal_string, first_token, prefix_until, split_words};

#[test]
fn longest_prefers_the_longer_and_ties_go_to_the_second() {
    assert_eq!(longest("hello", "world!"), "world!");
    assert_eq!(longest("hello!", "world"), "hello!");
    assert_eq!(longest("abc", "xyz"), "xyz");
    assert_eq!(longest("中", "ab"), "中");
}

#[test]
fn excerpt_methods() {
    let novel = String::from("Call me Ishmael. Some years ago...");
    let first_sentence = prefix_until(&novel, '.');
    assert_eq!(first_sentence, "Call me Ishmael");
    let e = ImportantExcerpt { part: first_sentence };
    assert_eq!(e.level(), 3);
    assert_eq!(e.announce_and_return("note"), "Call me Ishmael");
    assert_eq!(e.announce_and_return2("note"), "Call me Ishmael");
}

#[test]
fn lifetime_first_word() {
    assert_eq!(first_word("hello world"), "hello");
    assert_eq!(first_word("hello"), "hello");
    assert_eq!(first_word("  two spaces"), "");
}

#[test]
fn simple_parser_takes_the_first_word() {
    let p = SimpleParser;
    assert_eq!(p.parse("hello world"), "hello");
    assert_eq!(p.parse("  \t padded\nline"), "padded");
    assert_eq!(p.parse("   "), "");
    assert_eq!(p.parse(""), "");
    assert_eq!(p.parse("\u{3000}全角\u{3000}空格"), "全角");
}

#[test]
fn config_builder() {
    let mut c = Config::new("my_config");
    assert_eq!(c.build(), "my_config: None");
    let built = c.value("some_value").build();
    assert_eq!(built, "my_config: Some(\"some_value\")");
}

#[test]
fn config_build_escapes_quotes() {
    let mut c = Config::new("q");
    c.value("say \"hi\"\n");
    assert_eq!(c.build(), "q: Some(\"say \\\"hi\\\"\\n\")");
}

#[test]
fn split_words_on_unicode_whitespace() {
    assert_eq!(split_words("hello world how are you"), vec!["hello", "world", "how", "are", "you"]);
    assert_eq!(split_words("  a\tb \n c  "), vec!["a", "b", "c"]);
    assert_eq!(split_words(""), Vec::<&str>::new());
    assert_eq!(split_words(" \u{a0} "), Vec::<&str>::new());
    assert_eq!(first_token("  x y"), "x");
}

#[test]
fn split_words_agrees_with_std() {
    for s in ["a  b", "\u{2003}x\u{2028}y", "one", "", "  lead and trail  "] {
        let ours = split_words(s);
        let theirs: Vec<&str> = s.split_whitespace().collect();
        assert_eq!(ours, theirs);
    }
}

#[test]
fn decimal_rendering() {
    assert_eq!(decimal_string(0), "0");
    assert_eq!(decimal_string(42), "42");
    assert_eq!(decimal_string(-7), "-7");
    assert_eq!(decimal_string(1000), "1000");
    assert_eq!(decimal_string(i64::MIN), "-9223372036854775808");
    assert_eq!(decimal_string(i64::MAX), "9223372036854775807");
}

#[test]
fn chars_of_a_string() {
    assert_eq!(chars_of("héllo"), vec!['h', 'é', 'l', 'l', 'o']);
}
