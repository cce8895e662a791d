//! Character-level text helpers shared by the other modules: byte length,
//! whitespace, splitting, decimal rendering, integer parsing and the quoted
//! form of a string, with the calls into `std` that some of them rest on.
use vstd::prelude::*;
use vstd::string::*;
use vstd::utf8::*;

verus! {

/// The error that parsing an integer reports.
#[verifier::external_type_specification]
#[verifier::external_body]
pub struct ExParseIntError(std::num::ParseIntError);

/// Number of bytes in the UTF-8 encoding of `s`, which is what `str::len` reports.
pub open spec fn byte_len(s: Seq<char>) -> nat {
    encode_utf8(s).len()
}

/// The Unicode `White_Space` property (PropList.txt), which `char::is_whitespace` tests.
pub open spec fn is_white_space(c: char) -> bool {
    ||| '\u{9}' <= c <= '\u{d}'
    ||| c == ' '
    ||| c == '\u{85}'
    ||| c == '\u{a0}'
    ||| c == '\u{1680}'
    ||| '\u{2000}' <= c <= '\u{200a}'
    ||| c == '\u{2028}'
    ||| c == '\u{2029}'
    ||| c == '\u{202f}'
    ||| c == '\u{205f}'
    ||| c == '\u{3000}'
}

/// `s` with its leading whitespace removed.
pub open spec fn skip_white(s: Seq<char>) -> Seq<char>
    decreases s.len(),
{
    if s.len() > 0 && is_white_space(s[0]) {
        skip_white(s.drop_first())
    } else {
        s
    }
}

/// The longest prefix of `s` that holds no whitespace.
pub open spec fn leading_word(s: Seq<char>) -> Seq<char>
    decreases s.len(),
{
    if s.len() == 0 || is_white_space(s[0]) {
        Seq::empty()
    } else {
        seq![s[0]] + leading_word(s.drop_first())
    }
}

/// The maximal runs of non-whitespace characters of `s`, in order.
pub open spec fn words(s: Seq<char>) -> Seq<Seq<char>>
    decreases s.len(),
{
    let t = skip_white(s);
    if t.len() == 0 {
        Seq::empty()
    } else {
        let w = leading_word(t);
        proof {
            lemma_skip_white_shape(s);
            lemma_leading_word_len(t);
        }
        seq![w] + words(t.skip(w.len() as int))
    }
}

/// Skipping whitespace never lengthens a string, and what is left starts with
/// a character that is not whitespace, if with anything.
pub proof fn lemma_skip_white_shape(s: Seq<char>)
    ensures
        skip_white(s).len() <= s.len(),
        skip_white(s).len() == 0 || !is_white_space(skip_white(s)[0]),
    decreases s.len(),
{
    if s.len() > 0 && is_white_space(s[0]) {
        lemma_skip_white_shape(s.drop_first());
    }
}

/// The prefix of `s` in front of the first `sep`, or all of `s` when it holds none.
pub open spec fn prefix_before(s: Seq<char>, sep: char) -> Seq<char>
    decreases s.len(),
{
    if s.len() == 0 || s[0] == sep {
        Seq::empty()
    } else {
        seq![s[0]] + prefix_before(s.drop_first(), sep)
    }
}

/// The part in front of the first separator is a prefix of `s` that holds no
/// separator, and it is all of `s` exactly when `s` holds none.
pub proof fn law_prefix_before_is_prefix(s: Seq<char>, sep: char)
    ensures
        prefix_before(s, sep).len() <= s.len(),
        prefix_before(s, sep) == s.take(prefix_before(s, sep).len() as int),
        !prefix_before(s, sep).contains(sep),
        prefix_before(s, sep).len() == s.len() <==> !s.contains(sep),
    decreases s.len(),
{
    if s.len() > 0 && s[0] != sep {
        let t = s.drop_first();
        law_prefix_before_is_prefix(t, sep);
        let p = prefix_before(t, sep);
        assert(seq![s[0]] + p =~= s.take(p.len() + 1int)) by {
            assert(p =~= t.take(p.len() as int));
        }
        if (seq![s[0]] + p).contains(sep) {
            let k = choose|k: int| 0 <= k < (seq![s[0]] + p).len() && (seq![s[0]] + p)[k] == sep;
            assert(p[k - 1] == sep);
        }
        if s.contains(sep) {
            let k = choose|k: int| 0 <= k < s.len() && s[k] == sep;
            assert(t[k - 1] == sep);
        }
        if t.contains(sep) {
            let k = choose|k: int| 0 <= k < t.len() && t[k] == sep;
            assert(s[k + 1] == sep);
        }
    } else if s.len() > 0 {
        assert(s[0] == sep);
        assert(s.contains(sep));
        assert(s.take(0) =~= Seq::<char>::empty());
    } else {
        assert(s.take(0) =~= Seq::<char>::empty());
    }
}

/// The decimal digit character for `d`, for `d < 10`.
pub open spec fn digit_char(d: nat) -> char {
    if d == 0 { '0' }
    else if d == 1 { '1' }
    else if d == 2 { '2' }
    else if d == 3 { '3' }
    else if d == 4 { '4' }
    else if d == 5 { '5' }
    else if d == 6 { '6' }
    else if d == 7 { '7' }
    else if d == 8 { '8' }
    else { '9' }
}

/// The decimal digits of `n`, most significant first, without leading zeros.
pub open spec fn digits(n: nat) -> Seq<char>
    decreases n,
{
    if n < 10 {
        seq![digit_char(n)]
    } else {
        digits(n / 10).push(digit_char(n % 10))
    }
}

/// How `Display` writes the integer `n`: a minus sign for negatives, then the digits.
pub open spec fn decimal(n: int) -> Seq<char> {
    if n < 0 {
        seq!['-'] + digits((-n) as nat)
    } else {
        digits(n as nat)
    }
}

proof fn lemma_digit_char(d: nat)
    requires
        d < 10,
    ensures
        is_digit(digit_char(d)),
        digit_value(digit_char(d)) == d,
        digit_char(d) == '0' <==> d == 0,
{
}

proof fn lemma_digits(n: nat)
    ensures
        digits(n).len() >= 1,
        forall|i: int| 0 <= i < digits(n).len() ==> is_digit(#[trigger] digits(n)[i]),
        digits_value(digits(n)) == n,
        digits(n)[0] == '0' <==> n == 0,
    decreases n,
{
    if n < 10 {
        lemma_digit_char(n);
        assert(seq![digit_char(n)].drop_last() =~= Seq::<char>::empty());
        assert(digits_value(Seq::<char>::empty()) == 0);
        assert(digits_value(digits(n)) == digits_value(Seq::<char>::empty()) * 10 + digit_value(digit_char(n)));
    } else {
        lemma_digits(n / 10);
        lemma_digit_char(n % 10);
        let p = digits(n / 10);
        assert(p.push(digit_char(n % 10)).drop_last() =~= p);
        assert((n / 10) * 10 + n % 10 == n) by (nonlinear_arith);
        assert(digits_value(digits(n)) == digits_value(p) * 10 + digit_value(digit_char(n % 10)));
        assert forall|i: int| 0 <= i < digits(n).len() implies is_digit(#[trigger] digits(n)[i]) by {
            if i < p.len() {
                assert(digits(n)[i] == p[i]);
            }
        }
    }
}

/// `decimal` is the canonical decimal form: read back as an integer it gives
/// `n`, it has no leading zero (only 0 itself starts with `'0'`), and a
/// negative number is a minus sign followed by such digits.
pub proof fn law_decimal_reads_back(n: int)
    ensures
        integer_text_value(decimal(n)) == Some(n),
        n >= 0 ==> decimal(n)[0] != '-' && (decimal(n)[0] == '0' <==> n == 0),
        n < 0 ==> decimal(n)[0] == '-' && decimal(n)[1] != '0',
{
    if n < 0 {
        let m = (-n) as nat;
        lemma_digits(m);
        let s = decimal(n);
        assert(s.drop_first() =~= digits(m));
        assert(s[1] == digits(m)[0]);
    } else {
        let m = n as nat;
        lemma_digits(m);
        assert(is_digit(digits(m)[0]));
    }
}

/// A character that `Debug` for `str` writes unchanged: printable ASCII other than
/// the double quote and the backslash.
pub open spec fn debug_plain(c: char) -> bool {
    ' ' <= c <= '~' && c != '"' && c != '\\'
}

/// What `Debug` for `str` writes for a string; its escaping rules take pages to state.
pub uninterp spec fn debug_str_text(s: Seq<char>) -> Seq<char>;

/// `c` in ASCII upper case: `'a'..='z'` become `'A'..='Z'`, anything else stays.
pub open spec fn ascii_upper(c: char) -> char {
    if 'a' <= c <= 'z' {
        ((c as u32) - 32) as char
    } else {
        c
    }
}

/// ASCII upper-casing maps each lower-case letter to the upper-case letter 32
/// code points below it and leaves every other character, upper-case letters
/// included, as it is; so no lower-case ASCII letter is left.
pub proof fn law_ascii_upper(c: char)
    ensures
        !('a' <= ascii_upper(c) <= 'z'),
        !('a' <= c <= 'z') ==> ascii_upper(c) == c,
        'a' <= c <= 'z' ==> 'A' <= ascii_upper(c) <= 'Z' && ascii_upper(c) as u32 + 32 == c as u32,
{
}

/// Whether `c` is an ASCII decimal digit.
pub open spec fn is_digit(c: char) -> bool {
    '0' <= c <= '9'
}

/// The value of an ASCII decimal digit.
pub open spec fn digit_value(c: char) -> int {
    (c as u32) - ('0' as u32)
}

/// The value of a string of decimal digits, most significant first.
pub open spec fn digits_value(d: Seq<char>) -> int
    decreases d.len(),
{
    if d.len() == 0 {
        0
    } else {
        digits_value(d.drop_last()) * 10 + digit_value(d.last())
    }
}

/// The value of an optional sign (`+` or `-`) followed by one or more decimal
/// digits, or `None` when `s` has another shape.
pub open spec fn integer_text_value(s: Seq<char>) -> Option<int> {
    let (negative, d) = if s.len() > 0 && s[0] == '-' {
        (true, s.drop_first())
    } else if s.len() > 0 && s[0] == '+' {
        (false, s.drop_first())
    } else {
        (false, s)
    };
    if d.len() > 0 && (forall|i: int| 0 <= i < d.len() ==> is_digit(#[trigger] d[i])) {
        Some(if negative { -digits_value(d) } else { digits_value(d) })
    } else {
        None
    }
}

/// What `str::parse::<i32>` accepts and yields: an integer text whose value
/// fits in an `i32`.
pub open spec fn parsed_i32(s: Seq<char>) -> Option<i32> {
    match integer_text_value(s) {
        Some(v) => if i32::MIN <= v <= i32::MAX { Some(v as i32) } else { None },
        None => None,
    }
}

/// `str::parse::<i32>`: succeeds exactly on an optional `+` or `-` followed by
/// one or more ASCII digits whose value fits in an `i32`, and yields that value.
/// Which `ParseIntError` comes back on failure is left unsaid.
#[verifier::external_body]
pub(crate) fn parse_i32(s: &str) -> (r: Result<i32, std::num::ParseIntError>)
    ensures
        r is Ok <==> parsed_i32(s@) is Some,
        r matches Ok(n) ==> parsed_i32(s@) == Some(n),
{
    s.parse::<i32>()
}

/// `String::push`: appends one character.
#[verifier::external_body]
pub(crate) fn push_char(s: &mut String, c: char)
    ensures
        final(s)@ == old(s)@.push(c),
{
    s.push(c);
}

/// Whether `c` has the Unicode `White_Space` property, as `char::is_whitespace`
/// decides it.
pub(crate) fn is_whitespace_char(c: char) -> (b: bool)
    ensures
        b == is_white_space(c),
{
    ('\u{9}' <= c && c <= '\u{d}') || c == ' ' || c == '\u{85}' || c == '\u{a0}'
        || c == '\u{1680}' || ('\u{2000}' <= c && c <= '\u{200a}') || c == '\u{2028}'
        || c == '\u{2029}' || c == '\u{202f}' || c == '\u{205f}' || c == '\u{3000}'
}

/// `Debug` for `str` (`format!("{:?}", s)`): the string in double quotes with
/// special characters escaped. The contract names the result and states only
/// that a string made of plain printable characters is written between quotes
/// as it is; the escapes of the other characters are left unsaid.
#[verifier::external_body]
pub(crate) fn debug_str(s: &str) -> (r: String)
    ensures
        r@ == debug_str_text(s@),
        (forall|i: int| 0 <= i < s@.len() ==> debug_plain(#[trigger] s@[i]))
            ==> r@ == seq!['"'] + s@ + seq!['"'],
{
    format!("{:?}", s)
}

/// The characters of `s`, in order.
pub fn chars_of(s: &str) -> (v: Vec<char>)
    ensures
        v@ == s@,
{
    let n = s.unicode_len();
    let mut v: Vec<char> = Vec::new();
    let mut i: usize = 0;
    while i < n
        invariant
            n == s@.len(),
            i <= n,
            v@ == s@.take(i as int),
        decreases n - i,
    {
        let c = s.get_char(i);
        v.push(c);
        i = i + 1;
        assert(v@ =~= s@.take(i as int));
    }
    assert(v@ =~= s@);
    v
}

/// `c` in ASCII upper case.
fn ascii_upper_char(c: char) -> (u: char)
    ensures
        u == ascii_upper(c),
{
    if 'a' <= c && c <= 'z' {
        let b: u8 = c as u8;
        (b - 32) as char
    } else {
        c
    }
}

/// Maps every ASCII lowercase letter of `s` to its uppercase form in place and
/// leaves every other character as it is (what `String::make_ascii_uppercase`
/// does).
pub(crate) fn make_ascii_uppercase(s: &mut String)
    ensures
        final(s)@ == old(s)@.map_values(|c: char| ascii_upper(c)),
        final(s)@.len() == old(s)@.len(),
        forall|i: int| 0 <= i < final(s)@.len() ==> !('a' <= #[trigger] final(s)@[i] <= 'z'),
        forall|i: int|
            0 <= i < old(s)@.len() && !('a' <= #[trigger] old(s)@[i] <= 'z') ==> final(s)@[i] == old(s)@[i],
        forall|i: int|
            0 <= i < old(s)@.len() && 'a' <= #[trigger] old(s)@[i] <= 'z' ==> final(s)@[i] as u32 + 32
                == old(s)@[i] as u32,
{
    let cs = chars_of(s.as_str());
    let mut out = String::new();
    let mut i: usize = 0;
    while i < cs.len()
        invariant
            i <= cs@.len(),
            cs@ == old(s)@,
            out@ == cs@.take(i as int).map_values(|c: char| ascii_upper(c)),
        decreases cs@.len() - i,
    {
        let u = ascii_upper_char(cs[i]);
        push_char(&mut out, u);
        i = i + 1;
        assert(out@ =~= cs@.take(i as int).map_values(|c: char| ascii_upper(c)));
    }
    assert(cs@.take(cs@.len() as int) =~= cs@);
    assert forall|i: int| 0 <= i < cs@.len() implies !('a' <= #[trigger] out@[i] <= 'z') by {
        law_ascii_upper(cs@[i]);
    }
    assert forall|i: int| 0 <= i < cs@.len() && 'a' <= #[trigger] cs@[i] <= 'z' implies out@[i] as u32 + 32 == cs@[i] as u32 by {
        law_ascii_upper(cs@[i]);
    }
    *s = out;
}

proof fn lemma_prefix_before_take(s: Seq<char>, sep: char, k: int)
    requires
        0 <= k <= s.len(),
        forall|j: int| 0 <= j < k ==> s[j] != sep,
        k == s.len() || s[k] == sep,
    ensures
        prefix_before(s, sep) == s.take(k),
    decreases s.len(),
{
    if s.len() == 0 || s[0] == sep {
        assert(s.take(k) =~= Seq::<char>::empty());
    } else {
        lemma_prefix_before_take(s.drop_first(), sep, k - 1);
        assert(s.take(k) =~= seq![s[0]] + s.drop_first().take(k - 1));
    }
}

/// The part of `s` in front of the first `sep` (all of `s` when it holds none);
/// this is what `s.split(sep).next().unwrap()` yields.
pub fn prefix_until(s: &str, sep: char) -> (r: &str)
    ensures
        r@ == prefix_before(s@, sep),
{
    let cs = chars_of(s);
    let n = cs.len();
    let mut k: usize = 0;
    while k < n && cs[k] != sep
        invariant
            n == cs@.len(),
            cs@ == s@,
            k <= n,
            forall|j: int| 0 <= j < k ==> cs@[j] != sep,
        decreases n - k,
    {
        k = k + 1;
    }
    proof {
        lemma_prefix_before_take(s@, sep, k as int);
    }
    s.substring_char(0, k)
}

proof fn lemma_skip_white_skip(s: Seq<char>, k: int)
    requires
        0 <= k <= s.len(),
        forall|j: int| 0 <= j < k ==> is_white_space(#[trigger] s[j]),
    ensures
        skip_white(s) == skip_white(s.skip(k)),
    decreases k,
{
    if k > 0 {
        assert(is_white_space(s[0]));
        lemma_skip_white_skip(s.drop_first(), k - 1);
        assert(s.drop_first().skip(k - 1) =~= s.skip(k));
    } else {
        assert(s.skip(0) =~= s);
    }
}

proof fn lemma_leading_word_take(s: Seq<char>, k: int)
    requires
        0 <= k <= s.len(),
        forall|j: int| 0 <= j < k ==> !is_white_space(#[trigger] s[j]),
        k == s.len() || is_white_space(s[k]),
    ensures
        leading_word(s) == s.take(k),
    decreases k,
{
    if k == 0 {
        assert(s.take(0) =~= Seq::<char>::empty());
    } else {
        assert(!is_white_space(s[0]));
        lemma_leading_word_take(s.drop_first(), k - 1);
        assert(s.take(k) =~= seq![s[0]] + s.drop_first().take(k - 1));
    }
}

/// From position `i` of `cs`, the position of the first non-whitespace character
/// (or the end).
fn skip_white_from(cs: &Vec<char>, i: usize) -> (k: usize)
    requires
        i <= cs@.len(),
    ensures
        i <= k <= cs@.len(),
        skip_white(cs@.skip(i as int)) == cs@.skip(k as int),
        k == cs@.len() || !is_white_space(cs@[k as int]),
{
    let n = cs.len();
    let mut k: usize = i;
    while k < n && is_whitespace_char(cs[k])
        invariant
            n == cs@.len(),
            i <= k <= n,
            forall|j: int| i <= j < k ==> is_white_space(#[trigger] cs@[j]),
        decreases n - k,
    {
        k = k + 1;
    }
    proof {
        let t = cs@.skip(i as int);
        assert forall|j: int| 0 <= j < k - i implies is_white_space(#[trigger] t[j]) by {
            assert(t[j] == cs@[i + j]);
        }
        lemma_skip_white_skip(t, k - i);
        assert(t.skip(k - i) =~= cs@.skip(k as int));
        let u = cs@.skip(k as int);
        if k < n {
            assert(u[0] == cs@[k as int]);
        }
        assert(u.len() == 0 || !is_white_space(u[0]));
        assert(skip_white(u) == u);
    }
    k
}

/// From position `i` of `cs`, the position of the first whitespace character
/// (or the end).
fn word_end_from(cs: &Vec<char>, i: usize) -> (k: usize)
    requires
        i <= cs@.len(),
    ensures
        i <= k <= cs@.len(),
        leading_word(cs@.skip(i as int)) == cs@.subrange(i as int, k as int),
{
    let n = cs.len();
    let mut k: usize = i;
    while k < n && !is_whitespace_char(cs[k])
        invariant
            n == cs@.len(),
            i <= k <= n,
            forall|j: int| i <= j < k ==> !is_white_space(#[trigger] cs@[j]),
        decreases n - k,
    {
        k = k + 1;
    }
    proof {
        let t = cs@.skip(i as int);
        assert forall|j: int| 0 <= j < k - i implies !is_white_space(#[trigger] t[j]) by {
            assert(t[j] == cs@[i + j]);
        }
        if k < n {
            assert(t[k - i] == cs@[k as int]);
        }
        lemma_leading_word_take(t, k - i);
        assert(t.take(k - i) =~= cs@.subrange(i as int, k as int));
    }
    k
}

/// The first whitespace-separated word of `s`, or the empty string when there
/// is none: what `s.split_whitespace().next().unwrap_or("")` yields.
pub fn first_token(s: &str) -> (r: &str)
    ensures
        r@ == leading_word(skip_white(s@)),
        words(s@).len() > 0 ==> r@ == words(s@)[0],
        words(s@).len() == 0 ==> r@.len() == 0,
{
    proof {
        let t = skip_white(s@);
        if t.len() == 0 {
            assert(leading_word(t) =~= Seq::<char>::empty());
        }
    }
    let cs = chars_of(s);
    proof {
        assert(cs@.skip(0) =~= cs@);
    }
    let a = skip_white_from(&cs, 0);
    let b = word_end_from(&cs, a);
    s.substring_char(a, b)
}

/// The leading word is no longer than the string, and it is not empty when
/// the string starts with a character that is not whitespace.
pub proof fn lemma_leading_word_len(s: Seq<char>)
    ensures
        leading_word(s).len() <= s.len(),
        s.len() > 0 && !is_white_space(s[0]) ==> leading_word(s).len() > 0,
    decreases s.len(),
{
    if s.len() > 0 && !is_white_space(s[0]) {
        lemma_leading_word_len(s.drop_first());
    }
}

/// The whitespace test is Unicode's `White_Space` set, code point by code
/// point: the ASCII controls U+0009 to U+000D (tab, line feed, vertical tab,
/// form feed, carriage return), the space, and seventeen further code points.
pub proof fn law_white_space_code_points(c: char)
    ensures
        is_white_space(c) <==> {
            let u = c as u32;
            ||| 0x9 <= u <= 0xd
            ||| u == 0x20
            ||| u == 0x85
            ||| u == 0xa0
            ||| u == 0x1680
            ||| 0x2000 <= u <= 0x200a
            ||| u == 0x2028
            ||| u == 0x2029
            ||| u == 0x202f
            ||| u == 0x205f
            ||| u == 0x3000
        },
        (c as u32) < 0x80 ==> (is_white_space(c) <==> (0x9 <= c as u32 <= 0xd || c == ' ')),
{
}

proof fn lemma_leading_word_plain(s: Seq<char>)
    ensures
        forall|i: int| 0 <= i < leading_word(s).len() ==> !is_white_space(#[trigger] leading_word(s)[i]),
        leading_word(s) == s.take(leading_word(s).len() as int),
    decreases s.len(),
{
    if s.len() > 0 && !is_white_space(s[0]) {
        let t = s.drop_first();
        lemma_leading_word_plain(t);
        lemma_leading_word_len(t);
        let w = leading_word(t);
        assert forall|i: int| 0 <= i < leading_word(s).len() implies !is_white_space(#[trigger] leading_word(s)[i]) by {
            if i > 0 {
                assert(leading_word(s)[i] == w[i - 1]);
            }
        }
        assert(seq![s[0]] + t.take(w.len() as int) =~= s.take(w.len() as int + 1));
    } else {
        assert(s.take(0) =~= Seq::<char>::empty());
    }
}

/// Every word is non-empty and holds no whitespace character.
pub proof fn law_words_are_plain(s: Seq<char>)
    ensures
        forall|j: int| 0 <= j < words(s).len() ==> (#[trigger] words(s)[j]).len() > 0,
        forall|j: int, i: int|
            0 <= j < words(s).len() && 0 <= i < words(s)[j].len() ==> !is_white_space(
                #[trigger] words(s)[j][i],
            ),
    decreases s.len(),
{
    let t = skip_white(s);
    lemma_skip_white_shape(s);
    if t.len() > 0 {
        let w = leading_word(t);
        lemma_leading_word_len(t);
        lemma_leading_word_plain(t);
        let rest = t.skip(w.len() as int);
        law_words_are_plain(rest);
        let ws = words(s);
        assert(ws == seq![w] + words(rest));
        assert forall|j: int| 0 <= j < ws.len() implies (#[trigger] ws[j]).len() > 0 by {
            if j > 0 {
                assert(ws[j] == words(rest)[j - 1]);
            }
        }
        assert forall|j: int, i: int| 0 <= j < ws.len() && 0 <= i < ws[j].len() implies !is_white_space(
            #[trigger] ws[j][i],
        ) by {
            if j > 0 {
                assert(ws[j] == words(rest)[j - 1]);
                assert(words(rest)[j - 1][i] == ws[j][i]);
            }
        }
    }
}

proof fn lemma_words_skip_white(s: Seq<char>)
    ensures
        words(s) == words(skip_white(s)),
{
    let t = skip_white(s);
    lemma_skip_white_shape(s);
    assert(skip_white(t) == t);
}

proof fn lemma_leading_word_stops(a: Seq<char>, c: char, b: Seq<char>)
    requires
        is_white_space(c),
    ensures
        leading_word(a + seq![c] + b) == leading_word(a),
    decreases a.len(),
{
    let s = a + seq![c] + b;
    if a.len() == 0 {
        assert(s[0] == c);
    } else if is_white_space(a[0]) {
        assert(s[0] == a[0]);
    } else {
        assert(s[0] == a[0]);
        lemma_leading_word_stops(a.drop_first(), c, b);
        assert(s.drop_first() =~= a.drop_first() + seq![c] + b);
    }
}

/// Splitting into words is determined by three facts, which this law states:
/// a whitespace character separates the words before it from those after it
/// (`words(a + [c] + b) == words(a) + words(b)`); a non-empty text without
/// whitespace is a single word; and a text of whitespace only has no words.
pub proof fn law_words_split_at_whitespace(a: Seq<char>, c: char, b: Seq<char>)
    requires
        is_white_space(c),
    ensures
        words(a + seq![c] + b) == words(a) + words(b),
        a.len() > 0 && (forall|i: int| 0 <= i < a.len() ==> !is_white_space(#[trigger] a[i]))
            ==> words(a) == seq![a],
        (forall|i: int| 0 <= i < a.len() ==> is_white_space(#[trigger] a[i])) ==> words(a)
            == Seq::<Seq<char>>::empty(),
    decreases a.len(),
{
    let s = a + seq![c] + b;
    if a.len() > 0 && (forall|i: int| 0 <= i < a.len() ==> !is_white_space(#[trigger] a[i])) {
        lemma_leading_word_take(a, a.len() as int);
        assert(a.take(a.len() as int) =~= a);
        assert(a.skip(a.len() as int) =~= Seq::<char>::empty());
        assert(!is_white_space(a[0]));
        assert(skip_white(a) == a);
        assert(skip_white(Seq::<char>::empty()) =~= Seq::<char>::empty());
        assert(words(Seq::<char>::empty()) =~= Seq::<Seq<char>>::empty());
        assert(words(a) == seq![a] + words(Seq::<char>::empty()));
        assert(words(a) =~= seq![a]);
    }
    if forall|i: int| 0 <= i < a.len() ==> is_white_space(#[trigger] a[i]) {
        lemma_skip_white_skip(a, a.len() as int);
        assert(a.skip(a.len() as int) =~= Seq::<char>::empty());
    }
    if a.len() == 0 {
        assert(s[0] == c);
        assert(s.drop_first() =~= b);
        lemma_words_skip_white(s);
        lemma_words_skip_white(b);
        assert(words(a) =~= Seq::<Seq<char>>::empty());
        assert(words(s) == words(b));
        assert(words(a) + words(b) =~= words(b));
    } else if is_white_space(a[0]) {
        let a2 = a.drop_first();
        law_words_split_at_whitespace(a2, c, b);
        assert(s[0] == a[0]);
        assert(s.drop_first() =~= a2 + seq![c] + b);
        lemma_words_skip_white(s);
        lemma_words_skip_white(s.drop_first());
        lemma_words_skip_white(a);
        lemma_words_skip_white(a2);
    } else {
        assert(s[0] == a[0]);
        assert(skip_white(s) == s);
        assert(skip_white(a) == a);
        lemma_leading_word_stops(a, c, b);
        lemma_leading_word_len(a);
        let w = leading_word(a);
        let wl = w.len() as int;
        let a2 = a.skip(wl);
        law_words_split_at_whitespace(a2, c, b);
        assert(s.skip(wl) =~= a2 + seq![c] + b);
        assert(words(s) == seq![w] + words(s.skip(wl)));
        assert(words(a) == seq![w] + words(a2));
        assert(words(s) =~= words(a) + words(b));
    }
}

/// The whitespace-separated words of `s`, in order: what
/// `s.split_whitespace().collect()` yields.
pub fn split_words(s: &str) -> (r: Vec<&str>)
    ensures
        r@.len() == words(s@).len(),
        forall|j: int| 0 <= j < r@.len() ==> (#[trigger] r@[j])@ == words(s@)[j],
        forall|j: int| 0 <= j < r@.len() ==> (#[trigger] r@[j])@.len() > 0,
        forall|j: int, i: int|
            0 <= j < r@.len() && 0 <= i < r@[j]@.len() ==> !is_white_space(#[trigger] r@[j]@[i]),
        forall|j: int, i: int|
            0 <= j < r@.len() && 0 <= i < r@[j]@.len() ==> #[trigger] r@[j]@[i] != '\r' && r@[j]@[i]
                != '\n' && r@[j]@[i] != '\t' && r@[j]@[i] != ' ',
{
    proof {
        law_words_are_plain(s@);
        assert forall|c: char| c == '\r' || c == '\n' || c == '\t' || c == ' ' implies #[trigger] is_white_space(c) by {
            law_white_space_code_points(c);
        }
    }
    let cs = chars_of(s);
    let n = cs.len();
    let mut r: Vec<&str> = Vec::new();
    let mut i: usize = 0;
    let ghost done: Seq<Seq<char>> = Seq::empty();
    proof {
        assert(cs@.skip(0) =~= cs@);
    }
    while i < n
        invariant
            n == cs@.len(),
            cs@ == s@,
            i <= n,
            r@.len() == done.len(),
            forall|j: int| 0 <= j < r@.len() ==> (#[trigger] r@[j])@ == done[j],
            words(s@) == done + words(cs@.skip(i as int)),
        decreases n - i,
    {
        let a = skip_white_from(&cs, i);
        if a == n {
            proof {
                assert(cs@.skip(a as int).len() == 0);
                assert(words(cs@.skip(i as int)) =~= Seq::<Seq<char>>::empty());
            }
            i = a;
        } else {
            let b = word_end_from(&cs, a);
            let w = s.substring_char(a, b);
            proof {
                let t = cs@.skip(a as int);
                assert(t[0] == cs@[a as int]);
                lemma_leading_word_len(t);
                assert(leading_word(t) == cs@.subrange(a as int, b as int));
                assert(t.skip((b - a) as int) =~= cs@.skip(b as int));
                assert(words(cs@.skip(i as int)) == seq![leading_word(t)] + words(cs@.skip(b as int)));
                assert(done + words(cs@.skip(i as int)) =~= done.push(leading_word(t)) + words(cs@.skip(b as int)));
                done = done.push(leading_word(t));
            }
            r.push(w);
            i = b;
        }
    }
    proof {
        assert(cs@.skip(n as int).len() == 0);
        assert(words(cs@.skip(n as int)) =~= Seq::<Seq<char>>::empty());
        assert(done + Seq::<Seq<char>>::empty() =~= done);
    }
    r
}

fn digit_char_of(d: u64) -> (c: char)
    requires
        d < 10,
    ensures
        c == digit_char(d as nat),
{
    if d == 0 { '0' }
    else if d == 1 { '1' }
    else if d == 2 { '2' }
    else if d == 3 { '3' }
    else if d == 4 { '4' }
    else if d == 5 { '5' }
    else if d == 6 { '6' }
    else if d == 7 { '7' }
    else if d == 8 { '8' }
    else { '9' }
}

/// Appends the decimal digits of `m` to `s`.
fn push_digits(s: &mut String, m: u64)
    ensures
        final(s)@ == old(s)@ + digits(m as nat),
    decreases m,
{
    if m >= 10 {
        push_digits(s, m / 10);
    }
    let c = digit_char_of(m % 10);
    push_char(s, c);
    proof {
        if m >= 10 {
            assert(digits(m as nat) == digits((m / 10) as nat).push(digit_char((m % 10) as nat)));
        }
    }
}

/// Appends the decimal rendering of `n` (as `Display` writes it) to `s`.
pub fn push_decimal(s: &mut String, n: i64)
    ensures
        final(s)@ == old(s)@ + decimal(n as int),
{
    if n < 0 {
        push_char(s, '-');
        let m: u64 = if n == i64::MIN { 9223372036854775808u64 } else { (-n) as u64 };
        push_digits(s, m);
        proof {
            assert(seq!['-'] + digits(m as nat) =~= decimal(n as int));
        }
    } else {
        push_digits(s, n as u64);
    }
}

/// The decimal rendering of `n`, as `n.to_string()` writes it.
pub fn decimal_string(n: i64) -> (r: String)
    ensures
        r@ == decimal(n as int),
{
    let mut s = String::new();
    push_decimal(&mut s, n);
    proof {
        assert(s@ =~= decimal(n as int));
    }
    s
}

} // verus!
