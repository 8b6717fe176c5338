//! Small string utilities with exact contracts over `Seq<char>`.
use vstd::prelude::*;

verus! {

/// `String::push` from std: appends one character to the end of the string.
/// The contract claims exactly that the string's characters gain `c` at the end.
#[verifier::external_body]
pub(crate) fn push_char(s: &mut String, c: char)
    ensures
        final(s)@ == old(s)@.push(c),
{
    s.push(c);
}

/// The text that `{:?}` prints for a string: std's `Debug` for `str`, which quotes the
/// text and escapes characters as `char::escape_debug` does.
pub uninterp spec fn str_debug(s: Seq<char>) -> Seq<char>;

/// `<str as Debug>::fmt` from std, reached through `format!("{:?}", s)`. The contract
/// claims only that the result is a function of the string's characters, named
/// `str_debug`; the escaping rules themselves are not stated.
#[verifier::external_body]
pub(crate) fn debug_str(s: &str) -> (r: String)
    ensures
        r@ == str_debug(s@),
{
    format!("{:?}", s)
}

/// Whether std's `char::is_uppercase` holds of `c`: the Unicode `Uppercase` property.
pub uninterp spec fn is_upper(c: char) -> bool;

/// `char::is_uppercase` from std. The contract claims only that the answer is a
/// function of the character, named `is_upper`; the Unicode tables are not stated.
#[verifier::external_body]
pub(crate) fn char_is_uppercase(c: char) -> (r: bool)
    ensures
        r == is_upper(c),
{
    c.is_uppercase()
}

/// The decimal digit character for `d` (`0 <= d < 10`).
pub open spec fn digit_char(d: int) -> char {
    (48 + d) as char
}

/// Decimal rendering of a natural number, most significant digit first.
pub open spec fn nat_to_dec(n: nat) -> Seq<char>
    decreases n,
{
    if n < 10 {
        seq![digit_char(n as int)]
    } else {
        nat_to_dec(n / 10).push(digit_char((n % 10) as int))
    }
}

/// Decimal rendering of an integer, with a leading `-` when negative.
pub open spec fn int_to_dec(i: int) -> Seq<char> {
    if i < 0 {
        seq!['-'] + nat_to_dec((-i) as nat)
    } else {
        nat_to_dec(i as nat)
    }
}

fn digit(d: u64) -> (c: char)
    requires
        d < 10,
    ensures
        c == digit_char(d as int),
{
    let b: u8 = d as u8;
    (48u8 + b) as char
}

fn push_dec(s: &mut String, n: u64)
    ensures
        final(s)@ == old(s)@ + nat_to_dec(n as nat),
    decreases n,
{
    if n < 10 {
        push_char(s, digit(n));
    } else {
        push_dec(s, n / 10);
        push_char(s, digit(n % 10));
        proof {
            assert(final(s)@ =~= old(s)@ + nat_to_dec(n as nat));
        }
    }
}

/// Decimal text of an unsigned integer, as `format!("{n}")` gives it.
pub fn u64_to_string(n: u64) -> (r: String)
    ensures
        r@ == nat_to_dec(n as nat),
{
    let mut s = String::new();
    push_dec(&mut s, n);
    proof {
        assert(s@ =~= nat_to_dec(n as nat));
    }
    s
}

/// Decimal text of a signed integer, as `format!("{n}")` gives it.
pub fn i64_to_string(n: i64) -> (r: String)
    ensures
        r@ == int_to_dec(n as int),
{
    let mut s = String::new();
    if n < 0 {
        push_char(&mut s, '-');
        let m: u64 = if n == i64::MIN {
            9223372036854775808u64
        } else {
            (-n) as u64
        };
        push_dec(&mut s, m);
        proof {
            assert(s@ =~= seq!['-'] + nat_to_dec((-(n as int)) as nat));
        }
    } else {
        push_dec(&mut s, n as u64);
        proof {
            assert(s@ =~= nat_to_dec(n as nat));
        }
    }
    s
}

/// A fresh `String` holding the characters of `a` followed by those of `b`.
pub fn cat(a: &str, b: &str) -> (r: String)
    ensures
        r@ == a@ + b@,
{
    let mut s = String::from_str(a);
    s.append(b);
    s
}

/// A fresh `String` holding the characters of `a`, `b` and `c` in order.
pub fn cat3(a: &str, b: &str, c: &str) -> (r: String)
    ensures
        r@ == a@ + b@ + c@,
{
    let mut s = String::from_str(a);
    s.append(b);
    s.append(c);
    s
}

/// A fresh `String` holding five pieces in order.
pub fn cat5(a: &str, b: &str, c: &str, d: &str, e: &str) -> (r: String)
    ensures
        r@ == a@ + b@ + c@ + d@ + e@,
{
    let mut s = String::from_str(a);
    s.append(b);
    s.append(c);
    s.append(d);
    s.append(e);
    s
}

/// A fresh `String` holding seven pieces in order.
pub fn cat7(a: &str, b: &str, c: &str, d: &str, e: &str, f: &str, g: &str) -> (r: String)
    ensures
        r@ == a@ + b@ + c@ + d@ + e@ + f@ + g@,
{
    let mut s = String::from_str(a);
    s.append(b);
    s.append(c);
    s.append(d);
    s.append(e);
    s.append(f);
    s.append(g);
    s
}

/// A copy of `a`.
pub fn to_owned(a: &str) -> (r: String)
    ensures
        r@ == a@,
{
    String::from_str(a)
}

/// Whether two strings hold the same characters.
pub fn str_eq(a: &str, b: &str) -> (r: bool)
    ensures
        r == (a@ == b@),
{
    let n = a.unicode_len();
    let m = b.unicode_len();
    if n != m {
        return false;
    }
    let mut i: usize = 0;
    while i < n
        invariant
            n == a@.len(),
            m == b@.len(),
            n == m,
            i <= n,
            forall|j: int| 0 <= j < i ==> a@[j] == b@[j],
        decreases n - i,
    {
        if a.get_char(i) != b.get_char(i) {
            return false;
        }
        i += 1;
    }
    assert(a@ =~= b@);
    true
}

/// Whether `prefix` is a prefix of `a`.
pub fn starts_with(a: &str, prefix: &str) -> (r: bool)
    ensures
        r == prefix@.is_prefix_of(a@),
{
    let n = a.unicode_len();
    let m = prefix.unicode_len();
    if m > n {
        return false;
    }
    let mut i: usize = 0;
    while i < m
        invariant
            n == a@.len(),
            m == prefix@.len(),
            m <= n,
            i <= m,
            forall|j: int| 0 <= j < i ==> prefix@[j] == a@[j],
        decreases m - i,
    {
        if a.get_char(i) != prefix.get_char(i) {
            return false;
        }
        i += 1;
    }
    true
}

/// The characters `'0'..='9'`.
pub open spec fn is_dec_digit(c: char) -> bool {
    '0' <= c <= '9'
}

/// Whether every character of `s` is an ASCII decimal digit (true for the empty string).
pub open spec fn all_dec_digits(s: Seq<char>) -> bool {
    forall|i: int| 0 <= i < s.len() ==> is_dec_digit(#[trigger] s[i])
}

/// The number a sequence of decimal digits denotes.
pub open spec fn dec_value(s: Seq<char>) -> nat
    decreases s.len(),
{
    if s.len() == 0 {
        0
    } else {
        dec_value(s.drop_last()) * 10 + ((s.last() as int - 48) as nat)
    }
}

/// Whether every character of `s` is an ASCII decimal digit.
pub fn is_all_digits(s: &str) -> (r: bool)
    ensures
        r == all_dec_digits(s@),
{
    let n = s.unicode_len();
    let mut i: usize = 0;
    while i < n
        invariant
            n == s@.len(),
            i <= n,
            forall|j: int| 0 <= j < i ==> is_dec_digit(#[trigger] s@[j]),
        decreases n - i,
    {
        let c = s.get_char(i);
        if !('0' <= c && c <= '9') {
            return false;
        }
        i += 1;
    }
    true
}

/// `s.parse::<usize>().unwrap_or(usize::MAX)` for a string of decimal digits: the
/// value when it is non-empty and fits, `usize::MAX` otherwise.
pub open spec fn spec_parse_usize_or_max(s: Seq<char>) -> nat {
    if s.len() == 0 || dec_value(s) > usize::MAX {
        usize::MAX as nat
    } else {
        dec_value(s)
    }
}

proof fn lemma_dec_value_mono(s: Seq<char>, i: int)
    requires
        0 <= i <= s.len(),
        all_dec_digits(s),
    ensures
        dec_value(s.take(i)) <= dec_value(s),
    decreases s.len() - i,
{
    if i < s.len() {
        lemma_dec_value_mono(s, i + 1);
        assert(s.take(i + 1).drop_last() =~= s.take(i));
        assert(is_dec_digit(s[i]));
    } else {
        assert(s.take(i) =~= s);
    }
}

/// Parses a string of decimal digits as `usize`, giving `usize::MAX` when it is empty or
/// too large (the caller has checked that every character is a digit).
pub fn parse_usize_or_max(s: &str) -> (r: usize)
    requires
        all_dec_digits(s@),
    ensures
        r as nat == spec_parse_usize_or_max(s@),
{
    let n = s.unicode_len();
    if n == 0 {
        return usize::MAX;
    }
    let mut acc: usize = 0;
    let mut i: usize = 0;
    while i < n
        invariant
            n == s@.len(),
            i <= n,
            all_dec_digits(s@),
            acc as nat == dec_value(s@.take(i as int)),
        decreases n - i,
    {
        let c = s.get_char(i);
        assert(is_dec_digit(s@[i as int]));
        let d: usize = ((c as u32) - 48) as usize;
        assert(s@.take(i + 1).drop_last() =~= s@.take(i as int));
        if acc > (usize::MAX - d) / 10 {
            proof {
                assert(dec_value(s@.take(i + 1)) == acc * 10 + d);
                assert(acc * 10 + d > usize::MAX) by (nonlinear_arith)
                    requires
                        acc > (usize::MAX - d) / 10,
                        d <= 9,
                ;
                lemma_dec_value_mono(s@, i + 1);
            }
            return usize::MAX;
        }
        assert(acc * 10 + d <= usize::MAX) by (nonlinear_arith)
            requires
                acc <= (usize::MAX - d) / 10,
                d <= 9,
        ;
        acc = acc * 10 + d;
        i += 1;
    }
    assert(s@.take(n as int) =~= s@);
    acc
}

} // verus!
