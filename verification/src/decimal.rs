//! Decimal text of integers and booleans, as `Display` and `FromStr`
//! of std write and read them.

use vstd::prelude::*;
use crate::text::{chars_of, push_char};

verus! {

/// An ASCII decimal digit.
pub open spec fn is_digit(c: char) -> bool {
    '0' <= c && c <= '9'
}

/// The number an ASCII decimal digit stands for.
pub open spec fn digit_value(c: char) -> int {
    (c as int) - ('0' as int)
}

/// Every character is an ASCII decimal digit.
pub open spec fn all_digits(s: Seq<char>) -> bool {
    forall|i: int| 0 <= i < s.len() ==> #[trigger] is_digit(s[i])
}

/// The number that a string of decimal digits stands for (leading zeros allowed).
pub open spec fn digits_value(s: Seq<char>) -> int
    decreases s.len(),
{
    if s.len() == 0 {
        0
    } else {
        digits_value(s.drop_last()) * 10 + digit_value(s.last())
    }
}

/// The digit character of a number in `0..10`.
pub open spec fn digit_char(d: int) -> char {
    ((d + ('0' as int)) as u8) as char
}

/// The shortest decimal text of a natural number.
pub open spec fn nat_text(n: nat) -> Seq<char>
    decreases n,
{
    if n < 10 {
        seq![digit_char(n as int)]
    } else {
        nat_text(n / 10).push(digit_char((n % 10) as int))
    }
}

/// The decimal text of an integer, as `Display` writes it: a `-` before
/// negative numbers, no sign before the others.
pub open spec fn int_text(i: int) -> Seq<char> {
    if i < 0 {
        seq!['-'] + nat_text((-i) as nat)
    } else {
        nat_text(i as nat)
    }
}

/// The integer a decimal text stands for, as `FromStr` of std's integers
/// reads it: one optional `+` or `-`, then at least one ASCII digit.
pub open spec fn int_of_text(s: Seq<char>) -> Option<int> {
    let neg = s.len() > 0 && s[0] == '-';
    let body = if s.len() > 0 && (s[0] == '-' || s[0] == '+') {
        s.drop_first()
    } else {
        s
    };
    if body.len() == 0 || !all_digits(body) {
        None
    } else if neg {
        Some(-digits_value(body))
    } else {
        Some(digits_value(body))
    }
}

/// What `i32::from_str` gives for a text: the number, if the text is a
/// decimal integer in the range of `i32`.
pub open spec fn i32_of_text(s: Seq<char>) -> Option<i32> {
    match int_of_text(s) {
        Some(v) => if i32::MIN <= v <= i32::MAX {
            Some(v as i32)
        } else {
            None
        },
        None => None,
    }
}

/// The text of a boolean, as `Display` writes it.
pub open spec fn bool_text(b: bool) -> Seq<char> {
    if b {
        seq!['t', 'r', 'u', 'e']
    } else {
        seq!['f', 'a', 'l', 's', 'e']
    }
}

/// What `bool::from_str` gives for a text: only `true` and `false` are read.
pub open spec fn bool_of_text(s: Seq<char>) -> Option<bool> {
    if s == bool_text(true) {
        Some(true)
    } else if s == bool_text(false) {
        Some(false)
    } else {
        None
    }
}

pub proof fn lemma_digits_value_nonneg(s: Seq<char>)
    requires
        all_digits(s),
    ensures
        digits_value(s) >= 0,
    decreases s.len(),
{
    if s.len() > 0 {
        assert(is_digit(s[s.len() - 1]));
        lemma_digits_value_nonneg(s.drop_last());
    }
}

/// A prefix of a digit string never stands for more than the whole string.
pub proof fn lemma_digits_value_prefix(s: Seq<char>, k: int)
    requires
        all_digits(s),
        0 <= k <= s.len(),
    ensures
        digits_value(s.take(k)) <= digits_value(s),
    decreases s.len(),
{
    if k < s.len() {
        assert(is_digit(s[s.len() - 1]));
        assert(s.drop_last().take(k) =~= s.take(k));
        lemma_digits_value_prefix(s.drop_last(), k);
        lemma_digits_value_nonneg(s.drop_last());
    } else {
        assert(s.take(k) =~= s);
    }
}

proof fn lemma_digit_char(d: int)
    requires
        0 <= d < 10,
    ensures
        is_digit(digit_char(d)),
        digit_value(digit_char(d)) == d,
{
    assert(((d + 48) as u8) as char as int == d + 48);
}

/// The text of a natural number is a non-empty digit string standing for it.
pub proof fn lemma_nat_text(n: nat)
    ensures
        nat_text(n).len() > 0,
        all_digits(nat_text(n)),
        digits_value(nat_text(n)) == n,
    decreases n,
{
    lemma_digit_char((n % 10) as int);
    if n < 10 {
        let t = nat_text(n);
        assert(t.drop_last() =~= Seq::<char>::empty());
        assert(digits_value(t.drop_last()) == 0);
        assert(n % 10 == n);
        assert(digits_value(t) == digit_value(t.last()));
    } else {
        lemma_nat_text(n / 10);
        let t = nat_text(n);
        assert(t.drop_last() =~= nat_text(n / 10));
        assert((n / 10) * 10 + n % 10 == n) by (nonlinear_arith);
        assert(t.last() == digit_char((n % 10) as int));
        assert(digits_value(t) == digits_value(t.drop_last()) * 10 + digit_value(t.last()));
        assert forall|i: int| 0 <= i < t.len() implies #[trigger] is_digit(t[i]) by {
            if i < t.len() - 1 {
                assert(t[i] == nat_text(n / 10)[i]);
            }
        }
    }
}

/// Reading back the text of an integer gives the integer.
pub proof fn lemma_int_text_round_trip(i: int)
    ensures
        int_of_text(int_text(i)) == Some(i),
{
    if i < 0 {
        let n = (-i) as nat;
        lemma_nat_text(n);
        let t = int_text(i);
        assert(t.drop_first() =~= nat_text(n));
    } else {
        lemma_nat_text(i as nat);
        let t = nat_text(i as nat);
        assert(is_digit(t[0]));
    }
}

/// Reading back the text of an `i32` gives the `i32`.
pub proof fn lemma_i32_text_round_trip(i: i32)
    ensures
        i32_of_text(int_text(i as int)) == Some(i),
{
    lemma_int_text_round_trip(i as int);
}

/// Reading back the text of a boolean gives the boolean.
pub proof fn lemma_bool_text_round_trip(b: bool)
    ensures
        bool_of_text(bool_text(b)) == Some(b),
{
    assert(bool_text(true) != bool_text(false)) by {
        assert(bool_text(true).len() != bool_text(false).len());
    }
}

fn digit_to_char(d: u64) -> (c: char)
    requires
        d < 10,
    ensures
        c == digit_char(d as int),
{
    ((d as u8) + 48u8) as char
}

/// Appends the decimal text of `n` to `s`.
pub fn push_u64_text(s: &mut String, n: u64)
    ensures
        final(s)@ == old(s)@ + nat_text(n as nat),
    decreases n,
{
    if n >= 10 {
        push_u64_text(s, n / 10);
    }
    let ghost before = s@;
    push_char(s, digit_to_char(n % 10));
    proof {
        if n >= 10 {
            assert(s@ =~= old(s)@ + nat_text(n as nat));
        } else {
            assert(s@ =~= old(s)@ + nat_text(n as nat));
        }
    }
}

/// The decimal text of an unsigned number, as `to_string` writes it.
pub fn u64_to_text(n: u64) -> (s: String)
    ensures
        s@ == nat_text(n as nat),
{
    let mut s = String::new();
    push_u64_text(&mut s, n);
    assert(s@ =~= nat_text(n as nat));
    s
}

/// Appends the decimal text of `i` to `s`.
pub fn push_i32_text(s: &mut String, i: i32)
    ensures
        final(s)@ == old(s)@ + int_text(i as int),
{
    if i < 0 {
        push_char(s, '-');
        let m: i64 = -(i as i64);
        push_u64_text(s, m as u64);
        assert(s@ =~= old(s)@ + int_text(i as int));
    } else {
        push_u64_text(s, i as u64);
    }
}

/// The decimal text of an `i32`, as `to_string` writes it.
pub fn i32_to_text(i: i32) -> (s: String)
    ensures
        s@ == int_text(i as int),
{
    let mut s = String::new();
    push_i32_text(&mut s, i);
    assert(s@ =~= int_text(i as int));
    s
}

/// Reads an `i32` as `i32::from_str` does.
pub fn i32_from_text(text: &str) -> (r: Option<i32>)
    ensures
        r == i32_of_text(text@),
{
    let cs = chars_of(text);
    let len = cs.len();
    let mut start: usize = 0;
    let mut neg = false;
    if len > 0 && (cs[0] == '-' || cs[0] == '+') {
        start = 1;
        neg = cs[0] == '-';
    }
    let ghost body = if len > 0 && (cs@[0] == '-' || cs@[0] == '+') {
        cs@.drop_first()
    } else {
        cs@
    };
    assert(body =~= cs@.subrange(start as int, len as int));
    if start == len {
        return None;
    }
    let mut acc: i64 = 0;
    let mut k: usize = start;
    while k < len
        invariant
            start <= k <= len,
            len == cs@.len(),
            cs@ == text@,
            neg == (cs@.len() > 0 && cs@[0] == '-'),
            body == (if cs@.len() > 0 && (cs@[0] == '-' || cs@[0] == '+') {
                cs@.drop_first()
            } else {
                cs@
            }),
            body =~= cs@.subrange(start as int, len as int),
            all_digits(body.take(k - start)),
            acc == digits_value(body.take(k - start)),
            0 <= acc <= 2147483648,
        decreases len - k,
    {
        let c = cs[k];
        if !('0' <= c && c <= '9') {
            assert(!is_digit(body[k - start]));
            assert(!all_digits(body));
            return None;
        }
        let d: i64 = ((c as u32) - 48u32) as i64;
        let ghost prev = body.take(k - start);
        let next = acc * 10 + d;
        proof {
            let nt = body.take(k - start + 1);
            assert(nt.drop_last() =~= prev);
            assert(nt.last() == c);
            assert forall|i: int| 0 <= i < nt.len() implies #[trigger] is_digit(nt[i]) by {
                if i < nt.len() - 1 {
                    assert(nt[i] == prev[i]);
                }
            }
        }
        if next > 2147483648 {
            proof {
                if all_digits(body) {
                    lemma_digits_value_prefix(body, (k - start + 1) as int);
                }
            }
            return None;
        }
        acc = next;
        k = k + 1;
    }
    assert(body.take(k - start) =~= body);
    if neg {
        Some((-acc) as i32)
    } else if acc > 2147483647 {
        None
    } else {
        Some(acc as i32)
    }
}

/// The text of a boolean, as `to_string` writes it.
pub fn bool_to_text(b: bool) -> (s: String)
    ensures
        s@ == bool_text(b),
{
    let mut s = String::new();
    if b {
        push_char(&mut s, 't');
        push_char(&mut s, 'r');
        push_char(&mut s, 'u');
        push_char(&mut s, 'e');
    } else {
        push_char(&mut s, 'f');
        push_char(&mut s, 'a');
        push_char(&mut s, 'l');
        push_char(&mut s, 's');
        push_char(&mut s, 'e');
    }
    assert(s@ =~= bool_text(b));
    s
}

/// Reads a boolean as `bool::from_str` does.
pub fn bool_from_text(text: &str) -> (r: Option<bool>)
    ensures
        r == bool_of_text(text@),
{
    let cs = chars_of(text);
    if cs.len() == 4 && cs[0] == 't' && cs[1] == 'r' && cs[2] == 'u' && cs[3] == 'e' {
        assert(cs@ =~= bool_text(true));
        Some(true)
    } else if cs.len() == 5 && cs[0] == 'f' && cs[1] == 'a' && cs[2] == 'l' && cs[3] == 's'
        && cs[4] == 'e' {
        assert(cs@ =~= bool_text(false));
        Some(false)
    } else {
        proof {
            if cs@ == bool_text(true) {
                assert(cs@[0] == 't' && cs@[3] == 'e');
            }
            if cs@ == bool_text(false) {
                assert(cs@[0] == 'f' && cs@[4] == 'e');
            }
        }
        None
    }
}

} // verus!
