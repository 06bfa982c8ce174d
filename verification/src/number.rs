//! Numbers as a config file spells them.
//!
//! A number keeps its spelling. What it stands for as a machine number is what
//! `str::parse` makes of that spelling, which succeeds on every `Number`.

use vstd::prelude::*;
use vstd::slice::slice_subrange;

use crate::text::{spells, to_chars};

verus! {

/// Whether `c` is a decimal digit.
pub open spec fn is_digit(c: char) -> bool {
    '0' <= c <= '9'
}

/// How many digits `s` starts with.
pub open spec fn digits(s: Seq<char>) -> nat
    decreases s.len(),
{
    if s.len() > 0 && is_digit(s[0]) {
        1 + digits(s.drop_first())
    } else {
        0
    }
}

/// `s` without one leading sign.
pub open spec fn unsigned(s: Seq<char>) -> Seq<char> {
    if s.len() > 0 && (s[0] == '+' || s[0] == '-') {
        s.skip(1)
    } else {
        s
    }
}

/// `c`, in lower case where it is an ASCII letter.
pub open spec fn ascii_lower(c: char) -> char {
    if 'A' <= c <= 'Z' {
        (c as u32 + 32) as char
    } else {
        c
    }
}

/// `s` with its ASCII letters in lower case.
pub open spec fn ascii_lowered(s: Seq<char>) -> Seq<char> {
    s.map_values(|c: char| ascii_lower(c))
}

/// Whether `s` is one of the words that stand for a value without digits.
pub open spec fn is_number_word(s: Seq<char>) -> bool {
    let w = ascii_lowered(s);
    w == "inf"@ || w == "infinity"@ || w == "nan"@
}

/// Whether `s` is empty or an exponent: `e`, an optional sign, and digits.
pub open spec fn is_exponent(s: Seq<char>) -> bool {
    s.len() == 0 || (ascii_lower(s[0]) == 'e' && {
        let power = unsigned(s.skip(1));
        power.len() > 0 && digits(power) == power.len()
    })
}

/// What follows the whole part of `s` and the point behind it, if there is one.
pub open spec fn fraction(s: Seq<char>) -> Seq<char> {
    let whole = s.skip(digits(s) as int);
    if whole.len() > 0 && whole[0] == '.' {
        whole.skip(1)
    } else {
        whole
    }
}

/// Whether `s` is digits with at most one point among, before or behind them,
/// and an optional exponent.
pub open spec fn is_plain_number(s: Seq<char>) -> bool {
    let whole = s.skip(digits(s) as int);
    let rest = fraction(s);
    if whole.len() > 0 && whole[0] == '.' {
        digits(s) + digits(rest) > 0 && is_exponent(rest.skip(digits(rest) as int))
    } else {
        digits(s) > 0 && is_exponent(whole)
    }
}

/// Whether `s` spells a number: an optional sign, then digits with an optional
/// point and exponent, or one of the words `inf`, `infinity` and `nan`.
pub open spec fn is_number(s: Seq<char>) -> bool {
    is_number_word(unsigned(s)) || is_plain_number(unsigned(s))
}

fn count_digits(s: &[char]) -> (r: usize)
    ensures
        r == digits(s@),
        r <= s@.len(),
{
    let mut i: usize = 0;
    assert(s@.skip(0) == s@);
    while i < s.len() && '0' <= s[i] && s[i] <= '9'
        invariant
            i <= s@.len(),
            digits(s@) == i + digits(s@.skip(i as int)),
        decreases s@.len() - i,
    {
        assert(s@.skip(i as int).drop_first() == s@.skip(i + 1));
        i += 1;
    }
    i
}

fn without_sign(s: &[char]) -> (r: &[char])
    ensures
        r@ == unsigned(s@),
{
    if s.len() > 0 && (s[0] == '+' || s[0] == '-') {
        slice_subrange(s, 1, s.len())
    } else {
        s
    }
}

/// Puts the ASCII letters in lower case.
pub fn lower(s: &[char]) -> (r: Vec<char>)
    ensures
        r@ == ascii_lowered(s@),
{
    let mut out: Vec<char> = Vec::new();
    let mut i: usize = 0;
    while i < s.len()
        invariant
            i <= s@.len(),
            out@ == ascii_lowered(s@).take(i as int),
        decreases s@.len() - i,
    {
        let c = s[i];
        if 'A' <= c && c <= 'Z' {
            out.push((c as u8 + 32) as char);
        } else {
            out.push(c);
        }
        i += 1;
        assert(out@ == ascii_lowered(s@).take(i as int));
    }
    assert(ascii_lowered(s@).take(i as int) == ascii_lowered(s@));
    out
}

fn exponent(s: &[char]) -> (r: bool)
    ensures
        r == is_exponent(s@),
{
    if s.len() == 0 {
        return true;
    }
    if s[0] != 'e' && s[0] != 'E' {
        return false;
    }
    let power = without_sign(slice_subrange(s, 1, s.len()));
    power.len() > 0 && count_digits(power) == power.len()
}

fn plain_number(s: &[char]) -> (r: bool)
    ensures
        r == is_plain_number(s@),
{
    let n = count_digits(s);
    let whole = slice_subrange(s, n, s.len());
    if whole.len() > 0 && whole[0] == '.' {
        let rest = slice_subrange(whole, 1, whole.len());
        let m = count_digits(rest);
        (n > 0 || m > 0) && exponent(slice_subrange(rest, m, rest.len()))
    } else {
        n > 0 && exponent(whole)
    }
}

/// Whether `s` spells a number.
pub fn number(s: &[char]) -> (r: bool)
    ensures
        r == is_number(s@),
{
    let body = without_sign(s);
    let word = lower(body);
    spells(word.as_slice(), "inf") || spells(word.as_slice(), "infinity") || spells(
        word.as_slice(),
        "nan",
    ) || plain_number(body)
}

/// A number by its spelling.
#[derive(Debug)]
pub struct Number {
    text: String,
}

impl View for Number {
    type V = Seq<char>;

    closed spec fn view(&self) -> Seq<char> {
        self.text@
    }
}

impl Number {
    #[verifier::type_invariant]
    spec fn wf(self) -> bool {
        is_number(self.text@)
    }

    /// The number that `text` spells, if it spells one.
    pub fn new(text: &str) -> (r: Option<Number>)
        ensures
            r is Some <==> is_number(text@),
            r matches Some(n) ==> n@ == text@,
    {
        let chars = to_chars(text);
        if number(chars.as_slice()) {
            Some(Number { text: text.to_owned() })
        } else {
            None
        }
    }

    /// The spelling, which is that of a number.
    pub fn as_str(&self) -> (r: &str)
        ensures
            r@ == self@,
            is_number(r@),
    {
        proof {
            use_type_invariant(self);
        }
        self.text.as_str()
    }
}

impl Clone for Number {
    fn clone(&self) -> (r: Number)
        ensures
            r@ == self@,
    {
        proof {
            use_type_invariant(self);
        }
        Number { text: self.text.clone() }
    }
}

/// Whether `s` is a sign or nothing.
pub open spec fn is_sign(s: Seq<char>) -> bool {
    s.len() == 0 || (s.len() == 1 && (s[0] == '+' || s[0] == '-'))
}

/// Whether `s` is nothing but digits.
pub open spec fn all_digits(s: Seq<char>) -> bool {
    forall|i: int| 0 <= i < s.len() ==> '0' <= #[trigger] s[i] <= '9'
}

/// Whether `s` is nothing, or an `e` in either case with a sign and digits behind it.
pub open spec fn is_power(s: Seq<char>) -> bool {
    s.len() == 0 || ((s[0] == 'e' || s[0] == 'E') && exists|sign: Seq<char>, n: Seq<char>|
        is_sign(sign) && n.len() > 0 && all_digits(n) && s == seq![s[0]] + #[trigger] (sign + n))
}

/// Whether `s` is a sign, digits, a point with digits, and a power, each of which may be
/// missing, but not all of the digits.
pub open spec fn has_number_parts(
    s: Seq<char>,
    sign: Seq<char>,
    whole: Seq<char>,
    point: Seq<char>,
    part: Seq<char>,
    power: Seq<char>,
) -> bool {
    &&& s == sign + (whole + (point + (part + power)))
    &&& is_sign(sign)
    &&& all_digits(whole)
    &&& all_digits(part)
    &&& whole.len() + part.len() > 0
    &&& point.len() == 0 || point == seq!['.']
    &&& point.len() == 0 ==> part.len() == 0
    &&& is_power(power)
}

proof fn lemma_digits(s: Seq<char>)
    ensures
        digits(s) <= s.len(),
        all_digits(s.take(digits(s) as int)),
        digits(s) < s.len() ==> !is_digit(s[digits(s) as int]),
    decreases s.len(),
{
    if s.len() > 0 && is_digit(s[0]) {
        let rest = s.drop_first();
        lemma_digits(rest);
        assert forall|i: int| 0 <= i < digits(s) implies '0' <= #[trigger] s.take(
            digits(s) as int,
        )[i] <= '9' by {
            if i > 0 {
                assert(s[i] == rest.take(digits(rest) as int)[i - 1]);
            }
        }
    }
}

proof fn lemma_digits_in_front(a: Seq<char>, t: Seq<char>)
    requires
        all_digits(a),
        t.len() > 0 ==> !is_digit(t[0]),
    ensures
        digits(a + t) == a.len(),
    decreases a.len(),
{
    if a.len() == 0 {
        assert(a + t =~= t);
    } else {
        let rest = a.drop_first();
        assert forall|i: int| 0 <= i < rest.len() implies '0' <= #[trigger] rest[i] <= '9' by {
            assert(rest[i] == a[i + 1]);
        }
        lemma_digits_in_front(rest, t);
        assert((a + t).drop_first() =~= rest + t);
        assert((a + t)[0] == a[0]);
    }
}

proof fn lemma_power(s: Seq<char>)
    ensures
        is_power(s) <==> is_exponent(s),
{
    if s.len() > 0 {
        let tail = s.skip(1);
        if is_power(s) {
            let (sign, n) = choose|sign: Seq<char>, n: Seq<char>|
                is_sign(sign) && n.len() > 0 && all_digits(n) && s == seq![s[0]] + #[trigger] (sign
                    + n);
            assert(tail =~= sign + n);
            assert(n[0] >= '0');
            assert(unsigned(tail) =~= n);
            lemma_digits_in_front(n, Seq::empty());
            assert(n + Seq::<char>::empty() =~= n);
        }
        if is_exponent(s) {
            let n = unsigned(tail);
            let sign = tail.take(tail.len() - n.len());
            lemma_digits(n);
            assert(n.take(n.len() as int) =~= n);
            assert(s =~= seq![s[0]] + (sign + n));
        }
    }
}

/// What a number is made of: whatever has these parts is one.
pub proof fn law_parts_make_a_number(
    s: Seq<char>,
    sign: Seq<char>,
    whole: Seq<char>,
    point: Seq<char>,
    part: Seq<char>,
    power: Seq<char>,
)
    requires
        has_number_parts(s, sign, whole, point, part, power),
    ensures
        is_number(s),
{
    let tail = part + power;
    let behind = point + tail;
    let u = whole + behind;
    lemma_power(power);
    assert(u.len() > 0 && u[0] != '+' && u[0] != '-') by {
        if whole.len() > 0 {
            assert(u[0] == whole[0]);
        } else {
            assert(u[0] == '.');
        }
    }
    assert(unsigned(s) =~= u) by {
        if sign.len() == 0 {
            assert(s =~= u);
        } else {
            assert(s[0] == sign[0]);
            assert(s.skip(1) =~= u);
        }
    }
    if point.len() == 0 {
        assert(behind =~= power);
    } else {
        assert(behind[0] == '.');
    }
    lemma_digits_in_front(whole, behind);
    assert(u.skip(whole.len() as int) =~= behind);
    if point.len() > 0 {
        assert(behind.skip(1) =~= tail);
        lemma_digits_in_front(part, power);
        assert(tail.skip(part.len() as int) =~= power);
    }
}

/// Nothing else is a number, but for the words for infinity and for no number, with or
/// without a sign.
pub proof fn law_number_has_parts(s: Seq<char>)
    requires
        is_number(s),
    ensures
        ({
            let w = ascii_lowered(unsigned(s));
            ||| w == "inf"@ || w == "infinity"@ || w == "nan"@
            ||| exists|
                sign: Seq<char>,
                whole: Seq<char>,
                point: Seq<char>,
                part: Seq<char>,
                power: Seq<char>,
            | #[trigger]
                has_number_parts(s, sign, whole, point, part, power)
        }),
{
    if !is_number_word(unsigned(s)) {
        let u = unsigned(s);
        let sign = s.take(s.len() - u.len());
        let n = digits(u) as int;
        lemma_digits(u);
        let whole = u.take(n);
        let behind = u.skip(n);
        if behind.len() > 0 && behind[0] == '.' {
            let rest = behind.skip(1);
            let k = digits(rest) as int;
            lemma_digits(rest);
            let part = rest.take(k);
            let power = rest.skip(k);
            lemma_power(power);
            assert(s =~= sign + (whole + (seq!['.'] + (part + power))));
            assert(has_number_parts(s, sign, whole, seq!['.'], part, power));
        } else {
            let none = Seq::<char>::empty();
            lemma_power(behind);
            assert(s =~= sign + (whole + (none + (none + behind))));
            assert(has_number_parts(s, sign, whole, none, none, behind));
        }
    }
}

/// A letter from A to Z in lower case is the one that stands 32 behind it, and any other
/// character is its own.
pub proof fn law_ascii_lower(c: char)
    ensures
        'A' <= c <= 'Z' ==> ascii_lower(c) as int == c as int + 32,
        c < 'A' || 'Z' < c ==> ascii_lower(c) == c,
        ascii_lower('A') == 'a',
        ascii_lower('Z') == 'z',
{
}

} // verus!
