//! Upper and lower case, as Unicode has them.

use vstd::prelude::*;

use crate::number::{ascii_lower, ascii_lowered};

verus! {

/// What `str::to_lowercase` makes of a text.
pub uninterp spec fn lowercase(s: Seq<char>) -> Seq<char>;

/// What `char::to_lowercase` makes of a character.
pub uninterp spec fn lower_of(c: char) -> Seq<char>;

/// What `char::to_uppercase` makes of a character.
pub uninterp spec fn upper_of(c: char) -> Seq<char>;

/// Whether every character of `s` is an ASCII character.
pub open spec fn is_ascii_text(s: Seq<char>) -> bool {
    forall|i: int| 0 <= i < s.len() ==> #[trigger] s[i] <= '\u{7f}'
}

/// `c`, in upper case where it is an ASCII letter.
pub open spec fn ascii_upper(c: char) -> char {
    if 'a' <= c <= 'z' {
        (c as u32 - 32) as char
    } else {
        c
    }
}

/// `s` in lower case.
pub open spec fn lower_text(s: Seq<char>) -> Seq<char> {
    if is_ascii_text(s) {
        ascii_lowered(s)
    } else {
        lowercase(s)
    }
}

/// Calls `str::to_lowercase`: the lower-case equivalent of the whole text, which
/// Unicode defines. A text of ASCII characters has its letters A to Z replaced
/// by a to z and nothing else changed.
#[verifier::external_body]
pub(crate) fn to_lowercase(s: &str) -> (r: String)
    ensures
        r@ == lowercase(s@),
        is_ascii_text(s@) ==> r@ == ascii_lowered(s@),
{
    s.to_lowercase()
}

/// Calls `char::to_lowercase`: the lower-case mapping of one character, which may
/// be several characters. An ASCII character maps to one ASCII character.
#[verifier::external_body]
pub(crate) fn char_to_lowercase(c: char) -> (r: Vec<char>)
    ensures
        r@ == lower_of(c),
        c <= '\u{7f}' ==> r@ == seq![ascii_lower(c)],
{
    c.to_lowercase().collect()
}

/// Calls `char::to_uppercase`: the upper-case mapping of one character, which may
/// be several characters. An ASCII character maps to one ASCII character.
#[verifier::external_body]
pub(crate) fn char_to_uppercase(c: char) -> (r: Vec<char>)
    ensures
        r@ == upper_of(c),
        c <= '\u{7f}' ==> r@ == seq![ascii_upper(c)],
{
    c.to_uppercase().collect()
}

/// `c` in upper case.
pub open spec fn upper_char(c: char) -> Seq<char> {
    if c <= '\u{7f}' {
        seq![ascii_upper(c)]
    } else {
        upper_of(c)
    }
}

/// `c` in lower case.
pub open spec fn lower_char(c: char) -> Seq<char> {
    if c <= '\u{7f}' {
        seq![ascii_lower(c)]
    } else {
        lower_of(c)
    }
}

/// `s` with its first character in upper case and the others in lower case.
pub open spec fn titled(s: Seq<char>) -> Seq<char> {
    if s.len() == 0 {
        s
    } else {
        upper_char(s[0]) + lowered(s.skip(1))
    }
}

/// Every character of `s` in lower case, one by one.
pub open spec fn lowered(s: Seq<char>) -> Seq<char>
    decreases s.len(),
{
    if s.len() == 0 {
        s
    } else {
        lowered(s.drop_last()) + lower_char(s.last())
    }
}

/// Puts the first character in upper case and the others in lower case.
pub fn to_title(s: &[char]) -> (r: Vec<char>)
    ensures
        r@ == titled(s@),
{
    if s.len() == 0 {
        return Vec::new();
    }
    let mut out = char_to_uppercase(s[0]);
    let mut i: usize = 1;
    while i < s.len()
        invariant
            1 <= i <= s@.len(),
            out@ == upper_char(s@[0]) + lowered(s@.skip(1).take(i - 1)),
        decreases s@.len() - i,
    {
        let ghost upto = s@.skip(1).take(i as int);
        assert(upto.drop_last() == s@.skip(1).take(i - 1));
        assert(upto.last() == s@[i as int]);
        let mut low = char_to_lowercase(s[i]);
        let ghost before = out@;
        out.append(&mut low);
        assert(out@ == upper_char(s@[0]) + lowered(upto));
        i += 1;
    }
    assert(s@.skip(1).take(i - 1) == s@.skip(1));
    out
}

/// An ASCII text has its letters A to Z replaced, one by one.
pub proof fn lemma_lowered_ascii(s: Seq<char>)
    requires
        is_ascii_text(s),
    ensures
        lowered(s) == ascii_lowered(s),
    decreases s.len(),
{
    if s.len() > 0 {
        lemma_lowered_ascii(s.drop_last());
        assert(s[s.len() - 1] <= '\u{7f}');
        assert(ascii_lowered(s) =~= ascii_lowered(s.drop_last()).push(ascii_lower(s.last())));
    }
    assert(lowered(s) =~= ascii_lowered(s));
}

/// Title case and lower case of an ASCII text differ in the first letter alone.
pub proof fn lemma_titled_ascii(low: Seq<char>)
    requires
        is_ascii_text(low),
        ascii_lowered(low) == low,
        low.len() > 0,
    ensures
        titled(low) == seq![ascii_upper(low[0])] + low.skip(1),
        ascii_lowered(titled(low)) == low,
{
    let rest = low.skip(1);
    assert(low[0] <= '\u{7f}');
    assert forall|i: int| 0 <= i < rest.len() implies #[trigger] rest[i] <= '\u{7f}' by {
        assert(rest[i] == low[i + 1]);
    }
    lemma_lowered_ascii(rest);
    assert(ascii_lowered(rest) =~= ascii_lowered(low).skip(1));
    assert(ascii_lowered(low)[0] == ascii_lower(low[0]));
    assert(ascii_lowered(titled(low)) =~= low) by {
        assert forall|i: int| 0 <= i < low.len() implies ascii_lowered(titled(low))[i] == low[i] by {
            assert(ascii_lowered(low)[i] == ascii_lower(low[i]));
        }
    }
}

} // verus!
