//! The texts that the window shows, and paths as a shell reads them.

use vstd::prelude::*;

use crate::text::{
    decimal, decimal_text, digits_value, law_decimal_reads_back, to_chars, to_text,
};

verus! {

/// The part of `shell` after its last slash, or all of it where that part is empty.
pub open spec fn basename(shell: Seq<char>) -> Seq<char> {
    let last = after_last_slash(shell);
    if last.len() == 0 {
        shell
    } else {
        last
    }
}

/// What follows the last slash of `s`: all of `s` where there is none.
pub open spec fn after_last_slash(s: Seq<char>) -> Seq<char>
    decreases s.len(),
{
    if s.len() == 0 || s.last() == '/' {
        Seq::empty()
    } else {
        after_last_slash(s.drop_last()).push(s.last())
    }
}

/// The name of a shell, for a title: the last part of its path.
pub fn shell_basename(shell: &str) -> (r: String)
    ensures
        r@ == basename(shell@),
{
    let chars = to_chars(shell);
    let mut from: usize = chars.len();
    assert(chars@.take(from as int) == chars@);
    assert(after_last_slash(chars@) == after_last_slash(chars@) + chars@.skip(from as int));
    while from > 0 && chars[from - 1] != '/'
        invariant
            from <= chars@.len(),
            after_last_slash(chars@) == after_last_slash(chars@.take(from as int)) + chars@.skip(
                from as int,
            ),
        decreases from,
    {
        assert(chars@.take(from as int).drop_last() == chars@.take(from - 1));
        assert(chars@.skip(from - 1) == seq![chars@[from - 1]] + chars@.skip(from as int));
        from -= 1;
    }
    assert(after_last_slash(chars@) == chars@.skip(from as int));
    if from == chars.len() {
        shell.to_owned()
    } else {
        let last = vstd::slice::slice_subrange(chars.as_slice(), from, chars.len());
        to_text(last)
    }
}

/// `s` where it has at most `max` characters, else its start and an ellipsis.
pub open spec fn truncated(s: Seq<char>, max: nat) -> Seq<char> {
    if s.len() <= max {
        s
    } else {
        s.take(if max == 0 { 0 } else { max - 1 }).push('\u{2026}')
    }
}

/// Shortens a title for the tab strip, appending an ellipsis when clipped.
pub fn truncate(s: &str, max: usize) -> (r: String)
    ensures
        r@ == truncated(s@, max as nat),
{
    let n = s.unicode_len();
    if n <= max {
        s.to_owned()
    } else {
        let kept: usize = if max == 0 {
            0
        } else {
            max - 1
        };
        let mut out = s.substring_char(0, kept).to_owned();
        out.push('\u{2026}');
        assert(s@.subrange(0, kept as int) == s@.take(kept as int));
        out
    }
}

/// `c` between single quotes: a single quote closes them, is escaped, and opens
/// them again.
pub open spec fn escape(c: char) -> Seq<char> {
    if c == '\'' {
        seq!['\'', '\\', '\'', '\'']
    } else {
        seq![c]
    }
}

/// Every character of `s` as it stands between single quotes.
pub open spec fn escaped(s: Seq<char>) -> Seq<char>
    decreases s.len(),
{
    if s.len() == 0 {
        Seq::empty()
    } else {
        escape(s[0]) + escaped(s.drop_first())
    }
}

/// `s` in single quotes.
pub open spec fn quoted(s: Seq<char>) -> Seq<char> {
    seq!['\''] + escaped(s) + seq!['\'']
}

/// Quotes a filesystem path for the shell: single-quoted, with any embedded single
/// quotes closed, escaped, and reopened.
pub fn shell_quote(path: &str) -> (r: String)
    ensures
        r@ == quoted(path@),
{
    let chars = to_chars(path);
    let mut out = String::new();
    out.push('\'');
    let mut i: usize = 0;
    assert(chars@.skip(0) == chars@);
    assert(out@ + escaped(chars@) == seq!['\''] + escaped(chars@));
    while i < chars.len()
        invariant
            i <= chars@.len(),
            out@ + escaped(chars@.skip(i as int)) == seq!['\''] + escaped(chars@),
        decreases chars@.len() - i,
    {
        let ghost before = out@;
        let c = chars[i];
        assert(chars@.skip(i as int).drop_first() == chars@.skip(i + 1));
        if c == '\'' {
            out.push('\'');
            out.push('\\');
            out.push('\'');
            out.push('\'');
        } else {
            out.push(c);
        }
        assert(out@ == before + escape(c));
        assert(out@ + escaped(chars@.skip(i + 1)) == before + escaped(chars@.skip(i as int)));
        i += 1;
    }
    assert(out@ == seq!['\''] + escaped(chars@));
    out.push('\'');
    out
}

/// What a shell reads of the text `s`, which it is in the middle of: inside single
/// quotes every character but the closing quote stands for itself; outside them a
/// quote opens, and a backslash makes the next character stand for itself. Nothing
/// where a quote is left open, or where a bare character stands outside quotes.
pub open spec fn shell_reads(s: Seq<char>, inside: bool) -> Option<Seq<char>>
    decreases s.len(),
{
    if s.len() == 0 {
        if inside {
            None
        } else {
            Some(Seq::empty())
        }
    } else if s[0] == '\'' {
        shell_reads(s.drop_first(), !inside)
    } else if inside {
        match shell_reads(s.drop_first(), true) {
            Some(rest) => Some(seq![s[0]] + rest),
            None => None,
        }
    } else if s[0] == '\\' && s.len() >= 2 {
        match shell_reads(s.skip(2), false) {
            Some(rest) => Some(seq![s[1]] + rest),
            None => None,
        }
    } else {
        None
    }
}

proof fn lemma_reads_escaped(s: Seq<char>)
    ensures
        shell_reads(escaped(s) + seq!['\''], true) == Some(s),
    decreases s.len(),
{
    let tail = seq!['\''];
    let all = escaped(s) + tail;
    if s.len() == 0 {
        assert(all == tail);
        assert(shell_reads(all.drop_first(), false) == Some(Seq::<char>::empty()));
        assert(s == Seq::<char>::empty());
    } else {
        lemma_reads_escaped(s.drop_first());
        let rest = escaped(s.drop_first()) + tail;
        assert(s == seq![s[0]] + s.drop_first());
        if s[0] == '\'' {
            assert(all == seq!['\'', '\\', '\'', '\''] + rest);
            let one = all.drop_first();
            assert(one[0] == '\\' && one[1] == '\'');
            let three = one.skip(2);
            assert(three[0] == '\'');
            assert(three.drop_first() == rest);
            assert(shell_reads(three, false) == Some(s.drop_first()));
            assert(shell_reads(one, false) == Some(seq!['\''] + s.drop_first()));
            assert(shell_reads(all, true) == shell_reads(one, false));
        } else {
            assert(all == seq![s[0]] + rest);
            assert(all.drop_first() == rest);
            assert(shell_reads(all, true) == Some(seq![s[0]] + s.drop_first()));
        }
    }
}

/// A shell reads a quoted path as the path itself, whatever characters it has.
pub proof fn law_shell_reads_quoted(path: Seq<char>)
    ensures
        shell_reads(quoted(path), false) == Some(path),
{
    lemma_reads_escaped(path);
    assert(quoted(path).drop_first() == escaped(path) + seq!['\'']);
}

/// A clipped title is never longer than the room for it, and starts as the title
/// does.
pub proof fn law_truncated_fits(s: Seq<char>, max: nat)
    requires
        max > 0,
    ensures
        truncated(s, max).len() <= max,
        s.len() <= max ==> truncated(s, max) == s,
        s.len() > max ==> truncated(s, max).len() == max && truncated(s, max).drop_last()
            == s.take(max - 1),
{
    if s.len() > max {
        assert(truncated(s, max).drop_last() == s.take(max - 1));
    }
}

/// What the strip shows on tab `i`, counted from zero.
pub open spec fn tab_label_of(i: nat, display: Seq<char>) -> Seq<char> {
    decimal(i + 1) + "  "@ + truncated(display, 24)
}

/// What the strip shows on a tab: its number and its name.
pub fn tab_label(i: usize, display: &str) -> (r: String)
    requires
        i < usize::MAX,
    ensures
        r@ == tab_label_of(i as nat, display@),
{
    let mut out = decimal_text(i + 1);
    out.append("  ");
    out.append(truncate(display, 24).as_str());
    out
}

/// What quitting does to `shells` shells in `tabs` tabs.
pub open spec fn quit_detail_of(shells: nat, tabs: nat) -> Seq<char> {
    if shells == 1 {
        "The open shell will be terminated"@
    } else if tabs == 1 {
        "All "@ + decimal(shells) + " open shells will be terminated"@
    } else {
        "All "@ + decimal(shells) + " open shells across "@ + decimal(tabs)
            + " tabs will be terminated"@
    }
}

/// Says what quitting does to the open shells.
pub fn quit_detail(shells: usize, tabs: usize) -> (r: String)
    ensures
        r@ == quit_detail_of(shells as nat, tabs as nat),
{
    if shells == 1 {
        "The open shell will be terminated".to_owned()
    } else if tabs == 1 {
        let mut out = "All ".to_owned();
        out.append(decimal_text(shells).as_str());
        out.append(" open shells will be terminated");
        out
    } else {
        let mut out = "All ".to_owned();
        out.append(decimal_text(shells).as_str());
        out.append(" open shells across ");
        out.append(decimal_text(tabs).as_str());
        out.append(" tabs will be terminated");
        out
    }
}

/// The match counter of the search bar: nothing for an empty query.
pub open spec fn counter_of(query: Seq<char>, current: nat, total: nat) -> Seq<char> {
    if query.len() == 0 {
        Seq::empty()
    } else {
        decimal(current) + " / "@ + decimal(total)
    }
}

/// The "3 / 20" style match counter of the search bar.
pub fn match_counter(query: &str, current: usize, total: usize) -> (r: String)
    ensures
        r@ == counter_of(query@, current as nat, total as nat),
{
    if query.is_empty() {
        String::new()
    } else {
        let mut out = decimal_text(current);
        out.append(" / ");
        out.append(decimal_text(total).as_str());
        out
    }
}

/// The note for a font family that is not installed.
pub fn missing_font_note(family: &str) -> (r: String)
    ensures
        r@ == "tessera: font-family '"@ + family@ + "' not found, using the default font"@,
{
    let mut out = "tessera: font-family '".to_owned();
    out.append(family);
    out.append("' not found, using the default font");
    out
}

/// The name of a shell is the part of its path behind the last slash; a path that ends in a
/// slash is its own name.
pub proof fn law_basename(dir: Seq<char>, name: Seq<char>)
    requires
        !name.contains('/'),
    ensures
        name.len() > 0 ==> basename(dir.push('/') + name) == name,
        basename(name) == name,
        basename(dir.push('/')) == dir.push('/'),
{
    lemma_behind_slash(dir.push('/'), name);
    lemma_behind_slash(Seq::empty(), name);
    assert(Seq::<char>::empty() + name =~= name);
}

proof fn lemma_behind_slash(front: Seq<char>, name: Seq<char>)
    requires
        !name.contains('/'),
        front.len() == 0 || front.last() == '/',
    ensures
        after_last_slash(front + name) == name,
    decreases name.len(),
{
    if name.len() == 0 {
        assert(front + name =~= front);
        assert(name =~= Seq::empty());
    } else {
        let init = name.drop_last();
        assert(name.contains(name[name.len() - 1]));
        assert(!init.contains('/')) by {
            if init.contains('/') {
                let i = choose|i: int| 0 <= i < init.len() && init[i] == '/';
                assert(name[i] == '/');
            }
        }
        lemma_behind_slash(front, init);
        assert((front + name).drop_last() =~= front + init);
        assert(name =~= init.push(name.last()));
    }
}

/// A clipped title ends in an ellipsis.
pub proof fn law_ellipsis(s: Seq<char>, max: nat)
    requires
        0 < max < s.len(),
    ensures
        truncated(s, max).last() == '\u{2026}',
{
}

/// The strip numbers the tabs from one, and shows up to 24 characters of a name behind the
/// number and two blanks.
pub proof fn law_tab_label(i: nat, display: Seq<char>)
    ensures
        ({
            let label = tab_label_of(i, display);
            let shown = if display.len() <= 24 {
                display
            } else {
                display.take(23).push('\u{2026}')
            };
            let digits = label.len() - shown.len() - 2;
            &&& digits > 0
            &&& digits_value(label.take(digits)) == i + 1
            &&& label[digits] == ' ' && label[digits + 1] == ' '
            &&& label.skip(digits + 2) == shown
        }),
{
    reveal_strlit("  ");
    assert("  "@.len() == 2 && "  "@[0] == ' ' && "  "@[1] == ' ');
    law_decimal_reads_back(i + 1);
    let number = decimal(i + 1);
    let shown = truncated(display, 24);
    assert(display.len() > 24 ==> shown =~= display.take(23).push('\u{2026}'));
    let label = tab_label_of(i, display);
    assert(label.take(number.len() as int) =~= number);
    assert(label.skip(number.len() as int + 2) =~= shown);
}

/// The counter of a search that was run: the current match and the number of matches, each in
/// decimal, with a slash between.
pub proof fn law_match_counter(query: Seq<char>, current: nat, total: nat, n: int)
    requires
        n == decimal(current).len(),
    ensures
        query.len() == 0 ==> counter_of(query, current, total).len() == 0,
        query.len() > 0 ==> {
            let c = counter_of(query, current, total);
            &&& digits_value(c.take(n)) == current
            &&& c.subrange(n, n + 3) == seq![' ', '/', ' ']
            &&& digits_value(c.skip(n + 3)) == total
        },
{
    reveal_strlit(" / ");
    assert(" / "@ =~= seq![' ', '/', ' ']);
    law_decimal_reads_back(current);
    law_decimal_reads_back(total);
    if query.len() > 0 {
        let c = counter_of(query, current, total);
        assert(c.take(n) =~= decimal(current));
        assert(c.subrange(n, n + 3) =~= seq![' ', '/', ' ']);
        assert(c.skip(n + 3) =~= decimal(total));
    }
}

/// The warning before quitting counts the shells, and the tabs where there are several.
pub proof fn law_quit_detail(shells: nat, tabs: nat)
    ensures
        shells == 1 ==> quit_detail_of(shells, tabs) == "The open shell will be terminated"@,
        shells != 1 && tabs == 1 ==> quit_detail_of(shells, tabs) == "All "@ + decimal(shells)
            + " open shells will be terminated"@,
        shells != 1 && tabs != 1 ==> quit_detail_of(shells, tabs) == "All "@ + decimal(shells)
            + " open shells across "@ + decimal(tabs) + " tabs will be terminated"@,
{
}

} // verus!
