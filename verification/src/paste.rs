//! Pasting the paths of files that were dropped on the window.

use vstd::prelude::*;

use crate::config::opt_view;
use crate::labels::{quoted, shell_quote};
use crate::text::{join, joined, texts};

verus! {

/// The paths that are there, each quoted for the shell, in order.
pub open spec fn quoted_paths(paths: Seq<Option<Seq<char>>>) -> Seq<Seq<char>>
    decreases paths.len(),
{
    if paths.len() == 0 {
        Seq::empty()
    } else {
        let rest = quoted_paths(paths.drop_last());
        match paths.last() {
            Some(path) => rest.push(quoted(path)),
            None => rest,
        }
    }
}

/// What announces a bracketed paste to a terminal.
pub open spec fn paste_start() -> Seq<char> {
    seq!['\u{1b}', '[', '2', '0', '0', '~']
}

/// What ends a bracketed paste.
pub open spec fn paste_end() -> Seq<char> {
    seq!['\u{1b}', '[', '2', '0', '1', '~']
}

/// What dropped files paste: their quoted paths with a blank between each two, in
/// bracketed-paste markers where the terminal asks for them. Nothing where none has
/// a path.
pub open spec fn paste_of(paths: Seq<Option<Seq<char>>>, bracketed: bool) -> Option<Seq<char>> {
    let words = quoted_paths(paths);
    if words.len() == 0 {
        None
    } else {
        Some(bracketed_text(joined(words, seq![' ']), bracketed))
    }
}

/// A text to paste, in bracketed-paste markers where the terminal asks for them.
pub open spec fn bracketed_text(text: Seq<char>, bracketed: bool) -> Seq<char> {
    if bracketed {
        paste_start() + text + paste_end()
    } else {
        text
    }
}

/// Puts a text to paste in bracketed-paste markers, where the program in the pane asks
/// for them.
pub fn bracket(text: &str, bracketed: bool) -> (r: String)
    ensures
        r@ == bracketed_text(text@, bracketed),
{
    if !bracketed {
        return text.to_owned();
    }
    proof {
        reveal_strlit("\x1b[200~");
        reveal_strlit("\x1b[201~");
    }
    let mut out = "\x1b[200~".to_owned();
    assert(out@ =~= paste_start());
    out.append(text);
    out.append("\x1b[201~");
    assert("\x1b[201~"@ =~= paste_end());
    out
}

/// The views of `paths`, in order.
pub open spec fn path_views(paths: Seq<Option<String>>) -> Seq<Option<Seq<char>>> {
    paths.map_values(|p: Option<String>| opt_view(p))
}

/// The text that files dropped on the window paste into the focused pane: their
/// shell-quoted paths, in bracketed-paste markers where the program in the pane asks
/// for them. Files without a path that is text are left out; `None` where no file
/// remains.
pub fn paste_text(paths: &Vec<Option<String>>, bracketed: bool) -> (r: Option<String>)
    ensures
        opt_view(r) == paste_of(path_views(paths@), bracketed),
{
    let mut words: Vec<String> = Vec::new();
    let mut i: usize = 0;
    assert(texts(words@) =~= quoted_paths(path_views(paths@).take(0)));
    while i < paths.len()
        invariant
            i <= paths@.len(),
            texts(words@) == quoted_paths(path_views(paths@).take(i as int)),
        decreases paths@.len() - i,
    {
        let ghost upto = path_views(paths@).take(i + 1);
        assert(upto.drop_last() =~= path_views(paths@).take(i as int));
        assert(upto.last() == opt_view(paths@[i as int]));
        if let Some(path) = &paths[i] {
            let ghost before = texts(words@);
            words.push(shell_quote(path.as_str()));
            assert(texts(words@) =~= before.push(quoted(path@)));
        }
        i += 1;
    }
    assert(path_views(paths@).take(i as int) =~= path_views(paths@));
    if words.len() == 0 {
        return None;
    }
    proof {
        reveal_strlit(" ");
    }
    let text = join(&words, " ");
    assert(" "@ =~= seq![' ']);
    Some(bracket(text.as_str(), bracketed))
}

/// Something is pasted where any file has a path, and then it is more than nothing.
pub proof fn law_paste_some(paths: Seq<Option<Seq<char>>>, bracketed: bool)
    ensures
        paste_of(paths, bracketed) is Some <==> (exists|i: int|
            0 <= i < paths.len() && #[trigger] paths[i] is Some),
        paste_of(paths, bracketed) matches Some(text) ==> text.len() > 0,
{
    lemma_quoted_paths(paths);
    let words = quoted_paths(paths);
    if words.len() > 0 {
        lemma_joined_some(words);
    }
}

proof fn lemma_quoted_paths(paths: Seq<Option<Seq<char>>>)
    ensures
        quoted_paths(paths).len() > 0 <==> (exists|i: int|
            0 <= i < paths.len() && #[trigger] paths[i] is Some),
        forall|i: int|
            0 <= i < quoted_paths(paths).len() ==> (#[trigger] quoted_paths(paths)[i]).len() > 0,
    decreases paths.len(),
{
    if paths.len() > 0 {
        let init = paths.drop_last();
        lemma_quoted_paths(init);
        if exists|i: int| 0 <= i < init.len() && #[trigger] init[i] is Some {
            let i = choose|i: int| 0 <= i < init.len() && #[trigger] init[i] is Some;
            assert(paths[i] is Some);
        }
        if exists|i: int| 0 <= i < paths.len() && #[trigger] paths[i] is Some {
            let i = choose|i: int| 0 <= i < paths.len() && #[trigger] paths[i] is Some;
            if i < init.len() {
                assert(init[i] is Some);
            }
        }
        if paths.last() is Some {
            assert(paths[paths.len() - 1] is Some);
        }
    }
}

proof fn lemma_joined_some(words: Seq<Seq<char>>)
    requires
        words.len() > 0,
        forall|i: int| 0 <= i < words.len() ==> (#[trigger] words[i]).len() > 0,
    ensures
        joined(words, seq![' ']).len() > 0,
{
    assert(words[words.len() - 1].len() > 0);
}

/// The paths are quoted one by one, in their order, and what has none is left out.
pub proof fn law_paths_in_order(a: Seq<Option<Seq<char>>>, b: Seq<Option<Seq<char>>>)
    ensures
        quoted_paths(a + b) == quoted_paths(a) + quoted_paths(b),
        forall|p: Seq<char>| #[trigger] quoted_paths(seq![Some(p)]) == seq![quoted(p)],
        quoted_paths(seq![None]).len() == 0,
    decreases b.len(),
{
    if b.len() == 0 {
        assert(a + b =~= a);
        assert(quoted_paths(a) + quoted_paths(b) =~= quoted_paths(a));
    } else {
        law_paths_in_order(a, b.drop_last());
        assert((a + b).drop_last() =~= a + b.drop_last());
        assert(quoted_paths(a + b) =~= quoted_paths(a) + quoted_paths(b));
    }
    assert forall|p: Seq<char>| #[trigger] quoted_paths(seq![Some(p)]) == seq![quoted(p)] by {
        let one = seq![Some(p)];
        assert(one.drop_last() =~= Seq::empty());
        assert(quoted_paths(one.drop_last()) =~= Seq::empty());
        assert(quoted_paths(one) =~= seq![quoted(p)]);
    }
    let none = seq![None::<Seq<char>>];
    assert(none.drop_last() =~= Seq::empty());
    assert(quoted_paths(none.drop_last()) =~= Seq::empty());
}

/// Pasting two lots of files is pasting one after the other, with a blank between.
pub proof fn law_pastes_together(a: Seq<Option<Seq<char>>>, b: Seq<Option<Seq<char>>>)
    requires
        paste_of(a, false) is Some,
        paste_of(b, false) is Some,
    ensures
        paste_of(a + b, false) == Some(
            paste_of(a, false)->0 + seq![' '] + paste_of(b, false)->0,
        ),
{
    law_paths_in_order(a, b);
    lemma_joined_concat(quoted_paths(a), quoted_paths(b), seq![' ']);
}

proof fn lemma_joined_concat(a: Seq<Seq<char>>, b: Seq<Seq<char>>, sep: Seq<char>)
    requires
        a.len() > 0,
        b.len() > 0,
    ensures
        joined(a + b, sep) == joined(a, sep) + sep + joined(b, sep),
    decreases b.len(),
{
    let ab = a + b;
    assert(ab.drop_last() =~= a + b.drop_last());
    assert(ab.last() == b.last());
    if b.len() == 1 {
        assert(ab.drop_last() =~= a);
        assert(joined(b, sep) =~= b[0]);
        assert(joined(ab, sep) =~= joined(a, sep) + sep + joined(b, sep));
    } else {
        lemma_joined_concat(a, b.drop_last(), sep);
        assert(joined(ab, sep) =~= joined(a, sep) + sep + joined(b, sep));
    }
}

/// A bracketed paste is the plain one between its two markers.
pub proof fn law_bracketed_paste(text: Seq<char>)
    ensures
        bracketed_text(text, false) == text,
        bracketed_text(text, true) == seq!['\u{1b}', '[', '2', '0', '0', '~'] + text
            + seq!['\u{1b}', '[', '2', '0', '1', '~'],
{
}

/// A paste of files is bracketed as any other.
pub proof fn law_paste_bracketed(paths: Seq<Option<Seq<char>>>)
    ensures
        paste_of(paths, true) is Some <==> paste_of(paths, false) is Some,
        paste_of(paths, false) matches Some(text) ==> paste_of(paths, true) == Some(
            bracketed_text(text, true),
        ),
{
}

} // verus!
