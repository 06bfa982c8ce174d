//! The names of the keys of a keyboard.

use vstd::prelude::*;

use crate::case::ascii_upper;
use crate::number::{ascii_lower, ascii_lowered, is_digit, lower};
use crate::text::{decimal, digit, same, spells, texts, to_chars};

verus! {

/// The names of the keys that have a word for a name.
pub open spec fn key_words() -> Seq<Seq<char>> {
    seq![
        "Down"@,
        "Left"@,
        "Right"@,
        "Up"@,
        "Escape"@,
        "Tab"@,
        "Backspace"@,
        "Enter"@,
        "Insert"@,
        "Delete"@,
        "Home"@,
        "End"@,
        "PageUp"@,
        "PageDown"@,
        "Copy"@,
        "Cut"@,
        "Paste"@,
        "Space"@,
        "Colon"@,
        "Comma"@,
        "Minus"@,
        "Period"@,
        "Plus"@,
        "Equals"@,
        "Semicolon"@,
        "OpenBracket"@,
        "CloseBracket"@,
        "OpenCurlyBracket"@,
        "CloseCurlyBracket"@,
        "Backtick"@,
        "Backslash"@,
        "Slash"@,
        "Pipe"@,
        "Questionmark"@,
        "Exclamationmark"@,
        "Quote"@,
    ]
}

/// The names of the digits, of the letters, and of the function keys.
pub open spec fn key_signs() -> Seq<Seq<char>> {
    Seq::new(
        71,
        |i: int|
            if i < 10 {
                seq![digit(i as nat)]
            } else if i < 36 {
                seq![('A' as u32 + (i - 10)) as char]
            } else {
                "F"@ + decimal((i - 35) as nat)
            },
    )
}

/// The names of all keys: those with a word for a name, the digits 0 to 9, the letters
/// A to Z, and the function keys F1 to F35.
pub open spec fn key_name_list() -> Seq<Seq<char>> {
    key_words() + key_signs()
}

/// Calls `egui::Key::name` on each of `egui::Key::ALL`: the names that `egui` has for
/// the keys that it knows, in its order.
#[verifier::external_body]
pub(crate) fn key_names() -> (r: Vec<String>)
    ensures
        texts(r@) == key_name_list(),
{
    egui::Key::ALL.iter().map(|key| key.name().to_owned()).collect()
}

/// `name`, if there is one, as a sequence of characters.
pub open spec fn name_view(name: Option<String>) -> Option<Seq<char>> {
    match name {
        Some(n) => Some(n@),
        None => None,
    }
}

/// Whether `c` is an ASCII letter.
pub open spec fn is_letter(c: char) -> bool {
    'a' <= c <= 'z' || 'A' <= c <= 'Z'
}

/// Whether `c` is an ASCII letter.
pub fn letter(c: char) -> (r: bool)
    ensures
        r == is_letter(c),
{
    ('a' <= c && c <= 'z') || ('A' <= c && c <= 'Z')
}

/// The second names that keys have, each with the key's own name: other words for it, and
/// the sign that it types or shows.
pub open spec fn second_words() -> Seq<(Seq<char>, Seq<char>)> {
    seq![
        ("⏷"@, "Down"@),
        ("ArrowDown"@, "Down"@),
        ("⏴"@, "Left"@),
        ("ArrowLeft"@, "Left"@),
        ("⏵"@, "Right"@),
        ("ArrowRight"@, "Right"@),
        ("⏶"@, "Up"@),
        ("ArrowUp"@, "Up"@),
        ("Esc"@, "Escape"@),
        ("Return"@, "Enter"@),
        ("Help"@, "Insert"@),
        (" "@, "Space"@),
        (":"@, "Colon"@),
        (","@, "Comma"@),
        ("-"@, "Minus"@),
        ("−"@, "Minus"@),
        ("."@, "Period"@),
        ("+"@, "Plus"@),
        ("="@, "Equals"@),
        ("Equal"@, "Equals"@),
        ("NumpadEqual"@, "Equals"@),
        (";"@, "Semicolon"@),
        ("\\"@, "Backslash"@),
        ("/"@, "Slash"@),
        ("|"@, "Pipe"@),
        ("?"@, "Questionmark"@),
        ("!"@, "Exclamationmark"@),
        ("["@, "OpenBracket"@),
        ("]"@, "CloseBracket"@),
        ("{"@, "OpenCurlyBracket"@),
        ("}"@, "CloseCurlyBracket"@),
        ("`"@, "Backtick"@),
        ("Backquote"@, "Backtick"@),
        ("Grave"@, "Backtick"@),
        ("'"@, "Quote"@),
    ]
}

/// The second names of the digits: with the word "Digit" or "Numpad" in front of them.
pub open spec fn second_digits() -> Seq<(Seq<char>, Seq<char>)> {
    Seq::new(
        20,
        |i: int|
            if i < 10 {
                ("Digit"@ + seq![digit(i as nat)], seq![digit(i as nat)])
            } else {
                ("Numpad"@ + seq![digit((i - 10) as nat)], seq![digit((i - 10) as nat)])
            },
    )
}

/// All second names of keys, each with the key's own name.
pub open spec fn second_names() -> Seq<(Seq<char>, Seq<char>)> {
    second_words() + second_digits()
}

/// What the first of `pairs` with the name `name` has for it.
pub open spec fn paired(pairs: Seq<(Seq<char>, Seq<char>)>, name: Seq<char>) -> Option<Seq<char>>
    decreases pairs.len(),
{
    if pairs.len() == 0 {
        None
    } else if pairs[0].0 == name {
        Some(pairs[0].1)
    } else {
        paired(pairs.drop_first(), name)
    }
}

/// The own name of the key that has a name, spelt as it stands: a letter in either case,
/// an own name, or a second name.
pub open spec fn key_of_name(name: Seq<char>) -> Option<Seq<char>> {
    if name.len() == 1 && is_letter(name[0]) {
        Some(seq![ascii_upper(name[0])])
    } else if key_name_list().contains(name) {
        Some(name)
    } else {
        paired(second_names(), name)
    }
}

/// Calls `egui::Key::from_name`, and stands for the key that it finds by that key's own
/// name (`egui::Key::name`). A key is found under its own name and under its second
/// names, as they are spelt, and a letter also in lower case; nothing is found under any
/// other text. What is found is the name of a key.
#[verifier::external_body]
pub(crate) fn key_from_name(name: &str) -> (r: Option<String>)
    ensures
        name_view(r) == key_of_name(name@),
        r matches Some(key) ==> key_name_list().contains(key@),
{
    egui::Key::from_name(name).map(|key| key.name().to_owned())
}

/// How the second name of more than one word that is `low` in lower case is spelt.
pub open spec fn spelling(low: Seq<char>) -> Option<Seq<char>> {
    if low == "arrowdown"@ {
        Some("ArrowDown"@)
    } else if low == "arrowleft"@ {
        Some("ArrowLeft"@)
    } else if low == "arrowright"@ {
        Some("ArrowRight"@)
    } else if low == "arrowup"@ {
        Some("ArrowUp"@)
    } else if low == "numpadequal"@ {
        Some("NumpadEqual"@)
    } else {
        None
    }
}

/// Finds how the second name of more than one word that is `low` in lower case is spelt.
pub fn respell(low: &[char]) -> (r: Option<&'static str>)
    ensures
        match (r, spelling(low@)) {
            (Some(name), Some(spelt)) => name@ == spelt,
            (None, None) => true,
            _ => false,
        },
{
    if spells(low, "arrowdown") {
        Some("ArrowDown")
    } else if spells(low, "arrowleft") {
        Some("ArrowLeft")
    } else if spells(low, "arrowright") {
        Some("ArrowRight")
    } else if spells(low, "arrowup") {
        Some("ArrowUp")
    } else if spells(low, "numpadequal") {
        Some("NumpadEqual")
    } else {
        None
    }
}

/// The first of `names` that is `low` in lower case.
pub open spec fn listed(names: Seq<Seq<char>>, low: Seq<char>) -> Option<Seq<char>>
    decreases names.len(),
{
    if names.len() == 0 {
        None
    } else if ascii_lowered(names[0]) == low {
        Some(names[0])
    } else {
        listed(names.drop_first(), low)
    }
}

/// Looks for the first of `names` that is `low` in lower case.
pub fn find_listed(names: &Vec<String>, low: &[char]) -> (r: Option<String>)
    ensures
        name_view(r) == listed(texts(names@), low@),
        r matches Some(name) ==> texts(names@).contains(name@),
{
    let mut i: usize = 0;
    assert(texts(names@).skip(0) == texts(names@));
    while i < names.len()
        invariant
            i <= names@.len(),
            listed(texts(names@), low@) == listed(texts(names@).skip(i as int), low@),
        decreases names@.len() - i,
    {
        let ghost rest = texts(names@).skip(i as int);
        assert(rest[0] == names@[i as int]@);
        assert(rest.drop_first() == texts(names@).skip(i + 1));
        let name = to_chars(names[i].as_str());
        let name = lower(name.as_slice());
        if same(name.as_slice(), low) {
            assert(texts(names@)[i as int] == names@[i as int]@);
            return Some(names[i].clone());
        }
        i += 1;
    }
    None
}

/// A name of which there is no other in the list, in whatever case, is the one that is
/// found.
proof fn lemma_listed(names: Seq<Seq<char>>, i: int)
    requires
        0 <= i < names.len(),
        forall|j: int|
            0 <= j < i ==> ascii_lowered(#[trigger] names[j]) != ascii_lowered(names[i]),
    ensures
        listed(names, ascii_lowered(names[i])) == Some(names[i]),
    decreases names.len(),
{
    if i > 0 {
        let rest = names.drop_first();
        assert(ascii_lowered(names[0]) != ascii_lowered(names[i]));
        assert forall|j: int| 0 <= j < i - 1 implies ascii_lowered(#[trigger] rest[j])
            != ascii_lowered(rest[i - 1]) by {
            assert(rest[j] == names[j + 1]);
        }
        lemma_listed(rest, i - 1);
    }
}

/// The words and signs that are the names of keys, the second names behind the own ones.
spec fn word(i: int) -> Seq<char> {
    if i < 36 {
        key_words()[i]
    } else {
        second_words()[i - 36].0
    }
}

/// Whether a second name has more than one word.
spec fn is_camel(i: int) -> bool {
    i == 37 || i == 39 || i == 41 || i == 43 || i == 56
}

/// No two words are the same, not even in another case: no two of them have the length
/// and the first, the last and the middle letter in common. An own name is a word of more
/// than one letter, and so is a second name unless it is a sign.
proof fn lemma_words(i: int, j: int)
    requires
        0 <= i < 71,
        0 <= j < 71,
    ensures
        ascii_lowered(word(i)) == ascii_lowered(word(j)) ==> i == j,
        i < 36 ==> word(i).len() > 1,
        word(i).len() > 0,
        word(i).len() == 1 ==> !is_letter(word(i)[0]) && !is_digit(word(i)[0]),
        word(i).len() > 1 ==> 'A' <= word(i)[0] <= 'Z' && is_letter(word(i)[1])
            && is_letter(word(i).last()),
        36 <= i && word(i).len() > 1 && !is_camel(i) ==> forall|k: int|
            1 <= k < word(i).len() ==> 'a' <= #[trigger] word(i)[k] <= 'z',
{
    reveal_strlit("Down");
    reveal_strlit("Left");
    reveal_strlit("Right");
    reveal_strlit("Up");
    reveal_strlit("Escape");
    reveal_strlit("Tab");
    reveal_strlit("Backspace");
    reveal_strlit("Enter");
    reveal_strlit("Insert");
    reveal_strlit("Delete");
    reveal_strlit("Home");
    reveal_strlit("End");
    reveal_strlit("PageUp");
    reveal_strlit("PageDown");
    reveal_strlit("Copy");
    reveal_strlit("Cut");
    reveal_strlit("Paste");
    reveal_strlit("Space");
    reveal_strlit("Colon");
    reveal_strlit("Comma");
    reveal_strlit("Minus");
    reveal_strlit("Period");
    reveal_strlit("Plus");
    reveal_strlit("Equals");
    reveal_strlit("Semicolon");
    reveal_strlit("OpenBracket");
    reveal_strlit("CloseBracket");
    reveal_strlit("OpenCurlyBracket");
    reveal_strlit("CloseCurlyBracket");
    reveal_strlit("Backtick");
    reveal_strlit("Backslash");
    reveal_strlit("Slash");
    reveal_strlit("Pipe");
    reveal_strlit("Questionmark");
    reveal_strlit("Exclamationmark");
    reveal_strlit("Quote");
    reveal_strlit("⏷");
    reveal_strlit("ArrowDown");
    reveal_strlit("⏴");
    reveal_strlit("ArrowLeft");
    reveal_strlit("⏵");
    reveal_strlit("ArrowRight");
    reveal_strlit("⏶");
    reveal_strlit("ArrowUp");
    reveal_strlit("Esc");
    reveal_strlit("Return");
    reveal_strlit("Help");
    reveal_strlit(" ");
    reveal_strlit(":");
    reveal_strlit(",");
    reveal_strlit("-");
    reveal_strlit("−");
    reveal_strlit(".");
    reveal_strlit("+");
    reveal_strlit("=");
    reveal_strlit("Equal");
    reveal_strlit("NumpadEqual");
    reveal_strlit(";");
    reveal_strlit("\\");
    reveal_strlit("/");
    reveal_strlit("|");
    reveal_strlit("?");
    reveal_strlit("!");
    reveal_strlit("[");
    reveal_strlit("]");
    reveal_strlit("{");
    reveal_strlit("}");
    reveal_strlit("`");
    reveal_strlit("Backquote");
    reveal_strlit("Grave");
    reveal_strlit("'");
    let (a, b) = (word(i), word(j));
    assert(ascii_lowered(a).len() == a.len() && ascii_lowered(b).len() == b.len());
    assert(ascii_lowered(a)[0] == ascii_lower(a[0]));
    assert(ascii_lowered(b)[0] == ascii_lower(b[0]));
    assert(ascii_lowered(a)[a.len() - 1] == ascii_lower(a[a.len() - 1]));
    assert(ascii_lowered(b)[b.len() - 1] == ascii_lower(b[b.len() - 1]));
    assert(ascii_lowered(a)[a.len() as int / 2] == ascii_lower(a[a.len() as int / 2]));
    assert(ascii_lowered(b)[b.len() as int / 2] == ascii_lower(b[b.len() as int / 2]));
}

/// The digits and letters are single characters, and a function key has a digit behind
/// its letter.
proof fn lemma_sign(i: int)
    requires
        0 <= i < 71,
    ensures
        i < 36 ==> ascii_lowered(key_signs()[i]) == seq![ascii_lower(key_signs()[i][0])],
        i < 10 ==> key_signs()[i][0] == '0' as u32 + i,
        10 <= i < 36 ==> key_signs()[i][0] == 'A' as u32 + (i - 10),
        i >= 36 ==> key_signs()[i].len() > 1 && is_digit(ascii_lowered(key_signs()[i])[1]),
        36 <= i < 45 ==> key_signs()[i].len() == 2 && ascii_lowered(key_signs()[i])[1] == '0' as u32
            + (i - 35),
        45 <= i ==> key_signs()[i].len() == 3 && ascii_lowered(key_signs()[i])[1] == '0' as u32
            + (i - 35) / 10 && ascii_lowered(key_signs()[i])[2] == '0' as u32 + (i - 35) % 10,
{
    reveal_strlit("F");
    let s = key_signs()[i];
    if i >= 36 {
        let n = (i - 35) as nat;
        reveal_with_fuel(decimal, 2);
        assert(s == "F"@ + decimal(n));
        assert(ascii_lowered(s)[1] == ascii_lower(s[1]));
        if n >= 10 {
            assert(decimal(n) == seq![digit(n / 10), digit(n % 10)]);
            assert(ascii_lowered(s)[2] == ascii_lower(s[2]));
        }
    } else {
        assert(ascii_lowered(s) =~= seq![ascii_lower(s[0])]);
    }
}

/// The second names of a digit are a word with the digit behind it.
proof fn lemma_second_digit(i: int)
    requires
        0 <= i < 20,
    ensures
        ({
            let (w, d) = second_digits()[i];
            let low = ascii_lowered(w);
            &&& w.len() == (if i < 10 {
                6int
            } else {
                7int
            })
            &&& 'A' <= w[0] <= 'Z'
            &&& is_letter(w[1])
            &&& forall|k: int|
                1 <= k < w.len() ==> 'a' <= #[trigger] w[k] <= 'z' || is_digit(w[k])
            &&& low.last() == w.last()
            &&& w.last() == '0' as u32 + i % 10
        }),
{
    reveal_strlit("Digit");
    reveal_strlit("Numpad");
    let w = second_digits()[i].0;
    assert(ascii_lowered(w)[w.len() - 1] == ascii_lower(w[w.len() - 1]));
}

/// The names of all keys, the second names behind the own ones.
pub open spec fn any_name(i: int) -> Seq<char> {
    if i < key_name_list().len() {
        key_name_list()[i]
    } else {
        second_names()[i - key_name_list().len()].0
    }
}

/// How many names all keys have together.
pub open spec fn name_count() -> int {
    (key_name_list().len() + second_names().len()) as int
}

/// What names are made of: a name of one character is a digit, a letter in upper case or a
/// sign; a longer one starts with a letter in upper case.
pub(crate) proof fn lemma_name(i: int)
    requires
        0 <= i < name_count(),
    ensures
        key_name_list().len() == 107,
        second_names().len() == 55,
        ascii_lowered(any_name(i)).len() == any_name(i).len() > 0,
        any_name(i).len() == 1 && i < 107 ==> is_digit(any_name(i)[0]) || 'A' <= any_name(i)[0]
            <= 'Z',
        any_name(i).len() == 1 && i >= 107 ==> !is_digit(any_name(i)[0]) && !is_letter(
            any_name(i)[0],
        ),
        any_name(i).len() > 1 ==> 'A' <= any_name(i)[0] <= 'Z',
{
    if i < 36 {
        lemma_words(i, i);
        assert(any_name(i) == word(i));
    } else if i < 107 {
        lemma_sign(i - 36);
        reveal_strlit("F");
        assert(any_name(i) == key_signs()[i - 36]);
    } else if i < 142 {
        lemma_words(i - 71, i - 71);
        assert(any_name(i) == word(i - 71));
    } else {
        lemma_second_digit(i - 142);
        assert(any_name(i) == second_digits()[i - 142].0);
    }
}

/// The digits and the letters in upper case are names of keys.
pub(crate) proof fn lemma_single(c: char)
    requires
        is_digit(c) || 'A' <= c <= 'Z',
    ensures
        key_name_list().contains(seq![c]),
{
    let i = if is_digit(c) {
        c as int - '0' as int
    } else {
        c as int - 'A' as int + 10
    };
    lemma_sign(i);
    assert(key_signs()[i] =~= seq![c]);
    assert(key_name_list()[36 + i] == key_signs()[i]);
}

/// No two names of keys are the same, not even in another case.
pub proof fn law_names_apart(i: int, j: int)
    requires
        0 <= i < name_count(),
        0 <= j < name_count(),
        ascii_lowered(any_name(i)) == ascii_lowered(any_name(j)),
    ensures
        i == j,
{
    lemma_name(i);
    lemma_name(j);
    let (v, w) = (any_name(i), any_name(j));
    let (a, b) = (ascii_lowered(v), ascii_lowered(w));
    assert(a[0] == ascii_lower(v[0]) && b[0] == ascii_lower(w[0]));
    if v.len() > 1 {
        assert(a[1] == ascii_lower(v[1]) && b[1] == ascii_lower(w[1]));
        assert(a[a.len() - 1] == ascii_lower(v[a.len() - 1]));
        assert(b[a.len() - 1] == ascii_lower(w[a.len() - 1]));
    }
    lemma_class(i);
    lemma_class(j);
    if is_word(i) && is_word(j) {
        lemma_words(word_index(i), word_index(j));
    } else if 36 <= i < 107 && 36 <= j < 107 {
        lemma_sign(i - 36);
        lemma_sign(j - 36);
    } else if i >= 142 && j >= 142 {
        lemma_second_digit(i - 142);
        lemma_second_digit(j - 142);
    }
}

/// Whether a name is a word or a sign of its own, and where it then stands among those.
spec fn is_word(i: int) -> bool {
    i < 36 || 107 <= i < 142
}

spec fn word_index(i: int) -> int {
    if i < 36 {
        i
    } else {
        i - 71
    }
}

/// What tells words, function keys and the second names of digits apart.
proof fn lemma_class(i: int)
    requires
        0 <= i < name_count(),
    ensures
        is_word(i) ==> any_name(i) == word(word_index(i)),
        i < 36 ==> any_name(i).len() > 1,
        is_word(i) && any_name(i).len() > 1 ==> is_letter(any_name(i)[1]) && is_letter(
            any_name(i).last(),
        ),
        36 <= i < 107 ==> any_name(i) == key_signs()[i - 36],
        36 <= i < 72 ==> any_name(i).len() == 1,
        72 <= i < 107 ==> any_name(i).len() > 1 && is_digit(any_name(i)[1]),
        142 <= i ==> any_name(i) == second_digits()[i - 142].0 && any_name(i).len() > 1
            && is_letter(any_name(i)[1]) && is_digit(any_name(i).last()),
{
    lemma_name(i);
    if is_word(i) {
        lemma_words(word_index(i), word_index(i));
    } else if i < 107 {
        lemma_sign(i - 36);
        if i >= 72 {
            let w = key_signs()[i - 36];
            assert(ascii_lowered(w)[1] == ascii_lower(w[1]));
        }
    } else {
        lemma_second_digit(i - 142);
    }
}

/// Every key is found under its own name, in whatever case.
pub proof fn law_key_names_any_case(i: int)
    requires
        0 <= i < key_name_list().len(),
    ensures
        listed(key_name_list(), ascii_lowered(key_name_list()[i])) == Some(key_name_list()[i]),
{
    assert forall|j: int| 0 <= j < i implies ascii_lowered(#[trigger] key_name_list()[j])
        != ascii_lowered(key_name_list()[i]) by {
        if ascii_lowered(key_name_list()[j]) == ascii_lowered(key_name_list()[i]) {
            assert(any_name(i) == key_name_list()[i] && any_name(j) == key_name_list()[j]);
            law_names_apart(i, j);
        }
    }
    lemma_listed(key_name_list(), i);
}

proof fn lemma_spellings()
    ensures
        ascii_lowered("ArrowDown"@) == "arrowdown"@,
        ascii_lowered("ArrowLeft"@) == "arrowleft"@,
        ascii_lowered("ArrowRight"@) == "arrowright"@,
        ascii_lowered("ArrowUp"@) == "arrowup"@,
        ascii_lowered("NumpadEqual"@) == "numpadequal"@,
        any_name(108) == "ArrowDown"@,
        any_name(110) == "ArrowLeft"@,
        any_name(112) == "ArrowRight"@,
        any_name(114) == "ArrowUp"@,
        any_name(127) == "NumpadEqual"@,
        name_count() == 162,
{
    reveal_strlit("ArrowDown");
    reveal_strlit("arrowdown");
    reveal_strlit("ArrowLeft");
    reveal_strlit("arrowleft");
    reveal_strlit("ArrowRight");
    reveal_strlit("arrowright");
    reveal_strlit("ArrowUp");
    reveal_strlit("arrowup");
    reveal_strlit("NumpadEqual");
    reveal_strlit("numpadequal");
    lemma_name(0);
}

/// What is spelt in more than one word is a second name.
pub(crate) proof fn lemma_spelling(low: Seq<char>)
    requires
        spelling(low) is Some,
    ensures
        exists|i: int|
            #![trigger any_name(i)]
            0 <= i < name_count() && any_name(i) == spelling(low)->0 && ascii_lowered(any_name(i))
                == low,
{
    lemma_spellings();
}

/// A second name is a sign, or a name of more than one word, or a word in title case.
pub(crate) proof fn lemma_second_name(i: int)
    requires
        107 <= i < name_count(),
    ensures
        ({
            let w = any_name(i);
            let low = ascii_lowered(w);
            ||| spelling(low) == Some(w)
            ||| spelling(low) is None && w.len() == 1 && !is_letter(w[0])
            ||| spelling(low) is None && w.len() > 1 && 'A' <= w[0] <= 'Z' && forall|k: int|
                1 <= k < w.len() ==> 'a' <= #[trigger] w[k] <= 'z' || is_digit(w[k])
        }),
{
    let w = any_name(i);
    let low = ascii_lowered(w);
    lemma_name(i);
    lemma_spellings();
    if spelling(low) is Some {
        lemma_spelling(low);
        let j = choose|j: int|
            #![trigger any_name(j)]
            0 <= j < name_count() && any_name(j) == spelling(low)->0 && ascii_lowered(any_name(j))
                == low;
        law_names_apart(i, j);
    } else if i < 142 {
        assert(w == word(i - 71));
        lemma_words(i - 71, i - 71);
    } else {
        assert(w == second_digits()[i - 142].0);
        lemma_second_digit(i - 142);
    }
}

/// Nothing is listed under what is no name.
pub(crate) proof fn lemma_unlisted(names: Seq<Seq<char>>, low: Seq<char>)
    requires
        forall|i: int| 0 <= i < names.len() ==> ascii_lowered(#[trigger] names[i]) != low,
    ensures
        listed(names, low) is None,
    decreases names.len(),
{
    if names.len() > 0 {
        let rest = names.drop_first();
        assert(ascii_lowered(names[0]) != low);
        assert forall|i: int| 0 <= i < rest.len() implies ascii_lowered(#[trigger] rest[i])
            != low by {
            assert(rest[i] == names[i + 1]);
        }
        lemma_unlisted(rest, low);
    }
}

proof fn lemma_paired(pairs: Seq<(Seq<char>, Seq<char>)>, i: int)
    requires
        0 <= i < pairs.len(),
        forall|j: int| 0 <= j < i ==> (#[trigger] pairs[j]).0 != pairs[i].0,
    ensures
        paired(pairs, pairs[i].0) == Some(pairs[i].1),
    decreases pairs.len(),
{
    if i > 0 {
        let rest = pairs.drop_first();
        assert(pairs[0].0 != pairs[i].0);
        assert forall|j: int| 0 <= j < i - 1 implies (#[trigger] rest[j]).0 != rest[i - 1].0 by {
            assert(rest[j] == pairs[j + 1]);
        }
        lemma_paired(rest, i - 1);
    }
}

proof fn lemma_unpaired(pairs: Seq<(Seq<char>, Seq<char>)>, name: Seq<char>)
    requires
        forall|i: int| 0 <= i < pairs.len() ==> (#[trigger] pairs[i]).0 != name,
    ensures
        paired(pairs, name) is None,
    decreases pairs.len(),
{
    if pairs.len() > 0 {
        let rest = pairs.drop_first();
        assert(pairs[0].0 != name);
        assert forall|i: int| 0 <= i < rest.len() implies (#[trigger] rest[i]).0 != name by {
            assert(rest[i] == pairs[i + 1]);
        }
        lemma_unpaired(rest, name);
    }
}

/// A key is found under its second names.
pub proof fn law_second_names_found(i: int)
    requires
        0 <= i < second_names().len(),
    ensures
        key_of_name(second_names()[i].0) == Some(second_names()[i].1),
{
    let w = second_names()[i].0;
    lemma_name(i + 107);
    assert(any_name(i + 107) == w);
    if key_name_list().contains(w) {
        let j = choose|j: int| 0 <= j < key_name_list().len() && key_name_list()[j] == w;
        assert(any_name(j) == w);
        law_names_apart(i + 107, j);
    }
    assert forall|j: int| 0 <= j < i implies (#[trigger] second_names()[j]).0 != w by {
        assert(any_name(j + 107) == second_names()[j].0);
        if second_names()[j].0 == w {
            law_names_apart(i + 107, j + 107);
        }
    }
    lemma_paired(second_names(), i);
}

/// No key is found under a text that is neither a letter nor a name.
pub proof fn law_no_key_found(name: Seq<char>)
    requires
        !(name.len() == 1 && is_letter(name[0])),
        forall|i: int| 0 <= i < name_count() ==> #[trigger] any_name(i) != name,
    ensures
        key_of_name(name) is None,
{
    lemma_name(0);
    if key_name_list().contains(name) {
        let j = choose|j: int| 0 <= j < key_name_list().len() && key_name_list()[j] == name;
        assert(any_name(j) == name);
    }
    assert forall|j: int| 0 <= j < second_names().len() implies (#[trigger] second_names()[j]).0
        != name by {
        assert(any_name(j + 107) == second_names()[j].0);
    }
    lemma_unpaired(second_names(), name);
}

} // verus!
