//! Entering a player's name: which keystrokes count, the cap on the
//! length, and what is kept of the text on submission.

use vstd::prelude::*;
use vstd::string::*;

verus! {

/// A name under entry holds at most this many characters.
pub const NAME_CAP: usize = 20;

/// Whether `c` is a letter or a digit, as `char::is_alphanumeric` of the
/// standard library tells.
pub uninterp spec fn alphanumeric(c: char) -> bool;

/// Whether `c` is white space, as `char::is_whitespace` of the standard
/// library tells.
pub uninterp spec fn whitespace(c: char) -> bool;

/// `char::is_alphanumeric` depends on the character alone; its result is
/// what [`alphanumeric`] names.
pub assume_specification[ char::is_alphanumeric ](c: char) -> (b: bool)
    ensures
        b == alphanumeric(c),
;

/// `char::is_whitespace` depends on the character alone; its result is
/// what [`whitespace`] names.
pub assume_specification[ char::is_whitespace ](c: char) -> (b: bool)
    ensures
        b == whitespace(c),
;

/// `String::push` appends the character to the end of the string.
pub assume_specification[ String::push ](s: &mut String, c: char)
    ensures
        final(s)@ == old(s)@.push(c),
;

/// `String::pop` removes the last character and returns it, or returns
/// `None` and leaves the string alone if it is empty.
pub assume_specification[ String::pop ](s: &mut String) -> (last: Option<char>)
    ensures
        old(s)@.len() == 0 ==> last.is_none() && final(s)@ == old(s)@,
        old(s)@.len() > 0 ==> last == Some(old(s)@.last()) && final(s)@ == old(s)@.drop_last(),
;

/// A keystroke counts if it is a letter, a digit or a space.
pub open spec fn accepted(c: char) -> bool {
    alphanumeric(c) || c == ' '
}

/// The text after one keystroke: a character that counts is appended
/// while the text is under the cap, anything else is dropped.
pub open spec fn typed(text: Seq<char>, c: char) -> Seq<char> {
    if accepted(c) && text.len() < NAME_CAP {
        text.push(c)
    } else {
        text
    }
}

/// The text after a run of keystrokes, taken in order.
pub open spec fn typed_all(text: Seq<char>, keys: Seq<char>) -> Seq<char>
    decreases keys.len(),
{
    if keys.len() == 0 {
        text
    } else {
        typed(typed_all(text, keys.drop_last()), keys.last())
    }
}

/// The text after Backspace: without its last character, if it has one.
pub open spec fn erased(text: Seq<char>) -> Seq<char> {
    if text.len() > 0 {
        text.drop_last()
    } else {
        text
    }
}

/// The text after one frame of input: first the keystrokes, then
/// Backspace if it was pressed.
pub open spec fn edited(text: Seq<char>, keys: Seq<char>, backspace: bool) -> Seq<char> {
    if backspace {
        erased(typed_all(text, keys))
    } else {
        typed_all(text, keys)
    }
}

/// The first index at or after `from` that holds no white space, or the
/// length of `s` if there is none.
pub open spec fn skip_front(s: Seq<char>, from: int) -> int
    decreases s.len() - from,
{
    if 0 <= from < s.len() && whitespace(s[from]) {
        skip_front(s, from + 1)
    } else {
        from
    }
}

/// The end of what is left of `s[from..to]` once the white space at its
/// end is cut off.
pub open spec fn skip_back(s: Seq<char>, from: int, to: int) -> int
    decreases to,
{
    if 0 <= from < to <= s.len() && whitespace(s[to - 1]) {
        skip_back(s, from, to - 1)
    } else {
        to
    }
}

/// `s` without the white space at its start and at its end.
pub open spec fn trimmed(s: Seq<char>) -> Seq<char> {
    let start = skip_front(s, 0);
    s.subrange(start, skip_back(s, start, s.len() as int))
}

/// The name that a text submits: the trimmed text, unless that is empty.
pub open spec fn submitted(text: Seq<char>) -> Option<Seq<char>> {
    if trimmed(text).len() > 0 {
        Some(trimmed(text))
    } else {
        None
    }
}

/// Applies one frame of input to the name under entry.
pub fn handle_name_input(input_name: &mut String, keys: &Vec<char>, backspace: bool)
    ensures
        final(input_name)@ == edited(old(input_name)@, keys@, backspace),
{
    let mut i: usize = 0;
    while i < keys.len()
        invariant
            i <= keys.len(),
            input_name@ == typed_all(old(input_name)@, keys@.take(i as int)),
        decreases keys.len() - i,
    {
        let c = keys[i];
        proof {
            assert(keys@.take(i + 1).drop_last() =~= keys@.take(i as int));
        }
        if (c.is_alphanumeric() || c == ' ') && input_name.as_str().unicode_len() < NAME_CAP {
            input_name.push(c);
        }
        i += 1;
    }
    proof {
        assert(keys@.take(i as int) =~= keys@);
    }
    if backspace {
        input_name.pop();
    }
}

/// Copies `s` without the white space at its start and at its end.
pub fn trim(s: &str) -> (t: String)
    ensures
        t@ == trimmed(s@),
{
    let n: usize = s.unicode_len();
    let mut start: usize = 0;
    while start < n && s.get_char(start).is_whitespace()
        invariant
            n == s@.len(),
            start <= n,
            skip_front(s@, start as int) == skip_front(s@, 0),
        decreases n - start,
    {
        start += 1;
    }
    let mut end: usize = n;
    while start < end && s.get_char(end - 1).is_whitespace()
        invariant
            n == s@.len(),
            start <= end <= n,
            skip_back(s@, start as int, end as int) == skip_back(s@, start as int, n as int),
        decreases end,
    {
        end -= 1;
    }
    s.substring_char(start, end).to_owned()
}

/// The name that `text` submits, if any.
pub fn submit(text: &str) -> (name: Option<String>)
    ensures
        name.is_some() == submitted(text@).is_some(),
        name.is_some() ==> name.unwrap()@ == submitted(text@).unwrap(),
{
    let t = trim(text);
    if t.as_str().unicode_len() > 0 {
        Some(t)
    } else {
        None
    }
}

/// Editing keeps the name under entry within the cap.
pub proof fn lemma_edited_within_cap(text: Seq<char>, keys: Seq<char>, backspace: bool)
    requires
        text.len() <= NAME_CAP,
    ensures
        edited(text, keys, backspace).len() <= NAME_CAP,
        typed_all(text, keys).len() <= NAME_CAP,
    decreases keys.len(),
{
    if keys.len() > 0 {
        lemma_edited_within_cap(text, keys.drop_last(), false);
    }
}

/// From `from` up to where [`skip_front`] stops there is only white
/// space, and where it stops there is none.
pub proof fn lemma_skip_front(s: Seq<char>, from: int)
    requires
        0 <= from <= s.len(),
    ensures
        from <= skip_front(s, from) <= s.len(),
        forall|i: int| from <= i < skip_front(s, from) ==> whitespace(#[trigger] s[i]),
        skip_front(s, from) < s.len() ==> !whitespace(s[skip_front(s, from)]),
    decreases s.len() - from,
{
    if from < s.len() && whitespace(s[from]) {
        lemma_skip_front(s, from + 1);
    }
}

/// From where [`skip_back`] stops up to `to` there is only white space,
/// and just before where it stops there is none.
pub proof fn lemma_skip_back(s: Seq<char>, from: int, to: int)
    requires
        0 <= from <= to <= s.len(),
    ensures
        from <= skip_back(s, from, to) <= to,
        forall|i: int| skip_back(s, from, to) <= i < to ==> whitespace(#[trigger] s[i]),
        from < skip_back(s, from, to) ==> !whitespace(s[skip_back(s, from, to) - 1]),
    decreases to,
{
    if from < to && whitespace(s[to - 1]) {
        lemma_skip_back(s, from, to - 1);
    }
}

/// Trimming cuts white space and nothing else: the text is a run of
/// white space, then the trimmed text, then a run of white space, and the
/// trimmed text neither starts nor ends with white space.
pub proof fn lemma_trimmed(s: Seq<char>)
    ensures
        ({
            let start = skip_front(s, 0);
            let end = skip_back(s, start, s.len() as int);
            &&& 0 <= start <= end <= s.len()
            &&& trimmed(s) == s.subrange(start, end)
            &&& forall|i: int| 0 <= i < start ==> whitespace(#[trigger] s[i])
            &&& forall|i: int| end <= i < s.len() ==> whitespace(#[trigger] s[i])
            &&& trimmed(s).len() > 0 ==> !whitespace(trimmed(s).first()) && !whitespace(
                trimmed(s).last(),
            )
        }),
{
    lemma_skip_front(s, 0);
    lemma_skip_back(s, skip_front(s, 0), s.len() as int);
}

} // verus!
