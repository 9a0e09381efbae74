//! Texts as sequences of characters: the few operations that the parsers
//! and the formatter are built from.
use vstd::prelude::*;

verus! {

/// Tells whether a character is one of the ten decimal digits.
pub open spec fn is_digit(c: char) -> bool {
    '0' <= c <= '9'
}

/// The number that a decimal digit stands for.
pub open spec fn digit_value(c: char) -> int {
    c as int - '0' as int
}

/// Tells whether `count` decimal digits stand in `text` from `at` on.
pub open spec fn digits_at(text: Seq<char>, at: int, count: int) -> bool {
    &&& 0 <= at
    &&& at + count <= text.len()
    &&& forall|i: int| at <= i < at + count ==> is_digit(#[trigger] text[i])
}

/// The number that the `count` characters of `text` from `at` on denote in
/// decimal notation, where all of them are digits.
pub open spec fn number_at(text: Seq<char>, at: int, count: nat) -> int
    decreases count,
{
    if count == 0 {
        0
    } else {
        number_at(text, at, (count - 1) as nat) * 10 + digit_value(text[at + count - 1])
    }
}

/// The first place from `start` on at which `text` holds a digit; the
/// length of the text where it holds none.
pub open spec fn first_digit_from(text: Seq<char>, start: int) -> int
    decreases text.len() - start,
{
    if start >= text.len() {
        text.len() as int
    } else if 0 <= start && is_digit(text[start]) {
        start
    } else {
        first_digit_from(text, start + 1)
    }
}

/// The first place from `start` on at which `text` holds the character
/// `mark`; the length of the text where it holds none.
pub open spec fn first_mark_from(text: Seq<char>, mark: char, start: int) -> int
    decreases text.len() - start,
{
    if start >= text.len() {
        text.len() as int
    } else if 0 <= start && text[start] == mark {
        start
    } else {
        first_mark_from(text, mark, start + 1)
    }
}

/// Tells whether `part` stands in `text` at the place `at`.
pub open spec fn occurs_at(text: Seq<char>, part: Seq<char>, at: int) -> bool {
    0 <= at && at + part.len() <= text.len() && text.subrange(at, at + part.len()) == part
}

/// Tells whether `part` stands somewhere in `text`, as an unbroken run.
pub open spec fn contains(text: Seq<char>, part: Seq<char>) -> bool {
    exists|at: int| occurs_at(text, part, at)
}

/// The pieces into which the character `mark` cuts `text`: every
/// occurrence ends one piece and starts the next, so that a text with `n`
/// marks has `n + 1` pieces, some of which may be empty.
pub open spec fn pieces(text: Seq<char>, mark: char) -> Seq<Seq<char>>
    decreases text.len(),
{
    if text.len() == 0 {
        seq![Seq::empty()]
    } else {
        let before = pieces(text.drop_last(), mark);
        if text.last() == mark {
            before.push(Seq::empty())
        } else {
            before.drop_last().push(before.last().push(text.last()))
        }
    }
}

/// The texts that a vector of character vectors holds.
pub open spec fn texts(lines: Seq<Vec<char>>) -> Seq<Seq<char>> {
    Seq::new(lines.len(), |i: int| lines[i]@)
}

/// A mark that stands in a text at or after `start` is found there or
/// earlier.
pub proof fn lemma_first_mark_bound(text: Seq<char>, mark: char, start: int, at: int)
    requires
        0 <= start <= at < text.len(),
        text[at] == mark,
    ensures
        start <= first_mark_from(text, mark, start) <= at,
    decreases at - start,
{
    if text[start] != mark {
        lemma_first_mark_bound(text, mark, start + 1, at);
    }
}

/// The characters of a text, one by one.
pub fn chars_of(text: &str) -> (chars: Vec<char>)
    ensures
        chars@ == text@,
{
    let mut chars: Vec<char> = Vec::new();
    for c in it: text.chars()
        invariant
            it.seq() == text@,
            chars@ == it.seq().take(it.index() as int),
    {
        chars.push(c);
    }
    chars
}

/// Tells whether a character is a decimal digit.
pub fn digit(c: char) -> (yes: bool)
    ensures
        yes == is_digit(c),
{
    '0' <= c && c <= '9'
}

/// The number that a decimal digit stands for.
pub fn value_of_digit(c: char) -> (value: u8)
    requires
        is_digit(c),
    ensures
        value == digit_value(c),
        value <= 9,
{
    (c as u32 - '0' as u32) as u8
}

/// Finds the first digit from `start` on.
pub fn find_digit(text: &Vec<char>, start: usize) -> (place: usize)
    ensures
        place == first_digit_from(text@, start as int),
        start <= place <= text.len() || (start > text.len() && place == text.len()),
        place < text.len() ==> is_digit(text@[place as int]),
{
    let mut place: usize = start;
    while place < text.len() && !digit(text[place])
        invariant
            start <= place,
            first_digit_from(text@, start as int) == first_digit_from(text@, place as int),
        decreases text.len() - place,
    {
        place = place + 1;
    }
    if place > text.len() {
        text.len()
    } else {
        place
    }
}

/// Finds the first occurrence of a character from `start` on.
pub fn find_mark(text: &Vec<char>, mark: char, start: usize) -> (place: usize)
    ensures
        place == first_mark_from(text@, mark, start as int),
        start <= place <= text.len() || (start > text.len() && place == text.len()),
        place < text.len() ==> text@[place as int] == mark,
{
    let mut place: usize = start;
    while place < text.len() && text[place] != mark
        invariant
            start <= place,
            first_mark_from(text@, mark, start as int) == first_mark_from(
                text@,
                mark,
                place as int,
            ),
        decreases text.len() - place,
    {
        place = place + 1;
    }
    if place > text.len() {
        text.len()
    } else {
        place
    }
}

/// Tells whether `part` stands in `text` at the place `at`.
pub fn stands_at(text: &Vec<char>, part: &Vec<char>, at: usize) -> (yes: bool)
    requires
        at + part.len() <= text.len(),
    ensures
        yes == occurs_at(text@, part@, at as int),
{
    let mut i: usize = 0;
    while i < part.len()
        invariant
            i <= part.len(),
            at + part.len() <= text.len(),
            forall|j: int| 0 <= j < i ==> text@[at + j] == part@[j],
        decreases part.len() - i,
    {
        if text[at + i] != part[i] {
            proof {
                assert(text@.subrange(at as int, at + part.len())[i as int] == text@[at + i]);
            }
            return false;
        }
        i = i + 1;
    }
    proof {
        assert(text@.subrange(at as int, at + part.len()) =~= part@);
    }
    true
}

/// Tells whether `part` stands somewhere in `text`.
pub fn contains_text(text: &Vec<char>, part: &Vec<char>) -> (yes: bool)
    ensures
        yes == contains(text@, part@),
{
    if part.len() > text.len() {
        proof {
            assert(forall|at: int| !occurs_at(text@, part@, at));
        }
        return false;
    }
    let last: usize = text.len() - part.len();
    let mut at: usize = 0;
    while at < last
        invariant
            last == text.len() - part.len(),
            at <= last,
            forall|k: int| 0 <= k < at ==> !occurs_at(text@, part@, k),
        decreases last - at,
    {
        if stands_at(text, part, at) {
            return true;
        }
        at = at + 1;
    }
    if stands_at(text, part, last) {
        return true;
    }
    proof {
        assert(forall|k: int| !occurs_at(text@, part@, k));
    }
    false
}

/// Copies the characters of `text` from `from` up to, but not including,
/// `to`.
pub fn slice_of(text: &Vec<char>, from: usize, to: usize) -> (part: Vec<char>)
    requires
        from <= to <= text.len(),
    ensures
        part@ == text@.subrange(from as int, to as int),
{
    let mut part: Vec<char> = Vec::new();
    let mut i: usize = from;
    while i < to
        invariant
            from <= i <= to <= text.len(),
            part@ == text@.subrange(from as int, i as int),
        decreases to - i,
    {
        part.push(text[i]);
        proof {
            assert(part@ =~= text@.subrange(from as int, i + 1));
        }
        i = i + 1;
    }
    part
}

/// Cuts `text` at every occurrence of `mark`.
pub fn split_at_mark(text: &Vec<char>, mark: char) -> (parts: Vec<Vec<char>>)
    ensures
        texts(parts@) == pieces(text@, mark),
        parts.len() >= 1,
{
    let mut parts: Vec<Vec<char>> = Vec::new();
    let mut current: Vec<char> = Vec::new();
    let mut i: usize = 0;
    proof {
        assert(text@.take(0) =~= Seq::empty());
        assert(texts(parts@).push(current@) =~= seq![Seq::<char>::empty()]);
    }
    while i < text.len()
        invariant
            i <= text.len(),
            pieces(text@.take(i as int), mark) == texts(parts@).push(current@),
        decreases text.len() - i,
    {
        let c: char = text[i];
        let ghost before = texts(parts@).push(current@);
        proof {
            assert(text@.take(i + 1).drop_last() =~= text@.take(i as int));
            assert(text@.take(i + 1).last() == c);
            assert(before.drop_last() =~= texts(parts@));
        }
        if c == mark {
            parts.push(current);
            current = Vec::new();
            proof {
                assert(texts(parts@) =~= before);
            }
        } else {
            let ghost held = texts(parts@);
            current.push(c);
            proof {
                assert(texts(parts@) =~= held);
            }
        }
        i = i + 1;
    }
    proof {
        assert(text@.take(text.len() as int) =~= text@);
    }
    let ghost before = texts(parts@);
    let ghost last = current@;
    parts.push(current);
    proof {
        assert(texts(parts@) =~= before.push(last));
    }
    parts
}

} // verus!
