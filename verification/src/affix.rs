//! The parts of a text, and comparing texts without regard to case.

use vstd::prelude::*;
use vstd::string::*;

verus! {

/// Whether a text ends with another.
pub open spec fn has_suffix(text: Seq<char>, suffix: Seq<char>) -> bool {
    suffix.len() <= text.len() && text.skip(text.len() - suffix.len()) == suffix
}

/// Whether a text ends with another.
pub fn ends_with(text: &str, suffix: &str) -> (ends: bool)
    ensures
        ends == has_suffix(text@, suffix@),
{
    let len: usize = text.unicode_len();
    let tail: usize = suffix.unicode_len();
    if tail > len {
        return false;
    }
    let from: usize = len - tail;
    for i in 0..tail
        invariant
            len == text@.len(),
            tail == suffix@.len(),
            from == len - tail,
            forall|j: int| 0 <= j < i ==> text@[from + j] == suffix@[j],
    {
        if text.get_char(from + i) != suffix.get_char(i) {
            assert(text@.skip(from as int)[i as int] != suffix@[i as int]);
            return false;
        }
    }
    assert(text@.skip(from as int) =~= suffix@);
    true
}

/// The code of a character, with capital letters of ASCII as small ones.
pub open spec fn folded(c: char) -> int {
    if 'A' <= c <= 'Z' {
        c as int + 32
    } else {
        c as int
    }
}

/// The codes of a text, without regard to case.
pub open spec fn folded_text(text: Seq<char>) -> Seq<int> {
    text.map_values(|c: char| folded(c))
}

fn fold(c: char) -> (code: u32)
    ensures
        code == folded(c),
{
    if 'A' <= c && c <= 'Z' {
        c as u32 + 32
    } else {
        c as u32
    }
}

/// Whether two texts are the same without regard to the case of ASCII letters.
pub fn eq_ignore_case(left: &str, right: &str) -> (equal: bool)
    ensures
        equal == (folded_text(left@) == folded_text(right@)),
{
    let len: usize = left.unicode_len();
    if len != right.unicode_len() {
        assert(folded_text(left@).len() != folded_text(right@).len());
        return false;
    }
    for i in 0..len
        invariant
            len == left@.len(),
            len == right@.len(),
            forall|j: int| 0 <= j < i ==> folded(left@[j]) == folded(right@[j]),
    {
        if fold(left.get_char(i)) != fold(right.get_char(i)) {
            assert(folded_text(left@)[i as int] != folded_text(right@)[i as int]);
            return false;
        }
    }
    assert(folded_text(left@) =~= folded_text(right@));
    true
}

/// Whether a text ends with another without regard to the case of ASCII letters.
pub open spec fn has_suffix_ignoring_case(text: Seq<char>, suffix: Seq<char>) -> bool {
    suffix.len() <= text.len() && folded_text(text).skip(text.len() - suffix.len()) == folded_text(
        suffix,
    )
}

/// Whether a text ends with another without regard to the case of ASCII letters.
pub fn ends_with_ignore_case(text: &str, suffix: &str) -> (ends: bool)
    ensures
        ends == has_suffix_ignoring_case(text@, suffix@),
{
    let len: usize = text.unicode_len();
    let tail: usize = suffix.unicode_len();
    if tail > len {
        return false;
    }
    let from: usize = len - tail;
    for i in 0..tail
        invariant
            len == text@.len(),
            tail == suffix@.len(),
            from == len - tail,
            forall|j: int| 0 <= j < i ==> folded(text@[from + j]) == folded(suffix@[j]),
    {
        if fold(text.get_char(from + i)) != fold(suffix.get_char(i)) {
            assert(folded_text(text@).skip(from as int)[i as int] != folded_text(
                suffix@,
            )[i as int]);
            return false;
        }
    }
    assert(folded_text(text@).skip(from as int) =~= folded_text(suffix@));
    true
}

/// The position of the first occurrence of a character.
pub open spec fn first_position(text: Seq<char>, c: char) -> Option<int>
    decreases text.len(),
{
    if text.len() == 0 {
        None
    } else {
        match first_position(text.drop_last(), c) {
            Some(at) => Some(at),
            None => if text.last() == c {
                Some(text.len() - 1)
            } else {
                None
            },
        }
    }
}

/// The position of the last occurrence of a character.
pub open spec fn last_position(text: Seq<char>, c: char) -> Option<int>
    decreases text.len(),
{
    if text.len() == 0 {
        None
    } else if text.last() == c {
        Some(text.len() - 1)
    } else {
        last_position(text.drop_last(), c)
    }
}

proof fn lemma_first_position_prefix(text: Seq<char>, n: int, c: char)
    requires
        0 <= n <= text.len(),
    ensures
        first_position(text.take(n), c) is Some ==> first_position(text, c) == first_position(
            text.take(n),
            c,
        ),
    decreases text.len() - n,
{
    if n < text.len() {
        assert(text.take(n + 1).drop_last() =~= text.take(n));
        lemma_first_position_prefix(text, n + 1, c);
    } else {
        assert(text.take(n) =~= text);
    }
}

/// The position of the first occurrence of a character.
pub fn find_char(text: &str, c: char) -> (at: Option<usize>)
    ensures
        match at {
            Some(i) => first_position(text@, c) == Some(i as int) && i < text@.len(),
            None => first_position(text@, c) is None,
        },
{
    let len: usize = text.unicode_len();
    for i in 0..len
        invariant
            len == text@.len(),
            first_position(text@.take(i as int), c) is None,
    {
        assert(text@.take(i + 1).drop_last() =~= text@.take(i as int));
        if text.get_char(i) == c {
            proof {
                lemma_first_position_prefix(text@, i + 1, c);
            }
            return Some(i);
        }
    }
    assert(text@.take(len as int) =~= text@);
    None
}

/// The position of the last occurrence of a character among the first ones.
pub fn find_last_char(text: &str, end: usize, c: char) -> (at: Option<usize>)
    requires
        end <= text@.len(),
    ensures
        match at {
            Some(i) => last_position(text@.take(end as int), c) == Some(i as int) && i < end,
            None => last_position(text@.take(end as int), c) is None,
        },
{
    let mut i: usize = end;
    while i > 0
        invariant
            i <= end <= text@.len(),
            last_position(text@.take(end as int), c) == last_position(text@.take(i as int), c),
        decreases i,
    {
        assert(text@.take(i as int).drop_last() =~= text@.take(i - 1));
        i = i - 1;
        if text.get_char(i) == c {
            return Some(i);
        }
    }
    None
}

/// A character, with a capital letter of ASCII as a small one.
pub open spec fn lowered(c: char) -> char {
    if 'A' <= c <= 'Z' {
        (c as int + 32) as char
    } else {
        c
    }
}

/// A text, with capital letters of ASCII as small ones.
pub open spec fn lowered_text(text: Seq<char>) -> Seq<char> {
    text.map_values(|c: char| lowered(c))
}

/// The small letters of ASCII.
const SMALL_LETTERS: &'static str = "abcdefghijklmnopqrstuvwxyz";

proof fn lemma_small_letters(c: char)
    requires
        'A' <= c <= 'Z',
    ensures
        SMALL_LETTERS@.len() == 26,
        SMALL_LETTERS@[c as int - 'A' as int] == lowered(c),
{
    reveal_strlit("abcdefghijklmnopqrstuvwxyz");
}

/// A text, with capital letters of ASCII as small ones.
pub fn to_lower(text: &str) -> (lower: String)
    ensures
        lower@ == lowered_text(text@),
{
    let len: usize = text.unicode_len();
    let mut lower = String::new();
    assert(lower@ =~= lowered_text(text@.take(0)));
    for i in 0..len
        invariant
            len == text@.len(),
            lower@ == lowered_text(text@.take(i as int)),
    {
        let c = text.get_char(i);
        let ghost before = lower@;
        if 'A' <= c && c <= 'Z' {
            let at: usize = (c as u32 - 'A' as u32) as usize;
            proof {
                lemma_small_letters(c);
            }
            lower.append(SMALL_LETTERS.substring_char(at, at + 1));
        } else {
            lower.append(text.substring_char(i, i + 1));
        }
        assert(lower@ =~= before.push(lowered(c)));
        assert(lowered_text(text@.take(i + 1)) =~= before.push(lowered(c)));
    }
    assert(text@.take(len as int) =~= text@);
    lower
}

/// Whether a character is white space.
pub open spec fn is_white(c: char) -> bool {
    let code = c as int;
    0x9 <= code <= 0xd || code == 0x20 || code == 0x85 || code == 0xa0 || code == 0x1680 || 0x2000
        <= code <= 0x200a || code == 0x2028 || code == 0x2029 || code == 0x202f || code == 0x205f
        || code == 0x3000
}

fn white(c: char) -> (is: bool)
    ensures
        is == is_white(c),
{
    let code: u32 = c as u32;
    (0x9 <= code && code <= 0xd) || code == 0x20 || code == 0x85 || code == 0xa0 || code == 0x1680
        || (0x2000 <= code && code <= 0x200a) || code == 0x2028 || code == 0x2029 || code == 0x202f
        || code == 0x205f || code == 0x3000
}

/// A text without white space at its start.
pub open spec fn trimmed_start(text: Seq<char>) -> Seq<char>
    decreases text.len(),
{
    if text.len() > 0 && is_white(text[0]) {
        trimmed_start(text.skip(1))
    } else {
        text
    }
}

/// A text without white space at its end.
pub open spec fn trimmed_end(text: Seq<char>) -> Seq<char>
    decreases text.len(),
{
    if text.len() > 0 && is_white(text.last()) {
        trimmed_end(text.drop_last())
    } else {
        text
    }
}

/// A text without white space at its start and end.
pub open spec fn trimmed(text: Seq<char>) -> Seq<char> {
    trimmed_end(trimmed_start(text))
}

/// A text without white space at its start and end.
pub fn trim(text: &str) -> (inner: String)
    ensures
        inner@ == trimmed(text@),
{
    let len: usize = text.unicode_len();
    let mut from: usize = 0;
    assert(text@.skip(0) =~= text@);
    while from < len && white(text.get_char(from))
        invariant
            len == text@.len(),
            from <= len,
            trimmed_start(text@) == trimmed_start(text@.skip(from as int)),
        decreases len - from,
    {
        assert(text@.skip(from as int).skip(1) =~= text@.skip(from + 1));
        from = from + 1;
    }
    let ghost rest = text@.skip(from as int);
    let mut end: usize = len;
    assert(text@.subrange(from as int, len as int) =~= rest);
    while end > from && white(text.get_char(end - 1))
        invariant
            len == text@.len(),
            from <= end <= len,
            rest == text@.skip(from as int),
            trimmed_end(rest) == trimmed_end(text@.subrange(from as int, end as int)),
        decreases end,
    {
        assert(text@.subrange(from as int, end as int).drop_last() =~= text@.subrange(
            from as int,
            end - 1,
        ));
        end = end - 1;
    }
    text.substring_char(from, end).to_owned()
}

/// What comes behind a prefix, where the text has it.
pub open spec fn without_prefix(text: Seq<char>, prefix: Seq<char>) -> Option<Seq<char>> {
    if prefix.len() <= text.len() && text.take(prefix.len() as int) == prefix {
        Some(text.skip(prefix.len() as int))
    } else {
        None
    }
}

/// What comes behind a prefix, where the text has it.
pub fn strip_prefix(text: &str, prefix: &str) -> (rest: Option<String>)
    ensures
        (match rest {
            Some(r) => Some(r@),
            None => None,
        }) == without_prefix(text@, prefix@),
{
    let len: usize = text.unicode_len();
    let head: usize = prefix.unicode_len();
    if head > len {
        return None;
    }
    for i in 0..head
        invariant
            len == text@.len(),
            head == prefix@.len(),
            head <= len,
            forall|j: int| 0 <= j < i ==> text@[j] == prefix@[j],
    {
        if text.get_char(i) != prefix.get_char(i) {
            assert(text@.take(head as int)[i as int] != prefix@[i as int]);
            return None;
        }
    }
    assert(text@.take(head as int) =~= prefix@);
    let rest = text.substring_char(head, len).to_owned();
    assert(rest@ =~= text@.skip(head as int));
    Some(rest)
}

/// A text ends with another exactly where it is some text with the other behind it.
pub proof fn law_suffixes(text: Seq<char>, start: Seq<char>, suffix: Seq<char>)
    ensures
        has_suffix(start + suffix, suffix),
        has_suffix(text, suffix) ==> exists|front: Seq<char>| text == #[trigger] (front + suffix),
{
    assert((start + suffix).skip(start.len() as int) =~= suffix);
    if has_suffix(text, suffix) {
        let front = text.take(text.len() - suffix.len());
        assert(text =~= front + suffix);
    }
}

/// Two letters are the same without regard to case exactly where they are the same letter of
/// ASCII, capital or small, or the same character.
pub proof fn law_case_of_letters(a: char, b: char)
    ensures
        folded(a) == folded(b) <==> a == b || ('A' <= a <= 'Z' && b as int == a as int + 32) || (
        'A' <= b <= 'Z' && a as int == b as int + 32),
        'A' <= a <= 'Z' ==> lowered(a) as int == a as int + 32,
        !('A' <= a <= 'Z') ==> lowered(a) == a,
{
    if 'A' <= a <= 'Z' {
        lemma_small_letters(a);
    }
}

/// Without regard to case, a text ends with another exactly where its last characters are those
/// of the other, one by one.
pub proof fn law_suffixes_ignoring_case(text: Seq<char>, suffix: Seq<char>)
    ensures
        has_suffix_ignoring_case(text, suffix) <==> suffix.len() <= text.len() && forall|i: int|
            0 <= i < suffix.len() ==> folded(#[trigger] text[text.len() - suffix.len() + i])
                == folded(suffix[i]),
        has_suffix(text, suffix) ==> has_suffix_ignoring_case(text, suffix),
{
    if suffix.len() <= text.len() {
        let from = text.len() - suffix.len();
        let tail = folded_text(text).skip(from);
        if tail == folded_text(suffix) {
            assert forall|i: int| 0 <= i < suffix.len() implies folded(#[trigger] text[from + i])
                == folded(suffix[i]) by {
                assert(tail[i] == folded_text(suffix)[i]);
            }
        }
        if forall|i: int|
            0 <= i < suffix.len() ==> folded(#[trigger] text[from + i]) == folded(suffix[i]) {
            assert forall|i: int| 0 <= i < suffix.len() implies #[trigger] tail[i] == folded_text(
                suffix,
            )[i] by {
                assert(folded(text[from + i]) == folded(suffix[i]));
            }
            assert(tail =~= folded_text(suffix));
        }
        if has_suffix(text, suffix) {
            assert forall|i: int| 0 <= i < suffix.len() implies folded(#[trigger] text[from + i])
                == folded(suffix[i]) by {
                assert(text.skip(from)[i] == suffix[i]);
            }
        }
    }
}

/// The first position of a character holds it, and no one before it does; without one, the text
/// lacks the character. So too from the end.
pub proof fn law_positions(text: Seq<char>, c: char)
    ensures
        match first_position(text, c) {
            Some(at) => 0 <= at < text.len() && text[at] == c && forall|i: int|
                0 <= i < at ==> #[trigger] text[i] != c,
            None => !text.contains(c),
        },
        match last_position(text, c) {
            Some(at) => 0 <= at < text.len() && text[at] == c && forall|i: int|
                at < i < text.len() ==> #[trigger] text[i] != c,
            None => !text.contains(c),
        },
    decreases text.len(),
{
    if text.len() > 0 {
        let init = text.drop_last();
        law_positions(init, c);
        assert forall|i: int| 0 <= i < init.len() implies init[i] == #[trigger] text[i] by {}
        if first_position(init, c) is None {
            assert forall|i: int| 0 <= i < init.len() implies #[trigger] text[i] != c by {
                assert(init[i] == text[i]);
                assert(!init.contains(c));
            }
        }
    }
}

/// Trimming takes away white space at both ends and nothing else.
pub proof fn law_trimming(text: Seq<char>)
    ensures
        trimmed(text).len() > 0 ==> !is_white(trimmed(text)[0]) && !is_white(trimmed(text).last()),
        exists|from: int|
            0 <= from && from + trimmed(text).len() <= text.len() && trimmed(text)
                == #[trigger] text.skip(from).take(trimmed(text).len() as int) && (forall|i: int|
                0 <= i < from ==> is_white(#[trigger] text[i])) && (forall|i: int|
                from + trimmed(text).len() <= i < text.len() ==> is_white(#[trigger] text[i])),
{
    lemma_trimmed_start(text);
    let inner = trimmed_start(text);
    lemma_trimmed_end(inner);
    let from = text.len() - inner.len();
    let kept = trimmed(text);
    assert(kept =~= text.skip(from).take(kept.len() as int));
    assert forall|i: int| from + kept.len() <= i < text.len() implies is_white(
        #[trigger] text[i],
    ) by {
        assert(inner[i - from] == text[i]);
    }
    if kept.len() > 0 {
        assert(kept[0] == inner[0]);
    }
}

proof fn lemma_trimmed_start(text: Seq<char>)
    ensures
        trimmed_start(text).len() <= text.len(),
        trimmed_start(text) == text.skip(text.len() - trimmed_start(text).len()),
        trimmed_start(text).len() > 0 ==> !is_white(trimmed_start(text)[0]),
        forall|i: int|
            0 <= i < text.len() - trimmed_start(text).len() ==> is_white(#[trigger] text[i]),
    decreases text.len(),
{
    if text.len() > 0 && is_white(text[0]) {
        let rest = text.skip(1);
        lemma_trimmed_start(rest);
        let kept = trimmed_start(rest);
        assert(kept =~= text.skip(text.len() - kept.len()));
        assert forall|i: int| 0 <= i < text.len() - kept.len() implies is_white(
            #[trigger] text[i],
        ) by {
            if i > 0 {
                assert(rest[i - 1] == text[i]);
            }
        }
    } else {
        assert(text.skip(0) =~= text);
    }
}

proof fn lemma_trimmed_end(text: Seq<char>)
    ensures
        trimmed_end(text).len() <= text.len(),
        trimmed_end(text) == text.take(trimmed_end(text).len() as int),
        trimmed_end(text).len() > 0 ==> !is_white(trimmed_end(text).last()),
        forall|i: int|
            trimmed_end(text).len() <= i < text.len() ==> is_white(#[trigger] text[i]),
    decreases text.len(),
{
    if text.len() > 0 && is_white(text.last()) {
        let rest = text.drop_last();
        lemma_trimmed_end(rest);
        let kept = trimmed_end(rest);
        assert(kept =~= text.take(kept.len() as int));
        assert forall|i: int| kept.len() <= i < text.len() implies is_white(#[trigger] text[i]) by {
            if i < rest.len() {
                assert(rest[i] == text[i]);
            }
        }
    } else {
        assert(text.take(text.len() as int) =~= text);
    }
}

/// Taking a prefix away undoes putting it in front, and a text without it has nothing behind it.
pub proof fn law_prefixes(text: Seq<char>, prefix: Seq<char>, rest: Seq<char>)
    ensures
        without_prefix(prefix + rest, prefix) == Some(rest),
        without_prefix(text, prefix) matches Some(tail) ==> text == prefix + tail,
{
    assert((prefix + rest).take(prefix.len() as int) =~= prefix);
    assert((prefix + rest).skip(prefix.len() as int) =~= rest);
    if without_prefix(text, prefix) is Some {
        let tail = without_prefix(text, prefix)->0;
        assert(text =~= prefix + tail);
    }
}

} // verus!
