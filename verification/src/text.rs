//! Strings as sequences of characters.

use vstd::prelude::*;
use vstd::string::{StrSliceExecFns, StringExecFns};

verus! {

/// The characters that Unicode calls white space.
pub open spec fn is_white_space(c: char) -> bool {
    let n = c as u32;
    ||| 0x9 <= n <= 0xd
    ||| n == 0x20
    ||| n == 0x85
    ||| n == 0xa0
    ||| n == 0x1680
    ||| 0x2000 <= n <= 0x200a
    ||| n == 0x2028
    ||| n == 0x2029
    ||| n == 0x202f
    ||| n == 0x205f
    ||| n == 0x3000
}

/// Text without the white space around it.
pub open spec fn trimmed(text: Seq<char>) -> Seq<char>
    decreases text.len(),
{
    if text.len() == 0 {
        text
    } else if is_white_space(text.first()) {
        trimmed(text.drop_first())
    } else if is_white_space(text.last()) {
        trimmed(text.drop_last())
    } else {
        text
    }
}

/// Text up to the first occurrence of a character, or all of it.
pub open spec fn up_to(text: Seq<char>, end: char) -> Seq<char>
    decreases text.len(),
{
    if text.len() == 0 || text.first() == end {
        Seq::empty()
    } else {
        seq![text.first()] + up_to(text.drop_first(), end)
    }
}

/// The digits of a number in base ten.
pub open spec fn decimal(n: nat) -> Seq<char>
    decreases n,
{
    if n < 10 {
        seq![digit(n)]
    } else {
        decimal(n / 10).push(digit(n % 10))
    }
}

/// The character of a digit.
pub open spec fn digit(n: nat) -> char {
    ('0' as u32 + n) as char
}

/// The values of a list of strings.
pub open spec fn texts(strings: Seq<String>) -> Seq<Seq<char>> {
    strings.map_values(|s: String| s@)
}

/// Whether a character is white space.
pub fn is_space(c: char) -> (space: bool)
    ensures
        space == is_white_space(c),
{
    let n: u32 = c as u32;
    (0x9 <= n && n <= 0xd) || n == 0x20 || n == 0x85 || n == 0xa0 || n == 0x1680 || (0x2000 <= n
        && n <= 0x200a) || n == 0x2028 || n == 0x2029 || n == 0x202f || n == 0x205f || n == 0x3000
}

/// The characters of a string.
pub fn chars_of(text: &str) -> (chars: Vec<char>)
    ensures
        chars@ == text@,
{
    let mut chars: Vec<char> = Vec::new();
    for c in it: text.chars()
        invariant
            it.seq() == text@,
            chars@ == text@.take(it.index() as int),
    {
        chars.push(c);
        assert(chars@ =~= text@.take(it.index() + 1));
    }
    assert(text@.take(text@.len() as int) =~= text@);
    chars
}

/// Whether two strings are the same.
pub fn same(a: &str, b: &str) -> (equal: bool)
    ensures
        equal == (a@ == b@),
{
    let left = chars_of(a);
    let right = chars_of(b);
    if left.len() != right.len() {
        return false;
    }
    for i in 0..left.len()
        invariant
            left@ == a@,
            right@ == b@,
            left@.len() == right@.len(),
            a@.take(i as int) == b@.take(i as int),
    {
        if left[i] != right[i] {
            return false;
        }
        assert(a@.take(i + 1) =~= b@.take(i + 1)) by {
            assert(a@.take(i + 1) =~= a@.take(i as int).push(a@[i as int]));
            assert(b@.take(i + 1) =~= b@.take(i as int).push(b@[i as int]));
        }
    }
    assert(a@.take(a@.len() as int) =~= a@);
    assert(b@.take(b@.len() as int) =~= b@);
    true
}

/// Whether a string begins with another.
pub fn starts_with(text: &str, prefix: &str) -> (begins: bool)
    ensures
        begins == prefix@.is_prefix_of(text@),
{
    let whole = chars_of(text);
    let part = chars_of(prefix);
    if part.len() > whole.len() {
        return false;
    }
    for i in 0..part.len()
        invariant
            whole@ == text@,
            part@ == prefix@,
            part@.len() <= whole@.len(),
            forall|k: int| 0 <= k < i ==> part@[k] == whole@[k],
    {
        if whole[i] != part[i] {
            assert(text@.take(prefix@.len() as int)[i as int] != prefix@[i as int]);
            return false;
        }
    }
    assert(prefix@ =~= text@.take(prefix@.len() as int));
    true
}

/// The part of a string without the white space around it.
pub fn trim(text: &str) -> (part: &str)
    ensures
        part@ == trimmed(text@),
{
    let chars = chars_of(text);
    let mut start: usize = 0;
    let mut end: usize = chars.len();
    assert(text@.subrange(0, end as int) =~= text@);
    while start < end && is_space(chars[start])
        invariant
            chars@ == text@,
            start <= end == chars@.len(),
            trimmed(text@) == trimmed(text@.subrange(start as int, end as int)),
        decreases end - start,
    {
        assert(text@.subrange(start as int, end as int).drop_first() =~= text@.subrange(
            start + 1,
            end as int,
        ));
        start = start + 1;
    }
    while start < end && is_space(chars[end - 1])
        invariant
            chars@ == text@,
            start <= end <= chars@.len(),
            start < end ==> !is_white_space(text@[start as int]),
            trimmed(text@) == trimmed(text@.subrange(start as int, end as int)),
        decreases end - start,
    {
        assert(text@.subrange(start as int, end as int).drop_last() =~= text@.subrange(
            start as int,
            end - 1,
        ));
        end = end - 1;
    }
    text.substring_char(start, end)
}

/// The part of a string up to the first occurrence of a character.
pub fn before(text: &str, end: char) -> (part: &str)
    ensures
        part@ == up_to(text@, end),
{
    let chars = chars_of(text);
    let mut i: usize = 0;
    while i < chars.len() && chars[i] != end
        invariant
            chars@ == text@,
            i <= chars@.len(),
            forall|k: int| 0 <= k < i ==> text@[k] != end,
        decreases chars@.len() - i,
    {
        i = i + 1;
    }
    proof {
        lemma_up_to(text@, end, i as int);
    }
    text.substring_char(0, i)
}

/// Text is cut where the character occurs for the first time.
pub proof fn lemma_up_to(text: Seq<char>, end: char, i: int)
    requires
        0 <= i <= text.len(),
        forall|k: int| 0 <= k < i ==> text[k] != end,
        i < text.len() ==> text[i] == end,
    ensures
        up_to(text, end) == text.subrange(0, i),
    decreases text.len(),
{
    if i > 0 {
        lemma_up_to(text.drop_first(), end, i - 1);
        assert(text.subrange(0, i) =~= seq![text.first()] + text.drop_first().subrange(0, i - 1));
    } else {
        assert(text.subrange(0, 0) =~= Seq::empty());
    }
}

/// Whether a text is nothing but white space.
pub open spec fn is_blank(text: Seq<char>) -> bool {
    forall|i: int| 0 <= i < text.len() ==> is_white_space(#[trigger] text[i])
}

/// White space around a text does not matter to what is left of it.
pub proof fn lemma_trimmed_ignores_blanks(left: Seq<char>, text: Seq<char>, right: Seq<char>)
    requires
        is_blank(left),
        is_blank(right),
    ensures
        trimmed(left + text + right) == trimmed(text),
    decreases left.len() + right.len(),
{
    let whole = left + text + right;
    if left.len() > 0 {
        assert(is_white_space(left[0]));
        assert(whole.drop_first() =~= left.drop_first() + text + right);
        lemma_trimmed_ignores_blanks(left.drop_first(), text, right);
    } else if right.len() > 0 {
        let shorter = text + right.drop_last();
        assert(is_white_space(right[right.len() - 1]));
        assert(whole =~= shorter.push(right.last()));
        lemma_trimmed_ignores_last(shorter, right.last());
        assert(shorter =~= left + text + right.drop_last());
        lemma_trimmed_ignores_blanks(left, text, right.drop_last());
    } else {
        assert(whole =~= text);
    }
}

proof fn lemma_trimmed_ignores_last(text: Seq<char>, last: char)
    requires
        is_white_space(last),
    ensures
        trimmed(text.push(last)) == trimmed(text),
    decreases text.len(),
{
    if text.len() == 0 {
        assert(text.push(last).drop_first() =~= text);
    } else if is_white_space(text.first()) {
        assert(text.push(last).drop_first() =~= text.drop_first().push(last));
        lemma_trimmed_ignores_last(text.drop_first(), last);
    } else {
        assert(text.push(last).drop_last() =~= text);
    }
}

/// What is cut does not depend on what follows the cut.
pub proof fn lemma_up_to_ignores_the_rest(text: Seq<char>, end: char, rest: Seq<char>)
    ensures
        up_to(text + seq![end] + rest, end) == up_to(text, end),
    decreases text.len(),
{
    let whole = text + seq![end] + rest;
    if text.len() > 0 && text.first() != end {
        assert(whole.drop_first() =~= text.drop_first() + seq![end] + rest);
        lemma_up_to_ignores_the_rest(text.drop_first(), end, rest);
    }
}

/// Text before which the character does not occur is kept.
pub proof fn lemma_up_to_keeps_the_start(start: Seq<char>, text: Seq<char>, end: char)
    requires
        !start.contains(end),
    ensures
        up_to(start + text, end) == start + up_to(text, end),
    decreases start.len(),
{
    if start.len() == 0 {
        assert(start + text =~= text);
        assert(start + up_to(text, end) =~= up_to(text, end));
    } else {
        assert(start[0] != end);
        assert(!start.drop_first().contains(end)) by {
            if start.drop_first().contains(end) {
                let i = choose|i: int| 0 <= i < start.len() - 1 && start.drop_first()[i] == end;
                assert(start[i + 1] == end);
            }
        }
        assert((start + text).drop_first() =~= start.drop_first() + text);
        lemma_up_to_keeps_the_start(start.drop_first(), text, end);
        assert(seq![start.first()] + (start.drop_first() + up_to(text, end)) =~= start + up_to(
            text,
            end,
        ));
    }
}

/// Text is cut in front of the first occurrence, so what is left holds none.
pub proof fn lemma_up_to_has_no_end(text: Seq<char>, end: char)
    ensures
        !up_to(text, end).contains(end),
        !text.contains(end) ==> up_to(text, end) == text,
        text.contains(end) ==> forall|rest: Seq<char>| #[trigger]
            up_to(text + rest, end) == up_to(text, end),
    decreases text.len(),
{
    if text.len() > 0 && text.first() != end {
        let tail = text.drop_first();
        lemma_up_to_has_no_end(tail, end);
        let cut = up_to(text, end);
        if cut.contains(end) {
            let i = choose|i: int| 0 <= i < cut.len() && cut[i] == end;
            assert(up_to(tail, end)[i - 1] == end);
        }
        if text.contains(end) {
            let i = choose|i: int| 0 <= i < text.len() && text[i] == end;
            assert(tail[i - 1] == end);
            assert forall|rest: Seq<char>| #[trigger] up_to(text + rest, end) == cut by {
                assert((text + rest).drop_first() =~= tail + rest);
                assert(up_to(tail + rest, end) == up_to(tail, end));
            }
        } else {
            if tail.contains(end) {
                let i = choose|i: int| 0 <= i < tail.len() && tail[i] == end;
                assert(text[i + 1] == end);
            }
            assert(cut =~= text);
        }
    } else if text.len() > 0 {
        assert(text[0] == end);
        assert forall|rest: Seq<char>| #[trigger] up_to(text + rest, end) == up_to(text, end) by {
            assert((text + rest).first() == end);
        }
    } else {
        assert(up_to(text, end) =~= text);
    }
}

/// The text of a digit.
fn digit_text(n: usize) -> (text: &'static str)
    requires
        n < 10,
    ensures
        text@ == seq![digit(n as nat)],
{
    proof {
        reveal_strlit("0");
        reveal_strlit("1");
        reveal_strlit("2");
        reveal_strlit("3");
        reveal_strlit("4");
        reveal_strlit("5");
        reveal_strlit("6");
        reveal_strlit("7");
        reveal_strlit("8");
        reveal_strlit("9");
    }
    let text = if n == 0 {
        "0"
    } else if n == 1 {
        "1"
    } else if n == 2 {
        "2"
    } else if n == 3 {
        "3"
    } else if n == 4 {
        "4"
    } else if n == 5 {
        "5"
    } else if n == 6 {
        "6"
    } else if n == 7 {
        "7"
    } else if n == 8 {
        "8"
    } else {
        "9"
    };
    assert(text@ =~= seq![digit(n as nat)]);
    text
}

/// A number in base ten.
pub fn decimal_text(n: usize) -> (text: String)
    ensures
        text@ == decimal(n as nat),
    decreases n,
{
    if n < 10 {
        digit_text(n).to_owned()
    } else {
        let text = decimal_text(n / 10).concat(digit_text(n % 10));
        assert(text@ =~= decimal((n / 10) as nat).push(digit((n % 10) as nat)));
        text
    }
}

/// Trimming takes off white space at both ends, all of it and nothing else: it
/// leaves a part of the text that begins and ends with something else, or
/// nothing. Gives how many characters go at either end.
pub proof fn law_trimming_takes_off_blanks(text: Seq<char>) -> (ends: (nat, nat))
    ensures
        ends.0 + ends.1 <= text.len(),
        trimmed(text) == text.subrange(ends.0 as int, text.len() - ends.1),
        is_blank(text.take(ends.0 as int)),
        is_blank(text.skip(text.len() - ends.1)),
        trimmed(text).len() > 0 ==> !is_white_space(trimmed(text).first()) && !is_white_space(
            trimmed(text).last(),
        ),
    decreases text.len(),
{
    if text.len() == 0 {
        assert(text.subrange(0, 0) =~= text);
        (0, 0)
    } else if is_white_space(text.first()) {
        let rest = text.drop_first();
        let (left, right) = law_trimming_takes_off_blanks(rest);
        assert(rest.subrange(left as int, rest.len() - right) =~= text.subrange(
            left as int + 1,
            text.len() - right,
        ));
        assert forall|i: int| 0 <= i < left + 1 implies is_white_space(text[i]) by {
            if i > 0 {
                assert(is_white_space(rest.take(left as int)[i - 1]));
            }
        }
        assert(text.skip(text.len() - right) =~= rest.skip(rest.len() - right));
        (left + 1, right)
    } else if is_white_space(text.last()) {
        let rest = text.drop_last();
        let (left, right) = law_trimming_takes_off_blanks(rest);
        assert(rest.subrange(left as int, rest.len() - right) =~= text.subrange(
            left as int,
            text.len() - (right + 1),
        ));
        assert(text.take(left as int) =~= rest.take(left as int));
        let tail = text.skip(text.len() - (right + 1));
        assert forall|i: int| 0 <= i < tail.len() implies is_white_space(tail[i]) by {
            if i < right {
                assert(is_white_space(rest.skip(rest.len() - right)[i]));
                assert(tail[i] == rest.skip(rest.len() - right)[i]);
            }
        }
        (left, right + 1)
    } else {
        assert(text.subrange(0, text.len() as int) =~= text);
        (0, 0)
    }
}

/// Cutting keeps the start of a text up to where a character occurs first: none
/// occurs in what is left, and one follows it, unless all is left.
pub proof fn law_text_is_cut_at_the_first(text: Seq<char>, end: char)
    ensures
        up_to(text, end).is_prefix_of(text),
        !up_to(text, end).contains(end),
        up_to(text, end).len() < text.len() ==> text[up_to(text, end).len() as int] == end,
    decreases text.len(),
{
    let cut = up_to(text, end);
    lemma_up_to_has_no_end(text, end);
    if text.len() > 0 && text.first() != end {
        let rest = text.drop_first();
        law_text_is_cut_at_the_first(rest, end);
        let shorter = up_to(rest, end);
        assert(shorter == rest.take(shorter.len() as int));
        assert(cut =~= text.take(cut.len() as int));
    } else {
        assert(cut =~= text.take(0));
    }
}

/// The number that digits stand for in base ten.
pub open spec fn number(digits: Seq<char>) -> nat
    decreases digits.len(),
{
    if digits.len() == 0 {
        0
    } else {
        (10 * number(digits.drop_last()) + (digits.last() as int - 48)) as nat
    }
}

/// Digits of a number stand for that number. All of them are digits, and none
/// at the start is superfluous.
pub proof fn law_digits_stand_for_the_number(n: nat)
    ensures
        number(decimal(n)) == n,
        decimal(n).len() > 0,
        forall|i: int| 0 <= i < decimal(n).len() ==> 48 <= #[trigger] decimal(n)[i] as int <= 57,
        n > 0 ==> decimal(n)[0] as int != 48,
        n == 0 ==> decimal(n).len() == 1,
    decreases n,
{
    let digits = decimal(n);
    reveal_with_fuel(number, 2);
    if n < 10 {
        assert(digits.drop_last() =~= Seq::empty());
        assert(digits[0] as int == 48 + n);
    } else {
        law_digits_stand_for_the_number(n / 10);
        let start = decimal(n / 10);
        assert(digits.drop_last() =~= start);
        assert(digits.last() as int == 48 + n % 10);
        assert(digits[0] == start[0]);
        assert forall|i: int| 0 <= i < digits.len() implies 48 <= #[trigger] digits[i] as int
            <= 57 by {
            if i < start.len() {
                assert(digits[i] == start[i]);
            }
        }
    }
}

/// The values of a list are those of its strings, one for one.
pub proof fn law_texts_are_one_for_one(strings: Seq<String>)
    ensures
        texts(strings).len() == strings.len(),
        forall|i: int| 0 <= i < strings.len() ==> #[trigger] texts(strings)[i] == strings[i]@,
{
}

} // verus!
