//! Working with text as a sequence of characters: finding a key, cutting out
//! the value behind it, taking the first word, and reading and writing
//! numbers in decimal.

use vstd::prelude::*;

verus! {

/// The characters of a text, one by one.
pub fn chars_of(text: &str) -> (chars: Vec<char>)
    ensures
        chars@ == text@,
{
    let mut chars: Vec<char> = Vec::new();
    for c in iter: text.chars()
        invariant
            iter.seq() == text@,
            chars@ == iter.seq().take(iter.index()),
    {
        chars.push(c);
        assert(iter.seq().take(iter.index() + 1) =~= iter.seq().take(iter.index()).push(c));
    }
    assert(text@.take(text@.len() as int) =~= text@);
    chars
}

/// Whether a character is white space: one of the characters with the
/// Unicode property `White_Space`.
pub open spec fn is_space(c: char) -> bool {
    let code = c as u32;
    ||| 0x09 <= code <= 0x0D
    ||| code == 0x20
    ||| code == 0x85
    ||| code == 0xA0
    ||| code == 0x1680
    ||| 0x2000 <= code <= 0x200A
    ||| code == 0x2028
    ||| code == 0x2029
    ||| code == 0x202F
    ||| code == 0x205F
    ||| code == 0x3000
}

/// Tells whether a character is white space.
pub fn is_whitespace(c: char) -> (space: bool)
    ensures
        space == is_space(c),
{
    let code: u32 = c as u32;
    (0x09 <= code && code <= 0x0D) || code == 0x20 || code == 0x85 || code == 0xA0 || code
        == 0x1680 || (0x2000 <= code && code <= 0x200A) || code == 0x2028 || code == 0x2029
        || code == 0x202F || code == 0x205F || code == 0x3000
}

/// Whether a text begins with a prefix.
pub open spec fn has_prefix(text: Seq<char>, prefix: Seq<char>) -> bool {
    prefix.len() <= text.len() && text.take(prefix.len() as int) == prefix
}

/// Whether a key stands in a text at a position.
pub open spec fn occurs_at(text: Seq<char>, key: Seq<char>, at: int) -> bool {
    0 <= at && at + key.len() <= text.len() && text.subrange(at, at + key.len()) == key
}

/// The first position at or after `from` at which a key stands in a text.
pub open spec fn first_occurrence(text: Seq<char>, key: Seq<char>, from: int) -> Option<int>
    decreases text.len() - from,
{
    if from < 0 || from + key.len() > text.len() {
        None
    } else if occurs_at(text, key, from) {
        Some(from)
    } else if from + key.len() == text.len() {
        None
    } else {
        first_occurrence(text, key, from + 1)
    }
}

/// The part of a text before the first occurrence of a key; the whole text
/// where the key does not occur.
pub open spec fn before_key(text: Seq<char>, key: Seq<char>) -> Seq<char> {
    match first_occurrence(text, key, 0) {
        Some(at) => text.take(at),
        None => text,
    }
}

/// The part of a text behind the first occurrence of a key, where the key
/// occurs.
pub open spec fn after_key(text: Seq<char>, key: Seq<char>) -> Option<Seq<char>> {
    match first_occurrence(text, key, 0) {
        Some(at) => Some(text.skip(at + key.len())),
        None => None,
    }
}

/// The part of a text between the first occurrence of a key and the next
/// one, or the end of the text where there is no next one.
pub open spec fn value_of(text: Seq<char>, key: Seq<char>) -> Option<Seq<char>> {
    match after_key(text, key) {
        Some(rest) => Some(before_key(rest, key)),
        None => None,
    }
}

/// How many characters of white space a text begins with.
pub open spec fn leading_spaces(text: Seq<char>) -> nat
    decreases text.len(),
{
    if text.len() > 0 && is_space(text[0]) {
        1 + leading_spaces(text.drop_first())
    } else {
        0
    }
}

/// How many characters other than white space a text begins with.
pub open spec fn leading_word(text: Seq<char>) -> nat
    decreases text.len(),
{
    if text.len() > 0 && !is_space(text[0]) {
        1 + leading_word(text.drop_first())
    } else {
        0
    }
}

/// The first word of a text: what stands between the white space that the
/// text begins with and the next white space or the end. There is none where
/// the text is nothing but white space.
pub open spec fn first_word(text: Seq<char>) -> Option<Seq<char>> {
    let rest = text.skip(leading_spaces(text) as int);
    if rest.len() == 0 {
        None
    } else {
        Some(rest.take(leading_word(rest) as int))
    }
}

/// Whether a character is one of the ten decimal digits.
pub open spec fn is_digit(c: char) -> bool {
    '0' as u32 <= c as u32 <= '9' as u32
}

/// Whether a text is made of decimal digits only.
pub open spec fn all_digits(digits: Seq<char>) -> bool {
    forall|i: int| 0 <= i < digits.len() ==> is_digit(#[trigger] digits[i])
}

/// The number that a decimal digit stands for.
pub open spec fn digit_value(c: char) -> nat {
    (c as u32 - '0' as u32) as nat
}

/// The number that a text of decimal digits stands for.
pub open spec fn digits_value(digits: Seq<char>) -> nat
    decreases digits.len(),
{
    if digits.len() == 0 {
        0
    } else {
        digits_value(digits.drop_last()) * 10 + digit_value(digits.last())
    }
}

/// The digits of a number written in decimal, with one `+` before them
/// allowed and taken off.
pub open spec fn unsigned_digits(word: Seq<char>) -> Seq<char> {
    if word.len() > 0 && word[0] == '+' {
        word.drop_first()
    } else {
        word
    }
}

/// The number that a word stands for, where it is a number written in
/// decimal that 64 bits hold: at least one digit, nothing but digits after
/// an optional `+`, and a value of at most `u64::MAX`.
pub open spec fn decimal(word: Seq<char>) -> Option<u64> {
    let digits = unsigned_digits(word);
    if digits.len() > 0 && all_digits(digits) && digits_value(digits) <= u64::MAX {
        Some(digits_value(digits) as u64)
    } else {
        None
    }
}

/// The character that writes a number below ten.
pub open spec fn digit_char(value: nat) -> char {
    ('0' as u32 + value as u32) as char
}

/// A number written in decimal, without sign and without leading zeros.
pub open spec fn decimal_text(value: nat) -> Seq<char>
    decreases value,
{
    if value < 10 {
        seq![digit_char(value)]
    } else {
        decimal_text(value / 10).push(digit_char(value % 10))
    }
}

/// Tells whether a text begins with a prefix.
pub fn starts_with(text: &[char], prefix: &[char]) -> (found: bool)
    ensures
        found == has_prefix(text@, prefix@),
{
    if prefix.len() > text.len() {
        return false;
    }
    let mut i: usize = 0;
    while i < prefix.len()
        invariant
            i <= prefix.len() <= text.len(),
            text@.take(i as int) == prefix@.take(i as int),
        decreases prefix.len() - i,
    {
        if text[i] != prefix[i] {
            assert(text@.take(prefix@.len() as int)[i as int] != prefix@[i as int]);
            return false;
        }
        assert(text@.take(i + 1) =~= text@.take(i as int).push(text@[i as int]));
        assert(prefix@.take(i + 1) =~= prefix@.take(i as int).push(prefix@[i as int]));
        i += 1;
    }
    assert(prefix@.take(i as int) =~= prefix@);
    true
}

/// The first occurrence is an occurrence, and the first: the key stands at
/// the position found and at none between `from` and it; where none is
/// found, the key stands nowhere at or after `from`.
pub proof fn lemma_first_occurrence(text: Seq<char>, key: Seq<char>, from: int)
    requires
        0 <= from,
    ensures
        match first_occurrence(text, key, from) {
            Some(at) => from <= at && occurs_at(text, key, at) && forall|k: int|
                from <= k < at ==> !occurs_at(text, key, k),
            None => forall|k: int| from <= k ==> !occurs_at(text, key, k),
        },
    decreases text.len() - from,
{
    if from + key.len() < text.len() && !occurs_at(text, key, from) {
        lemma_first_occurrence(text, key, from + 1);
    }
}

/// Finds the first position at which a key stands in a text.
pub fn find_key(text: &[char], key: &[char]) -> (found: Option<usize>)
    ensures
        match found {
            Some(at) => first_occurrence(text@, key@, 0) == Some(at as int) && at + key@.len()
                <= text@.len(),
            None => first_occurrence(text@, key@, 0) is None,
        },
{
    if key.len() > text.len() {
        return None;
    }
    let last: usize = text.len() - key.len();
    let mut at: usize = 0;
    loop
        invariant
            at <= last,
            last + key.len() == text.len(),
            first_occurrence(text@, key@, 0) == first_occurrence(text@, key@, at as int),
        decreases last - at,
    {
        let window = &text[at..at + key.len()];
        if starts_with(window, key) {
            assert(window@.take(key@.len() as int) =~= window@);
            return Some(at);
        }
        assert(window@.take(key@.len() as int) =~= window@);
        if at == last {
            return None;
        }
        at += 1;
    }
}

/// Cuts out the part of a text before the first occurrence of a key.
pub fn cut_before_key<'a>(text: &'a [char], key: &[char]) -> (part: &'a [char])
    ensures
        part@ == before_key(text@, key@),
{
    match find_key(text, key) {
        Some(at) => {
            let part = &text[0..at];
            assert(text@.subrange(0, at as int) =~= text@.take(at as int));
            part
        },
        None => text,
    }
}

/// Cuts out the part of a text behind the first occurrence of a key.
pub fn cut_after_key<'a>(text: &'a [char], key: &[char]) -> (part: Option<&'a [char]>)
    ensures
        match part {
            Some(rest) => after_key(text@, key@) == Some(rest@),
            None => after_key(text@, key@) is None,
        },
{
    match find_key(text, key) {
        Some(at) => {
            let end: usize = text.len();
            let rest = &text[at + key.len()..end];
            assert(text@.subrange(at + key@.len(), text@.len() as int) =~= text@.skip(
                at + key@.len(),
            ));
            Some(rest)
        },
        None => None,
    }
}

/// Cuts out the part of a text between the first occurrence of a key and
/// the next one.
pub fn cut_value<'a>(text: &'a [char], key: &[char]) -> (part: Option<&'a [char]>)
    ensures
        match part {
            Some(value) => value_of(text@, key@) == Some(value@),
            None => value_of(text@, key@) is None,
        },
{
    match cut_after_key(text, key) {
        Some(rest) => Some(cut_before_key(rest, key)),
        None => None,
    }
}

/// The white space that a text begins with goes on behind its first
/// `count` characters where they are white space.
proof fn lemma_leading_spaces_step(text: Seq<char>, count: nat)
    requires
        count <= text.len(),
        forall|i: int| 0 <= i < count ==> is_space(#[trigger] text[i]),
    ensures
        leading_spaces(text) == count + leading_spaces(text.skip(count as int)),
    decreases count,
{
    if count == 0 {
        assert(text.skip(0) =~= text);
    } else {
        let rest = text.drop_first();
        assert forall|i: int| 0 <= i < count - 1 implies is_space(#[trigger] rest[i]) by {
            assert(rest[i] == text[i + 1]);
        }
        lemma_leading_spaces_step(rest, (count - 1) as nat);
        assert(rest.skip(count - 1) =~= text.skip(count as int));
    }
}

/// The word that a text begins with goes on behind its first `count`
/// characters where none of them is white space.
proof fn lemma_leading_word_step(text: Seq<char>, count: nat)
    requires
        count <= text.len(),
        forall|i: int| 0 <= i < count ==> !is_space(#[trigger] text[i]),
    ensures
        leading_word(text) == count + leading_word(text.skip(count as int)),
    decreases count,
{
    if count == 0 {
        assert(text.skip(0) =~= text);
    } else {
        let rest = text.drop_first();
        assert forall|i: int| 0 <= i < count - 1 implies !is_space(#[trigger] rest[i]) by {
            assert(rest[i] == text[i + 1]);
        }
        lemma_leading_word_step(rest, (count - 1) as nat);
        assert(rest.skip(count - 1) =~= text.skip(count as int));
    }
}

/// Cuts out the first word of a text.
pub fn cut_first_word<'a>(text: &'a [char]) -> (part: Option<&'a [char]>)
    ensures
        match part {
            Some(word) => first_word(text@) == Some(word@),
            None => first_word(text@) is None,
        },
{
    let mut start: usize = 0;
    while start < text.len() && is_whitespace(text[start])
        invariant
            start <= text.len(),
            forall|i: int| 0 <= i < start ==> is_space(#[trigger] text@[i]),
        decreases text.len() - start,
    {
        start += 1;
    }
    proof {
        lemma_leading_spaces_step(text@, start as nat);
    }
    if start == text.len() {
        return None;
    }
    let rest = &text[start..text.len()];
    assert(rest@ =~= text@.skip(start as int));
    let mut end: usize = 0;
    while end < rest.len() && !is_whitespace(rest[end])
        invariant
            end <= rest.len(),
            forall|i: int| 0 <= i < end ==> !is_space(#[trigger] rest@[i]),
        decreases rest.len() - end,
    {
        end += 1;
    }
    proof {
        lemma_leading_word_step(rest@, end as nat);
    }
    let word = &rest[0..end];
    assert(word@ =~= rest@.take(end as int));
    Some(word)
}

/// A longer text of digits stands for no smaller number than its beginning.
proof fn lemma_prefix_value(digits: Seq<char>, count: int)
    requires
        0 <= count <= digits.len(),
    ensures
        digits_value(digits.take(count)) <= digits_value(digits),
    decreases digits.len() - count,
{
    if count == digits.len() {
        assert(digits.take(count) =~= digits);
    } else {
        lemma_prefix_value(digits.drop_last(), count);
        assert(digits.drop_last().take(count) =~= digits.take(count));
    }
}

/// Reads a number written in decimal.
pub fn parse_decimal(word: &[char]) -> (number: Option<u64>)
    ensures
        number == decimal(word@),
{
    let digits = if word.len() > 0 && word[0] == '+' {
        let end: usize = word.len();
        let rest = &word[1..end];
        assert(rest@ =~= word@.drop_first());
        rest
    } else {
        word
    };
    if digits.len() == 0 {
        return None;
    }
    let mut value: u64 = 0;
    let mut i: usize = 0;
    while i < digits.len()
        invariant
            i <= digits.len(),
            0 < digits@.len(),
            digits@ == unsigned_digits(word@),
            all_digits(digits@.take(i as int)),
            value == digits_value(digits@.take(i as int)),
        decreases digits.len() - i,
    {
        let code: u32 = digits[i] as u32;
        if code < 48 || code > 57 {
            assert(!is_digit(digits@[i as int]));
            return None;
        }
        let digit: u64 = (code - 48) as u64;
        proof {
            let longer = digits@.take(i + 1);
            assert(longer.drop_last() =~= digits@.take(i as int));
            assert(longer.last() == digits@[i as int]);
            assert(digits_value(longer) == value * 10 + digit);
            lemma_prefix_value(digits@, i + 1);
            assert forall|k: int| 0 <= k < longer.len() implies is_digit(#[trigger] longer[k]) by {
                if k < i {
                    assert(longer[k] == digits@.take(i as int)[k]);
                }
            }
        }
        match value.checked_mul(10) {
            Some(shifted) => match shifted.checked_add(digit) {
                Some(sum) => {
                    value = sum;
                },
                None => {
                    return None;
                },
            },
            None => {
                return None;
            },
        }
        i += 1;
    }
    assert(digits@.take(i as int) =~= digits@);
    Some(value)
}

/// The text that writes a number below ten.
fn digit_text(value: u64) -> (text: &'static str)
    requires
        value < 10,
    ensures
        text@ == seq![digit_char(value as nat)],
{
    proof {
        reveal_strlit("0");
        reveal_strlit("1");
        reveal_strlit("2");
        reveal_strlit("3");
        reveal_strlit("4");
        reveal_strlit("5");
        reveal_strlit("6");
        reveal_strlit("7");
        reveal_strlit("8");
        reveal_strlit("9");
    }
    let text = match value {
        0 => "0",
        1 => "1",
        2 => "2",
        3 => "3",
        4 => "4",
        5 => "5",
        6 => "6",
        7 => "7",
        8 => "8",
        _ => "9",
    };
    assert(text@ =~= seq![digit_char(value as nat)]);
    text
}

/// Writes a number in decimal.
pub fn write_decimal(value: u64) -> (text: String)
    ensures
        text@ == decimal_text(value as nat),
    decreases value,
{
    if value < 10 {
        digit_text(value).to_owned()
    } else {
        let mut text = write_decimal(value / 10);
        text.append(digit_text(value % 10));
        assert(text@ =~= decimal_text(value as nat / 10).push(digit_char(value as nat % 10)));
        text
    }
}

/// A number written in decimal is made of digits that stand for it.
proof fn lemma_decimal_text_value(value: nat)
    ensures
        decimal_text(value).len() > 0,
        all_digits(decimal_text(value)),
        digits_value(decimal_text(value)) == value,
    decreases value,
{
    let text = decimal_text(value);
    if value < 10 {
        assert(text.drop_last() =~= Seq::<char>::empty());
        assert(digits_value(text.drop_last()) == 0);
    } else {
        lemma_decimal_text_value(value / 10);
        assert(text.drop_last() =~= decimal_text(value / 10));
        assert forall|i: int| 0 <= i < text.len() implies is_digit(#[trigger] text[i]) by {
            if i < text.len() - 1 {
                assert(text[i] == decimal_text(value / 10)[i]);
            }
        }
    }
}

/// Reading undoes writing: a number written in decimal reads back as itself.
pub proof fn lemma_decimal_round_trip(value: u64)
    ensures
        decimal(decimal_text(value as nat)) == Some(value),
{
    lemma_decimal_text_value(value as nat);
}

} // verus!
