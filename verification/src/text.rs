//! Text as sequences of characters.

use vstd::prelude::*;

verus! {

/// Specifies `String::push`: the character is appended to the text.
pub assume_specification[ String::push ](text: &mut String, ch: char)
    ensures
        final(text)@ == old(text)@.push(ch),
;

/// The characters of a text.
pub fn chars_of(text: &str) -> (r: Vec<char>)
    ensures
        r@ == text@,
{
    let mut chars: Vec<char> = Vec::new();
    for ch in iter: text.chars()
        invariant
            chars@ == iter.seq().take(iter.index() as int),
            iter.seq() == text@,
    {
        chars.push(ch);
    }
    chars
}

/// The text of a sequence of characters.
pub fn text_of(chars: &[char]) -> (r: String)
    ensures
        r@ == chars@,
{
    let mut text: String = String::new();
    let mut i: usize = 0;
    while i < chars.len()
        invariant
            i <= chars@.len(),
            text@ == chars@.take(i as int),
        decreases chars@.len() - i,
    {
        text.push(chars[i]);
        i += 1;
    }
    assert(chars@.take(i as int) =~= chars@);
    text
}

/// Whether two texts have the same characters.
pub fn same_text(left: &str, right: &str) -> (r: bool)
    ensures
        r == (left@ == right@),
{
    left.to_owned() == right.to_owned()
}

/// Whether a character has the Unicode property White_Space.
pub open spec fn spec_is_white_space(ch: char) -> bool {
    ||| 0x09 <= ch as u32 <= 0x0D
    ||| ch as u32 == 0x20
    ||| ch as u32 == 0x85
    ||| ch as u32 == 0xA0
    ||| ch as u32 == 0x1680
    ||| 0x2000 <= ch as u32 <= 0x200A
    ||| ch as u32 == 0x2028
    ||| ch as u32 == 0x2029
    ||| ch as u32 == 0x202F
    ||| ch as u32 == 0x205F
    ||| ch as u32 == 0x3000
}

/// Whether a character has the Unicode property White_Space.
pub fn is_white_space(ch: char) -> (r: bool)
    ensures
        r == spec_is_white_space(ch),
{
    let code: u32 = ch as u32;
    (0x09 <= code && code <= 0x0D) || code == 0x20 || code == 0x85 || code == 0xA0 || code == 0x1680
        || (0x2000 <= code && code <= 0x200A) || code == 0x2028 || code == 0x2029 || code == 0x202F
        || code == 0x205F || code == 0x3000
}

/// Whether a text holds nothing but white space.
pub open spec fn spec_is_blank(text: Seq<char>) -> bool {
    forall|i: int| 0 <= i < text.len() ==> spec_is_white_space(#[trigger] text[i])
}

/// Whether a text holds nothing but white space.
pub fn is_blank(text: &str) -> (r: bool)
    ensures
        r == spec_is_blank(text@),
{
    let chars = chars_of(text);
    let mut i: usize = 0;
    while i < chars.len()
        invariant
            chars@ == text@,
            i <= chars@.len(),
            forall|j: int| 0 <= j < i ==> spec_is_white_space(#[trigger] chars@[j]),
        decreases chars@.len() - i,
    {
        if !is_white_space(chars[i]) {
            return false;
        }
        i += 1;
    }
    true
}

/// A character with ASCII capitals made small.
pub open spec fn ascii_lower(ch: char) -> char {
    if 'A' <= ch <= 'Z' {
        ((ch as u8 + 32) as u8) as char
    } else {
        ch
    }
}

/// A text with ASCII capitals made small.
pub open spec fn spec_to_ascii_lowercase(text: Seq<char>) -> Seq<char> {
    text.map_values(|ch: char| ascii_lower(ch))
}

/// A text with ASCII capitals made small.
pub fn to_ascii_lowercase(text: &str) -> (r: String)
    ensures
        r@ == spec_to_ascii_lowercase(text@),
{
    let chars = chars_of(text);
    let mut lower: String = String::new();
    let mut i: usize = 0;
    while i < chars.len()
        invariant
            chars@ == text@,
            i <= chars@.len(),
            lower@ == spec_to_ascii_lowercase(text@.take(i as int)),
        decreases chars@.len() - i,
    {
        let ch: char = chars[i];
        let small: char = if 'A' <= ch && ch <= 'Z' {
            (ch as u8 + 32) as char
        } else {
            ch
        };
        lower.push(small);
        i += 1;
    }
    assert(text@.take(i as int) =~= text@);
    lower
}

/// Whether a text begins with another.
pub open spec fn spec_starts_with(text: Seq<char>, prefix: Seq<char>) -> bool {
    prefix.len() <= text.len() && text.take(prefix.len() as int) == prefix
}

/// Whether a text ends with another.
pub open spec fn spec_ends_with(text: Seq<char>, suffix: Seq<char>) -> bool {
    suffix.len() <= text.len() && text.skip(text.len() - suffix.len()) == suffix
}

/// Whether a text begins with another.
pub fn starts_with(text: &str, prefix: &str) -> (r: bool)
    ensures
        r == spec_starts_with(text@, prefix@),
{
    let all = chars_of(text);
    let part = chars_of(prefix);
    if part.len() > all.len() {
        return false;
    }
    let mut i: usize = 0;
    while i < part.len()
        invariant
            all@ == text@,
            part@ == prefix@,
            i <= part@.len() <= all@.len(),
            forall|k: int| 0 <= k < i ==> all@[k] == part@[k],
        decreases part@.len() - i,
    {
        if all[i] != part[i] {
            assert(all@.take(part@.len() as int)[i as int] == all@[i as int]);
            return false;
        }
        i += 1;
    }
    assert(all@.take(part@.len() as int) =~= part@);
    true
}

/// Whether a text ends with another.
pub fn ends_with(text: &str, suffix: &str) -> (r: bool)
    ensures
        r == spec_ends_with(text@, suffix@),
{
    let all = chars_of(text);
    let part = chars_of(suffix);
    if part.len() > all.len() {
        return false;
    }
    let start: usize = all.len() - part.len();
    let mut i: usize = 0;
    while i < part.len()
        invariant
            all@ == text@,
            part@ == suffix@,
            start + part@.len() == all.len(),
            i <= part@.len(),
            forall|k: int| 0 <= k < i ==> all@[start + k] == part@[k],
        decreases part@.len() - i,
    {
        if all[start + i] != part[i] {
            assert(all@.skip(start as int)[i as int] == all@[start + i]);
            return false;
        }
        i += 1;
    }
    assert(all@.skip(start as int) =~= part@);
    true
}

/// The texts of a list of strings.
pub open spec fn texts(strings: Seq<String>) -> Seq<Seq<char>> {
    strings.map_values(|string: String| string@)
}

/// Whether some string of a list has the text.
pub fn list_contains(strings: &Vec<String>, text: &str) -> (r: bool)
    ensures
        r == texts(strings@).contains(text@),
{
    let mut i: usize = 0;
    while i < strings.len()
        invariant
            i <= strings@.len(),
            forall|k: int| 0 <= k < i ==> (#[trigger] strings@[k])@ != text@,
        decreases strings@.len() - i,
    {
        if same_text(strings[i].as_str(), text) {
            assert(texts(strings@)[i as int] == text@);
            return true;
        }
        i += 1;
    }
    assert forall|k: int| 0 <= k < texts(strings@).len() implies texts(strings@)[k] != text@ by {
        assert(strings@[k]@ != text@);
    }
    false
}

/// A decimal digit.
pub open spec fn digit_char(digit: int) -> char {
    ((0x30 + digit) as u8) as char
}

/// A number in decimal digits, without leading zeros.
pub open spec fn spec_decimal(value: nat) -> Seq<char>
    decreases value,
{
    if value < 10 {
        seq![digit_char(value as int)]
    } else {
        spec_decimal(value / 10).push(digit_char((value % 10) as int))
    }
}

/// A number in decimal digits, without leading zeros.
pub fn decimal(value: u64) -> (r: String)
    ensures
        r@ == spec_decimal(value as nat),
{
    decimal_wide(value as u128)
}

/// A number in decimal digits, without leading zeros.
pub fn decimal_wide(value: u128) -> (r: String)
    ensures
        r@ == spec_decimal(value as nat),
    decreases value,
{
    let digit: char = (0x30 + (value % 10) as u8) as char;
    if value < 10 {
        let mut text: String = String::new();
        text.push(digit);
        text
    } else {
        let mut text: String = decimal_wide(value / 10);
        text.push(digit);
        text
    }
}

/// Whether a character is an ASCII digit.
pub open spec fn is_digit(ch: char) -> bool {
    '0' <= ch <= '9'
}

/// Whether a text is made of ASCII digits, at least one.
pub open spec fn is_number(text: Seq<char>) -> bool {
    text.len() > 0 && forall|i: int| 0 <= i < text.len() ==> is_digit(#[trigger] text[i])
}

/// The value of a text of decimal digits.
pub open spec fn number_value(text: Seq<char>) -> nat
    decreases text.len(),
{
    if text.len() == 0 {
        0
    } else {
        (10 * number_value(text.drop_last()) + (text.last() as u32 - 0x30)) as nat
    }
}

/// The digits of a number that a text holds: all of it, or what follows a plus.
pub open spec fn number_digits(text: Seq<char>) -> Seq<char> {
    if text.len() > 0 && text[0] == '+' {
        text.skip(1)
    } else {
        text
    }
}

/// The number that a text holds: decimal digits, at least one, with a plus in
/// front or not. None for another text, and for a number of more than 64 bits.
pub open spec fn spec_parse_u64(text: Seq<char>) -> Option<u64> {
    let digits = number_digits(text);
    if is_number(digits) && number_value(digits) <= u64::MAX {
        Some(number_value(digits) as u64)
    } else {
        None
    }
}

proof fn lemma_number_value_grows(text: Seq<char>, n: int)
    requires
        forall|i: int| 0 <= i < text.len() ==> is_digit(#[trigger] text[i]),
        0 <= n <= text.len(),
    ensures
        number_value(text.take(n)) <= number_value(text),
    decreases text.len() - n,
{
    if n < text.len() {
        lemma_number_value_grows(text, n + 1);
        assert(text.take(n + 1).drop_last() =~= text.take(n));
        assert(is_digit(text[n]));
    } else {
        assert(text.take(n) =~= text);
    }
}

/// Reads a number from characters.
pub fn parse_u64_chars(text: &[char]) -> (r: Option<u64>)
    ensures
        r == spec_parse_u64(text@),
{
    let start: usize = if text.len() > 0 && text[0] == '+' {
        1
    } else {
        0
    };
    let ghost digits = number_digits(text@);
    assert(digits =~= text@.skip(start as int));
    if start >= text.len() {
        return None;
    }
    let mut value: u64 = 0;
    let mut i: usize = start;
    while i < text.len()
        invariant
            start <= i <= text@.len(),
            digits == text@.skip(start as int),
            digits == number_digits(text@),
            forall|k: int| 0 <= k < i - start ==> is_digit(#[trigger] digits[k]),
            value == number_value(digits.take(i - start)),
        decreases text@.len() - i,
    {
        let ch: char = text[i];
        assert(digits[i - start] == ch);
        if !('0' <= ch && ch <= '9') {
            return None;
        }
        let digit: u64 = ch as u64 - 0x30;
        proof {
            assert(digits.take(i - start + 1).drop_last() =~= digits.take(i - start));
            if is_number(digits) {
                lemma_number_value_grows(digits, i - start + 1);
            }
        }
        match value.checked_mul(10) {
            Some(tens) => match tens.checked_add(digit) {
                Some(sum) => {
                    value = sum;
                },
                None => {
                    return None;
                },
            },
            None => {
                return None;
            },
        }
        i += 1;
    }
    assert(digits.take(i - start) =~= digits);
    Some(value)
}

/// Reads a number from a text.
pub fn parse_u64(text: &str) -> (r: Option<u64>)
    ensures
        r == spec_parse_u64(text@),
{
    let chars = chars_of(text);
    parse_u64_chars(chars.as_slice())
}

proof fn lemma_decimal_is_number(value: nat)
    ensures
        is_number(spec_decimal(value)),
        number_value(spec_decimal(value)) == value,
        is_digit(spec_decimal(value)[0]),
    decreases value,
{
    if value < 10 {
        let text = spec_decimal(value);
        assert(text.drop_last() =~= Seq::<char>::empty());
        assert(number_value(text.drop_last()) == 0);
    } else {
        lemma_decimal_is_number(value / 10);
        let text = spec_decimal(value);
        assert(text.drop_last() =~= spec_decimal(value / 10));
    }
}

/// A number of 64 bits has at most twenty decimal digits.
pub proof fn lemma_decimal_is_short(value: u64)
    ensures
        spec_decimal(value as nat).len() <= 20,
{
    assert(vstd::arithmetic::power::pow(10, 20) == 100_000_000_000_000_000_000) by {
        reveal_with_fuel(vstd::arithmetic::power::pow, 21);
    }
    lemma_decimal_length(value as nat, 20);
}

proof fn lemma_decimal_length(value: nat, digits: nat)
    requires
        digits >= 1,
        value < vstd::arithmetic::power::pow(10, digits),
    ensures
        spec_decimal(value).len() <= digits,
    decreases digits,
{
    vstd::arithmetic::power::lemma_pow1(10);
    if value >= 10 && digits > 1 {
        vstd::arithmetic::power::lemma_pow_adds(10, (digits - 1) as nat, 1);
        lemma_decimal_length(value / 10, (digits - 1) as nat);
    }
}

/// Reading a number that was written in decimal digits gives it back.
pub proof fn written_numbers_are_read_back(value: u64)
    ensures
        spec_parse_u64(spec_decimal(value as nat)) == Some(value),
{
    lemma_decimal_is_number(value as nat);
    let text = spec_decimal(value as nat);
    assert(text[0] != '+');
    assert(number_digits(text) == text);
}

/// A hexadecimal digit in lower case.
pub open spec fn hex_char(digit: int) -> char {
    if digit < 10 {
        ((0x30 + digit) as u8) as char
    } else {
        ((0x57 + digit) as u8) as char
    }
}

/// Bytes as pairs of hexadecimal digits in lower case.
pub open spec fn spec_hex(bytes: Seq<u8>) -> Seq<char>
    decreases bytes.len(),
{
    if bytes.len() == 0 {
        Seq::empty()
    } else {
        spec_hex(bytes.drop_last()).push(hex_char(bytes.last() as int / 16)).push(
            hex_char(bytes.last() as int % 16),
        )
    }
}

fn hex_digit(digit: u8) -> (r: char)
    requires
        digit < 16,
    ensures
        r == hex_char(digit as int),
{
    if digit < 10 {
        (0x30 + digit) as char
    } else {
        (0x57 + digit) as char
    }
}

/// Bytes as pairs of hexadecimal digits in lower case.
pub fn hex(bytes: &[u8]) -> (r: String)
    ensures
        r@ == spec_hex(bytes@),
{
    let mut text: String = String::new();
    let mut i: usize = 0;
    while i < bytes.len()
        invariant
            i <= bytes@.len(),
            text@ == spec_hex(bytes@.take(i as int)),
        decreases bytes@.len() - i,
    {
        assert(bytes@.take(i + 1).drop_last() =~= bytes@.take(i as int));
        text.push(hex_digit(bytes[i] / 16));
        text.push(hex_digit(bytes[i] % 16));
        i += 1;
    }
    assert(bytes@.take(i as int) =~= bytes@);
    text
}

/// The position of the first `ch` in a text, from `i` on.
pub open spec fn first_position(text: Seq<char>, ch: char, i: int) -> Option<int>
    decreases text.len() - i,
{
    if i < 0 || i >= text.len() {
        None
    } else if text[i] == ch {
        Some(i)
    } else {
        first_position(text, ch, i + 1)
    }
}

/// The position of the first `ch` in a text.
pub fn find_char(text: &[char], ch: char) -> (r: Option<usize>)
    ensures
        match r {
            Some(at) => at < text@.len() && first_position(text@, ch, 0) == Some(at as int),
            None => first_position(text@, ch, 0) is None,
        },
{
    let mut i: usize = 0;
    while i < text.len()
        invariant
            i <= text@.len(),
            first_position(text@, ch, 0) == first_position(text@, ch, i as int),
        decreases text@.len() - i,
    {
        if text[i] == ch {
            return Some(i);
        }
        i += 1;
    }
    None
}

/// Characters of a text between two positions.
pub fn part_of(text: &[char], from: usize, to: usize) -> (r: Vec<char>)
    requires
        from <= to <= text@.len(),
    ensures
        r@ == text@.subrange(from as int, to as int),
{
    let mut part: Vec<char> = Vec::new();
    let mut i: usize = from;
    while i < to
        invariant
            from <= i <= to <= text@.len(),
            part@ == text@.subrange(from as int, i as int),
        decreases to - i,
    {
        part.push(text[i]);
        i += 1;
    }
    part
}

/// A text without the white space in front.
pub open spec fn trim_start(text: Seq<char>) -> Seq<char>
    decreases text.len(),
{
    if text.len() > 0 && spec_is_white_space(text[0]) {
        trim_start(text.skip(1))
    } else {
        text
    }
}

/// A text without the white space behind.
pub open spec fn trim_end(text: Seq<char>) -> Seq<char>
    decreases text.len(),
{
    if text.len() > 0 && spec_is_white_space(text.last()) {
        trim_end(text.drop_last())
    } else {
        text
    }
}

/// A text without the white space around it.
pub open spec fn spec_trim(text: Seq<char>) -> Seq<char> {
    trim_end(trim_start(text))
}

/// A text without the white space around it.
pub fn trim(text: &[char]) -> (r: Vec<char>)
    ensures
        r@ == spec_trim(text@),
{
    let ghost all = text@;
    let mut from: usize = 0;
    assert(all.skip(0) =~= all);
    while from < text.len() && is_white_space(text[from])
        invariant
            all == text@,
            from <= all.len(),
            trim_start(all) == trim_start(all.skip(from as int)),
        decreases all.len() - from,
    {
        assert(all.skip(from as int).skip(1) =~= all.skip(from + 1));
        from += 1;
    }
    let ghost rest = all.skip(from as int);
    assert(trim_start(all) == rest);
    let mut to: usize = text.len();
    assert(rest.take(to - from) =~= rest);
    while to > from && is_white_space(text[to - 1])
        invariant
            all == text@,
            rest == all.skip(from as int),
            from <= to <= all.len(),
            trim_end(rest) == trim_end(rest.take(to - from)),
        decreases to - from,
    {
        assert(rest.take(to - from).drop_last() =~= rest.take(to - from - 1));
        assert(rest.take(to - from).last() == text@[to - 1]);
        to -= 1;
    }
    proof {
        if to > from {
            assert(rest.take(to - from).last() == text@[to - 1]);
        }
        assert(rest.take(to - from) =~= all.subrange(from as int, to as int));
    }
    part_of(text, from, to)
}

/// Whether a character separates words in ASCII: space, tab, line feed, form feed
/// or carriage return.
pub open spec fn is_ascii_space(ch: char) -> bool {
    ch == ' ' || ch == '\t' || ch == '\n' || ch as u32 == 0x0C || ch == '\r'
}

/// The words of the characters from `i` on, where `word` was read before them.
pub open spec fn words_from(text: Seq<char>, i: int, word: Seq<char>) -> Seq<Seq<char>>
    decreases text.len() - i,
{
    if i < 0 || i >= text.len() {
        if word.len() > 0 {
            seq![word]
        } else {
            Seq::empty()
        }
    } else if !is_ascii_space(text[i]) {
        words_from(text, i + 1, word.push(text[i]))
    } else if word.len() > 0 {
        seq![word] + words_from(text, i + 1, Seq::empty())
    } else {
        words_from(text, i + 1, word)
    }
}

/// The words of a text, between ASCII white space.
pub open spec fn spec_words(text: Seq<char>) -> Seq<Seq<char>> {
    words_from(text, 0, Seq::empty())
}

/// The characters of a list of words.
pub open spec fn word_texts(words: Seq<Vec<char>>) -> Seq<Seq<char>> {
    words.map_values(|word: Vec<char>| word@)
}

/// The words of a text, between ASCII white space.
pub fn words(text: &[char]) -> (r: Vec<Vec<char>>)
    ensures
        word_texts(r@) == spec_words(text@),
{
    let mut found: Vec<Vec<char>> = Vec::new();
    let mut word: Vec<char> = Vec::new();
    let mut i: usize = 0;
    while i < text.len()
        invariant
            i <= text@.len(),
            spec_words(text@) == word_texts(found@) + words_from(text@, i as int, word@),
        decreases text@.len() - i,
    {
        let ch: char = text[i];
        if !(ch == ' ' || ch == '\t' || ch == '\n' || ch as u32 == 0x0C || ch == '\r') {
            word.push(ch);
        } else if word.len() > 0 {
            let ghost before = found@;
            let ghost done = word@;
            found.push(word);
            word = Vec::new();
            proof {
                assert(word_texts(found@) =~= word_texts(before).push(done));
                assert(word_texts(before) + (seq![done] + words_from(text@, i + 1, Seq::empty()))
                    =~= word_texts(before).push(done) + words_from(text@, i + 1, Seq::empty()));
            }
        }
        i += 1;
    }
    if word.len() > 0 {
        let ghost before = found@;
        let ghost done = word@;
        found.push(word);
        proof {
            assert(word_texts(found@) =~= word_texts(before).push(done));
            assert(word_texts(before) + seq![done] =~= word_texts(before).push(done));
        }
    } else {
        assert(word_texts(found@) + Seq::<Seq<char>>::empty() =~= word_texts(found@));
    }
    found
}

/// Whether a text stands before another in the order of their characters.
pub open spec fn text_before(left: Seq<char>, right: Seq<char>) -> bool
    decreases left.len(),
{
    if right.len() == 0 {
        false
    } else if left.len() == 0 {
        true
    } else if left[0] != right[0] {
        left[0] < right[0]
    } else {
        text_before(left.skip(1), right.skip(1))
    }
}

proof fn lemma_text_order(left: Seq<char>, right: Seq<char>)
    ensures
        !(text_before(left, right) && text_before(right, left)),
        text_before(left, right) || text_before(right, left) || left == right,
        !text_before(left, left),
    decreases left.len(),
{
    if left.len() > 0 && right.len() > 0 && left[0] == right[0] {
        lemma_text_order(left.skip(1), right.skip(1));
        if left.skip(1) == right.skip(1) {
            assert(left =~= seq![left[0]] + left.skip(1));
            assert(right =~= seq![right[0]] + right.skip(1));
        }
    }
    if left.len() > 0 {
        lemma_text_order(left.skip(1), left.skip(1));
    }
    if left.len() == 0 && right.len() == 0 {
        assert(left =~= right);
    }
}

proof fn lemma_text_order_transitive(a: Seq<char>, b: Seq<char>, c: Seq<char>)
    requires
        text_before(a, b),
        text_before(b, c),
    ensures
        text_before(a, c),
    decreases a.len(),
{
    if a.len() > 0 && b.len() > 0 && c.len() > 0 && a[0] == b[0] && b[0] == c[0] {
        lemma_text_order_transitive(a.skip(1), b.skip(1), c.skip(1));
    }
}

/// Whether a text stands before another in the order of their characters.
pub fn is_text_before(left: &str, right: &str) -> (r: bool)
    ensures
        r == text_before(left@, right@),
{
    let a = chars_of(left);
    let b = chars_of(right);
    let mut i: usize = 0;
    assert(a@.skip(0) =~= a@);
    assert(b@.skip(0) =~= b@);
    while i < a.len() && i < b.len()
        invariant
            a@ == left@,
            b@ == right@,
            i <= a@.len(),
            i <= b@.len(),
            text_before(left@, right@) == text_before(a@.skip(i as int), b@.skip(i as int)),
        decreases a@.len() - i,
    {
        assert(a@.skip(i as int).skip(1) =~= a@.skip(i + 1));
        assert(b@.skip(i as int).skip(1) =~= b@.skip(i + 1));
        if a[i] != b[i] {
            return a[i] < b[i];
        }
        i += 1;
    }
    i < b.len()
}

/// Whether the texts are in strict order.
pub open spec fn in_text_order(list: Seq<Seq<char>>) -> bool {
    forall|i: int, j: int| 0 <= i < j < list.len() ==> text_before(list[i], list[j])
}

/// Whether `sorted` holds the texts of `list`, each once, in order.
pub open spec fn is_sorted_set(sorted: Seq<Seq<char>>, list: Seq<Seq<char>>) -> bool {
    &&& in_text_order(sorted)
    &&& forall|text: Seq<char>| #[trigger] sorted.contains(text) <==> list.contains(text)
}

/// Sorts strings and drops those that occur again.
pub fn sort_and_dedup(list: Vec<String>) -> (r: Vec<String>)
    ensures
        is_sorted_set(texts(r@), texts(list@)),
        r@.len() == 0 <==> list@.len() == 0,
{
    let ghost all = texts(list@);
    let mut sorted: Vec<String> = Vec::new();
    let mut i: usize = 0;
    while i < list.len()
        invariant
            all == texts(list@),
            i <= list@.len(),
            i > 0 ==> sorted@.len() > 0,
            i == 0 ==> sorted@.len() == 0,
            is_sorted_set(texts(sorted@), all.take(i as int)),
        decreases list@.len() - i,
    {
        let text = list[i].as_str();
        let mut at: usize = 0;
        while at < sorted.len() && is_text_before(sorted[at].as_str(), text)
            invariant
                at <= sorted@.len(),
                forall|k: int| 0 <= k < at ==> text_before(#[trigger] texts(sorted@)[k], text@),
            decreases sorted@.len() - at,
        {
            assert(texts(sorted@)[at as int] == sorted@[at as int]@);
            at += 1;
        }
        let ghost before = texts(sorted@);
        let ghost prefix = all.take(i as int);
        let ghost longer = all.take(i + 1);
        assert(longer =~= prefix.push(text@));
        assert(all[i as int] == list@[i as int]@);
        proof {
            lemma_contains_push(prefix, text@);
        }
        if at < sorted.len() && same_text(sorted[at].as_str(), text) {
            proof {
                assert(before[at as int] == text@);
                assert forall|t: Seq<char>| #[trigger] before.contains(t) <==> longer.contains(
                    t,
                ) by {}
            }
        } else {
            sorted.insert(at, list[i].clone());
            proof {
                let after = texts(sorted@);
                assert(after =~= before.insert(at as int, text@));
                assert forall|a: int, b: int| 0 <= a < b < after.len() implies text_before(
                    after[a],
                    after[b],
                ) by {
                    if a == at {
                        assert(after[b] == before[b - 1]);
                        lemma_text_order(before[at as int], text@);
                        assert(before[at as int] == sorted@[at + 1]@);
                        if b - 1 > at {
                            assert(text_before(before[at as int], before[b - 1]));
                            lemma_text_order_transitive(text@, before[at as int], before[b - 1]);
                        }
                    } else if b == at {
                        assert(after[a] == before[a]);
                    } else {
                        let x = if a < at { a } else { a - 1 };
                        let y = if b < at { b } else { b - 1 };
                        assert(text_before(before[x], before[y]));
                    }
                }
                assert forall|t: Seq<char>| #[trigger] after.contains(t) <==> longer.contains(
                    t,
                ) by {
                    if after.contains(t) {
                        let k = choose|k: int| 0 <= k < after.len() && after[k] == t;
                        if k != at {
                            let x = if k < at { k } else { k - 1 };
                            assert(before[x] == t);
                            assert(before.contains(t));
                        }
                    }
                    if longer.contains(t) {
                        if t == text@ {
                            assert(after[at as int] == t);
                        } else {
                            assert(before.contains(t));
                            let x = choose|x: int| 0 <= x < before.len() && before[x] == t;
                            let k = if x < at { x } else { x + 1 };
                            assert(after[k] == t);
                        }
                    }
                }
            }
        }
        i += 1;
    }
    assert(all.take(i as int) =~= all);
    sorted
}

proof fn lemma_contains_push(list: Seq<Seq<char>>, text: Seq<char>)
    ensures
        forall|t: Seq<char>| #[trigger] list.push(text).contains(t) <==> list.contains(t) || t
            == text,
{
    let longer = list.push(text);
    assert forall|t: Seq<char>| #[trigger] longer.contains(t) <==> list.contains(t) || t == text by {
        if longer.contains(t) {
            let k = choose|k: int| 0 <= k < longer.len() && longer[k] == t;
            if k < list.len() {
                assert(list[k] == t);
            }
        }
        if list.contains(t) {
            let k = choose|k: int| 0 <= k < list.len() && list[k] == t;
            assert(longer[k] == t);
        }
        if t == text {
            assert(longer[list.len() as int] == t);
        }
    }
}

/// Letters from A to Z become their small ones, which lie 32 further, and nothing else
/// changes.
pub proof fn capitals_become_small(ch: char)
    ensures
        'A' <= ch <= 'Z' ==> 'a' <= ascii_lower(ch) <= 'z' && ascii_lower(ch) as u32 == ch as u32
            + 32,
        !('A' <= ch <= 'Z') ==> ascii_lower(ch) == ch,
{
}

/// A text starts with a prefix just where it is the prefix and something more, and ends
/// with a suffix just where it is something and the suffix.
pub proof fn prefixes_and_suffixes_join_with_the_rest(
    text: Seq<char>,
    part: Seq<char>,
    rest: Seq<char>,
)
    ensures
        spec_starts_with(part + rest, part),
        spec_ends_with(rest + part, part),
        spec_starts_with(text, part) ==> text == part + text.skip(part.len() as int),
        spec_ends_with(text, part) ==> text == text.take(text.len() - part.len()) + part,
{
    assert((part + rest).take(part.len() as int) =~= part);
    assert((rest + part).skip((rest + part).len() - part.len()) =~= part);
    if spec_starts_with(text, part) {
        assert(text =~= part + text.skip(part.len() as int));
    }
    if spec_ends_with(text, part) {
        assert(text =~= text.take(text.len() - part.len()) + part);
    }
}

/// A number is written in digits only, its last one telling the number modulo ten and
/// those before it the number of tens.
pub proof fn numbers_are_written_in_digits(value: nat, i: int)
    ensures
        ({
            let written = spec_decimal(value);
            &&& written.len() > 0
            &&& 0 <= i < written.len() ==> '0' <= written[i] <= '9'
            &&& written.last() as u32 == 0x30 + value % 10
            &&& value >= 10 ==> written.drop_last() == spec_decimal(value / 10)
            &&& value < 10 ==> written.len() == 1
        }),
    decreases value,
{
    let written = spec_decimal(value);
    if value >= 10 {
        numbers_are_written_in_digits(value / 10, i);
        assert(written.drop_last() =~= spec_decimal(value / 10));
    }
}

/// What a digit adds to a number read so far is its own value, and ten times what was read.
pub proof fn numbers_are_read_digit_by_digit(text: Seq<char>, digit: char)
    requires
        '0' <= digit <= '9',
    ensures
        number_value(Seq::<char>::empty()) == 0,
        number_value(text.push(digit)) == 10 * number_value(text) + (digit as u32 - 0x30),
{
    assert(text.push(digit).drop_last() =~= text);
}

/// A number is read with or without a plus before its digits; anything else than digits,
/// nothing at all, or a value that does not fit is not read.
pub proof fn numbers_are_read_with_an_optional_plus(text: Seq<char>)
    ensures
        spec_parse_u64(Seq::<char>::empty()) is None,
        text.len() > 0 && text[0] != '+' ==> {
            &&& (exists|i: int| 0 <= i < text.len() && !('0' <= #[trigger] text[i] <= '9'))
                ==> spec_parse_u64(text) is None
            &&& (forall|i: int| 0 <= i < text.len() ==> '0' <= #[trigger] text[i] <= '9') ==> {
                &&& number_value(text) <= u64::MAX ==> spec_parse_u64(text) is Some
                    && spec_parse_u64(text)->0 == number_value(text)
                &&& number_value(text) > u64::MAX ==> spec_parse_u64(text) is None
            }
            &&& spec_parse_u64(seq!['+'] + text) == spec_parse_u64(text)
        },
{
    assert((seq!['+'] + text).skip(1) =~= text);
}

/// A byte is written in two digits, the high half first, each from 0 to 9 or a to f.
pub proof fn bytes_are_written_in_two_digits(bytes: Seq<u8>, i: int)
    requires
        0 <= i < bytes.len(),
    ensures
        ({
            let written = spec_hex(bytes);
            let digit = |value: int|
                if value < 10 {
                    0x30 + value
                } else {
                    0x61 + value - 10
                };
            &&& written.len() == 2 * bytes.len()
            &&& written[2 * i] as u32 == digit(bytes[i] as int / 16)
            &&& written[2 * i + 1] as u32 == digit(bytes[i] as int % 16)
        }),
    decreases bytes.len(),
{
    let shorter = bytes.drop_last();
    if shorter.len() > 0 {
        bytes_are_written_in_two_digits(
            shorter,
            if i < shorter.len() {
                i
            } else {
                0
            },
        );
    }
    let rest = spec_hex(shorter);
    let written = spec_hex(bytes);
    assert(rest.len() == 2 * shorter.len());
    assert(written.len() == rest.len() + 2);
    if i < shorter.len() {
        assert(shorter[i] == bytes[i]);
        assert(written[2 * i] == rest[2 * i]);
        assert(written[2 * i + 1] == rest[2 * i + 1]);
    } else {
        assert(bytes.last() == bytes[i]);
        assert(written[2 * i] == hex_char(bytes[i] as int / 16));
        assert(written[2 * i + 1] == hex_char(bytes[i] as int % 16));
    }
}

/// The first position of a character is where it stands with none of it before; there is
/// none just where the text has none from there on.
pub proof fn first_positions_come_first(text: Seq<char>, ch: char, from: int)
    requires
        0 <= from <= text.len(),
    ensures
        match first_position(text, ch, from) {
            Some(at) => {
                &&& from <= at < text.len()
                &&& text[at] == ch
                &&& forall|k: int| from <= k < at ==> #[trigger] text[k] != ch
            },
            None => forall|k: int| from <= k < text.len() ==> #[trigger] text[k] != ch,
        },
    decreases text.len() - from,
{
    if from < text.len() {
        first_positions_come_first(text, ch, from + 1);
    }
}

/// Trimming at the start takes away white space only, up to the first character that is
/// none, and trimming at the end does so from there.
pub proof fn trimming_takes_white_space_at_the_ends(text: Seq<char>)
    ensures
        ({
            let started = trim_start(text);
            let ended = trim_end(text);
            &&& started.len() <= text.len() && text.skip(text.len() - started.len()) == started
            &&& forall|i: int|
                0 <= i < text.len() - started.len() ==> spec_is_white_space(#[trigger] text[i])
            &&& started.len() > 0 ==> !spec_is_white_space(started[0])
            &&& ended.len() <= text.len() && text.take(ended.len() as int) == ended
            &&& forall|i: int|
                ended.len() <= i < text.len() ==> spec_is_white_space(#[trigger] text[i])
            &&& ended.len() > 0 ==> !spec_is_white_space(ended[ended.len() - 1])
            &&& spec_trim(text) == trim_end(started)
        }),
    decreases text.len(),
{
    if text.len() > 0 && spec_is_white_space(text[0]) {
        let rest = text.skip(1);
        trimming_takes_white_space_at_the_ends(rest);
        let started = trim_start(rest);
        assert(text.skip(text.len() - started.len()) =~= rest.skip(rest.len() - started.len()));
        assert forall|i: int| 0 <= i < text.len() - started.len() implies spec_is_white_space(
            #[trigger] text[i],
        ) by {
            if i > 0 {
                assert(rest[i - 1] == text[i]);
            }
        }
    } else {
        assert(text.skip(0) =~= text);
    }
    if text.len() > 0 && spec_is_white_space(text.last()) {
        let rest = text.drop_last();
        trimming_takes_white_space_at_the_ends(rest);
        let ended = trim_end(rest);
        assert(text.take(ended.len() as int) =~= rest.take(ended.len() as int));
        assert forall|i: int| ended.len() <= i < text.len() implies spec_is_white_space(
            #[trigger] text[i],
        ) by {
            if i < text.len() - 1 {
                assert(rest[i] == text[i]);
            }
        }
    } else {
        assert(text.take(text.len() as int) =~= text);
    }
}

/// White space is what separates words, lines and pages; no letter, digit or sign of ASCII
/// is, and all of ASCII that is are the space and what goes from a tab to a carriage return.
pub proof fn ascii_white_space_is_spaces_and_breaks(ch: char)
    requires
        (ch as u32) < 0x80,
    ensures
        spec_is_white_space(ch) <==> ch == ' ' || 0x09 <= ch as u32 <= 0x0D,
        is_ascii_space(ch) <==> ch == ' ' || ch as u32 == 0x09 || ch as u32 == 0x0A || ch as u32
            == 0x0C || ch as u32 == 0x0D,
{
}

/// Words go on through all that is no space, and a space ends the word before it, if there
/// is one, so that no word is empty.
pub proof fn spaces_end_words(text: Seq<char>, i: int, word: Seq<char>)
    requires
        0 <= i <= text.len(),
    ensures
        ({
            let words = words_from(text, i, word);
            &&& i == text.len() && word.len() == 0 ==> words.len() == 0
            &&& i == text.len() && word.len() > 0 ==> words == seq![word]
            &&& i < text.len() && !is_ascii_space(text[i]) ==> words == words_from(
                text,
                i + 1,
                word.push(text[i]),
            )
            &&& i < text.len() && is_ascii_space(text[i]) && word.len() == 0 ==> words
                == words_from(text, i + 1, Seq::empty())
            &&& i < text.len() && is_ascii_space(text[i]) && word.len() > 0 ==> words
                == seq![word] + words_from(text, i + 1, Seq::empty())
            &&& forall|k: int| 0 <= k < words.len() ==> (#[trigger] words[k]).len() > 0
        }),
    decreases text.len() - i,
{
    if i < text.len() {
        if !is_ascii_space(text[i]) {
            spaces_end_words(text, i + 1, word.push(text[i]));
        } else {
            spaces_end_words(text, i + 1, Seq::empty());
            if word.len() == 0 {
                assert(word =~= Seq::<char>::empty());
            }
        }
    }
}

/// Texts are ordered by their first difference, a beginning before what goes on from it;
/// of two different ones just one comes first.
pub proof fn texts_are_ordered_by_their_first_difference(
    left: Seq<char>,
    right: Seq<char>,
    at: int,
)
    ensures
        !text_before(left, left),
        0 <= at < left.len() && at < right.len() && left.take(at) == right.take(at) && left[at]
            < right[at] ==> text_before(left, right) && !text_before(right, left),
        left.len() < right.len() && right.take(left.len() as int) == left ==> text_before(
            left,
            right,
        ),
        left != right ==> text_before(left, right) != text_before(right, left),
    decreases left.len(),
{
    if left.len() > 0 && right.len() > 0 {
        let l = left.skip(1);
        let r = right.skip(1);
        if left[0] == right[0] {
            texts_are_ordered_by_their_first_difference(l, r, at - 1);
            if l == r {
                assert(left =~= right) by {
                    assert forall|k: int| 0 <= k < left.len() implies left[k] == right[k] by {
                        if k > 0 {
                            assert(l[k - 1] == r[k - 1]);
                        }
                    }
                    assert(left.len() == l.len() + 1);
                    assert(right.len() == r.len() + 1);
                }
            }
            if left.len() < right.len() && right.take(left.len() as int) == left {
                assert(r.take(l.len() as int) =~= l) by {
                    assert forall|k: int| 0 <= k < l.len() implies r[k] == l[k] by {
                        assert(right.take(left.len() as int)[k + 1] == left[k + 1]);
                    }
                }
            }
            if 0 < at < left.len() && at < right.len() && left.take(at) == right.take(at) {
                assert(l.take(at - 1) =~= r.take(at - 1)) by {
                    assert forall|k: int| 0 <= k < at - 1 implies l[k] == r[k] by {
                        assert(left.take(at)[k + 1] == right.take(at)[k + 1]);
                    }
                }
            }
        } else {
            texts_are_ordered_by_their_first_difference(l, l, 0);
            if 0 < at < left.len() && at < right.len() && left.take(at) == right.take(at) {
                assert(left.take(at)[0] == right.take(at)[0]);
            }
            if left.len() < right.len() && right.take(left.len() as int) == left {
                assert(right.take(left.len() as int)[0] == left[0]);
            }
        }
        if !text_before(left, left) {
        } else {
            texts_are_ordered_by_their_first_difference(l, l, 0);
        }
    } else if left.len() == 0 && right.len() == 0 {
        assert(left =~= right);
    }
    if left.len() > 0 && right.len() == 0 {
        texts_are_ordered_by_their_first_difference(left.skip(1), left.skip(1), 0);
    }
}

/// A text is blank just where trimming leaves nothing of it.
pub proof fn blank_texts_are_trimmed_away(text: Seq<char>)
    ensures
        spec_is_blank(text) <==> spec_trim(text).len() == 0,
{
    trimming_takes_white_space_at_the_ends(text);
    let started = trim_start(text);
    trimming_takes_white_space_at_the_ends(started);
    if spec_is_blank(text) {
        if started.len() > 0 {
            assert(started[0] == text.skip(text.len() - started.len())[0]);
            assert(spec_is_white_space(text[text.len() - started.len()]));
        }
    } else {
        let i = choose|i: int| 0 <= i < text.len() && !spec_is_white_space(text[i]);
        assert(i >= text.len() - started.len());
        let k = i - (text.len() - started.len());
        assert(started[k] == text[i]);
    }
}

/// A run of characters without a space is taken into the word as it stands.
pub proof fn unbroken_runs_join_the_word(
    text: Seq<char>,
    from: int,
    to: int,
    word: Seq<char>,
)
    requires
        0 <= from <= to <= text.len(),
        forall|k: int| from <= k < to ==> !is_ascii_space(#[trigger] text[k]),
    ensures
        words_from(text, from, word) == words_from(text, to, word + text.subrange(from, to)),
    decreases to - from,
{
    if from < to {
        unbroken_runs_join_the_word(text, from + 1, to, word.push(text[from]));
        assert(word.push(text[from]) + text.subrange(from + 1, to) =~= word + text.subrange(
            from,
            to,
        ));
    } else {
        assert(word + text.subrange(from, to) =~= word);
    }
}

/// A sorted set holds just the texts of the list, each once, in order.
pub proof fn sorted_sets_hold_each_text_once(
    sorted: Seq<Seq<char>>,
    list: Seq<Seq<char>>,
    i: int,
    j: int,
    text: Seq<char>,
)
    requires
        is_sorted_set(sorted, list),
    ensures
        0 <= i < j < sorted.len() ==> text_before(sorted[i], sorted[j]),
        0 <= i < j < sorted.len() ==> sorted[i] != sorted[j],
        sorted.contains(text) <==> list.contains(text),
{
    if 0 <= i < j < sorted.len() {
        texts_are_ordered_by_their_first_difference(sorted[i], sorted[j], 0);
    }
}

} // verus!
