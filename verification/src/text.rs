//! Text helpers: characters, decimal numbers, trimming and splitting.

use vstd::prelude::*;

verus! {

/// `String::push` appends one character to the end of the string.
pub assume_specification[ String::push ](s: &mut String, c: char)
    ensures
        final(s)@ == old(s)@.push(c),
;

/// The contents of a list of strings.
pub open spec fn texts(list: Seq<String>) -> Seq<Seq<char>> {
    list.map_values(|s: String| s@)
}

/// The contents of a list of character vectors.
pub open spec fn parts(list: Seq<Vec<char>>) -> Seq<Seq<char>> {
    list.map_values(|v: Vec<char>| v@)
}

/// The characters of a string, in order.
pub fn chars_of(s: &str) -> (chars: Vec<char>)
    ensures
        chars@ == s@,
{
    let mut chars: Vec<char> = Vec::new();
    for c in it: s.chars()
        invariant
            chars@ == it.seq().take(it.index()),
            it.seq() == s@,
    {
        chars.push(c);
    }
    chars
}

/// The string made of the given characters.
pub fn text_of(chars: &Vec<char>) -> (s: String)
    ensures
        s@ == chars@,
{
    let mut s = String::new();
    let mut i: usize = 0;
    while i < chars.len()
        invariant
            i <= chars.len(),
            s@ == chars@.take(i as int),
        decreases chars.len() - i,
    {
        s.push(chars[i]);
        i = i + 1;
    }
    proof {
        assert(chars@.take(chars@.len() as int) == chars@);
    }
    s
}

/// Whether two character vectors hold the same characters.
pub fn same_chars(a: &Vec<char>, b: &Vec<char>) -> (same: bool)
    ensures
        same == (a@ == b@),
{
    if a.len() != b.len() {
        return false;
    }
    let mut i: usize = 0;
    while i < a.len()
        invariant
            i <= a.len(),
            a.len() == b.len(),
            forall|j: int| 0 <= j < i ==> a@[j] == b@[j],
        decreases a.len() - i,
    {
        if a[i] != b[i] {
            return false;
        }
        i = i + 1;
    }
    proof {
        assert(a@ =~= b@);
    }
    true
}

/// Whether two strings hold the same characters.
pub fn same_text(a: &str, b: &str) -> (same: bool)
    ensures
        same == (a@ == b@),
{
    same_chars(&chars_of(a), &chars_of(b))
}

/// A copy of the characters from `from` up to but not including `to`.
pub fn chars_between(chars: &Vec<char>, from: usize, to: usize) -> (cut: Vec<char>)
    requires
        from <= to <= chars.len(),
    ensures
        cut@ == chars@.subrange(from as int, to as int),
{
    let mut cut: Vec<char> = Vec::new();
    let mut i: usize = from;
    while i < to
        invariant
            from <= i <= to <= chars.len(),
            cut@ == chars@.subrange(from as int, i as int),
        decreases to - i,
    {
        cut.push(chars[i]);
        i = i + 1;
    }
    cut
}

// Decimal numbers.

/// Whether a character is an ASCII decimal digit.
pub open spec fn is_digit(c: char) -> bool {
    '0' <= c <= '9'
}

/// The character of a digit from 0 to 9.
pub open spec fn digit_char(d: nat) -> char {
    (48 + d) as char
}

/// A number in decimal notation, without sign or leading zeros.
pub open spec fn decimal(n: nat) -> Seq<char>
    decreases n,
{
    if n < 10 {
        seq![digit_char(n)]
    } else {
        decimal(n / 10).push(digit_char(n % 10))
    }
}

/// The value of a string of decimal digits; 0 for the empty one.
pub open spec fn number(s: Seq<char>) -> nat
    decreases s.len(),
{
    if s.len() == 0 {
        0
    } else {
        number(s.drop_last()) * 10 + (s.last() as nat - 48) as nat
    }
}

/// Whether every character is a decimal digit.
pub open spec fn all_digits(s: Seq<char>) -> bool {
    forall|i: int| 0 <= i < s.len() ==> is_digit(#[trigger] s[i])
}

/// The digits that a string starts with, as many as there are.
pub open spec fn leading_digits(s: Seq<char>) -> Seq<char>
    decreases s.len(),
{
    if s.len() == 0 {
        s
    } else {
        let init = leading_digits(s.drop_last());
        if init.len() == s.len() - 1 && is_digit(s.last()) {
            s
        } else {
            init
        }
    }
}

/// Why a text is not an integer of the wanted type.
#[derive(Debug, Clone, Copy, PartialEq, Eq, Structural)]
pub enum IntError {
    Empty,
    InvalidDigit,
    PosOverflow,
}

/// What the standard library says of a text that is not an integer.
pub open spec fn int_error_text(e: IntError) -> Seq<char> {
    match e {
        IntError::Empty => "cannot parse integer from empty string"@,
        IntError::InvalidDigit => "invalid digit found in string"@,
        IntError::PosOverflow => "number too large to fit in target type"@,
    }
}

pub fn int_error_message(e: IntError) -> (text: &'static str)
    ensures
        text@ == int_error_text(e),
{
    match e {
        IntError::Empty => "cannot parse integer from empty string",
        IntError::InvalidDigit => "invalid digit found in string",
        IntError::PosOverflow => "number too large to fit in target type",
    }
}

/// Reads digits only: their value, if there is a digit, nothing else and the value is at
/// most `max`. The digits before the first other character decide whether it is too large.
pub open spec fn digits_as_number(s: Seq<char>, max: nat) -> Result<nat, IntError> {
    let digits = leading_digits(s);
    if number(digits) > max {
        Err(IntError::PosOverflow)
    } else if digits.len() == 0 || digits.len() < s.len() {
        Err(IntError::InvalidDigit)
    } else {
        Ok(number(digits))
    }
}

/// Reads an unsigned integer: an optional `+` and digits, at most `max`.
pub open spec fn as_unsigned(s: Seq<char>, max: nat) -> Result<nat, IntError> {
    if s.len() == 0 {
        Err(IntError::Empty)
    } else if s[0] == '+' {
        digits_as_number(s.skip(1), max)
    } else {
        digits_as_number(s, max)
    }
}

/// Reads a signed 64-bit integer: an optional sign and digits.
pub open spec fn as_signed(s: Seq<char>) -> Option<int> {
    if s.len() > 0 && s[0] == '-' {
        match digits_as_number(s.skip(1), 0x8000_0000_0000_0000) {
            Ok(n) => Some(-n),
            Err(_) => None,
        }
    } else {
        match as_unsigned(s, i64::MAX as nat) {
            Ok(n) => Some(n as int),
            Err(_) => None,
        }
    }
}

/// A start of a text, one character longer.
proof fn lemma_take_step(s: Seq<char>, i: int)
    requires
        0 <= i < s.len(),
    ensures
        s.take(i + 1).drop_last() == s.take(i),
        s.take(i + 1).last() == s[i],
{
    assert(s.take(i + 1).drop_last() =~= s.take(i));
}

/// A longer run of digits does not have a smaller value.
proof fn lemma_number_grows(s: Seq<char>, i: int, j: int)
    requires
        0 <= i <= j <= s.len(),
        all_digits(s.take(j)),
    ensures
        number(s.take(i)) <= number(s.take(j)),
    decreases j - i,
{
    if i < j {
        lemma_take_step(s, j - 1);
        assert(all_digits(s.take(j - 1))) by {
            assert forall|k: int| 0 <= k < s.take(j - 1).len() implies is_digit(
                #[trigger] s.take(j - 1)[k],
            ) by {
                assert(s.take(j)[k] == s.take(j - 1)[k]);
            }
        }
        lemma_number_grows(s, i, j - 1);
    }
}

/// The leading digits are digits, a prefix, and end where a non-digit or the end stands.
proof fn lemma_leading_digits(s: Seq<char>)
    ensures
        leading_digits(s).len() <= s.len(),
        leading_digits(s) == s.take(leading_digits(s).len() as int),
        all_digits(leading_digits(s)),
        leading_digits(s).len() < s.len() ==> !is_digit(s[leading_digits(s).len() as int]),
    decreases s.len(),
{
    if s.len() > 0 {
        let init = s.drop_last();
        lemma_leading_digits(init);
        let run = leading_digits(init);
        assert(s.take(s.len() as int) =~= s);
        if run.len() == init.len() {
            assert(run =~= init);
            assert(s.take(run.len() as int) =~= init);
            assert forall|k: int| 0 <= k < s.len() && is_digit(s.last()) implies is_digit(
                #[trigger] s[k],
            ) by {
                if k < run.len() {
                    assert(run[k] == s[k]);
                }
            }
        } else {
            assert(s.take(run.len() as int) =~= init.take(run.len() as int));
            assert(s[run.len() as int] == init[run.len() as int]);
        }
    } else {
        assert(s.take(0) =~= s);
    }
}

/// A prefix of digits that a non-digit or the end follows is all the leading digits.
proof fn lemma_leading_digits_are(s: Seq<char>, n: int)
    requires
        0 <= n <= s.len(),
        all_digits(s.take(n)),
        n < s.len() ==> !is_digit(s[n]),
    ensures
        leading_digits(s) == s.take(n),
{
    lemma_leading_digits(s);
    let run = leading_digits(s);
    if run.len() < n {
        assert(s.take(n)[run.len() as int] == s[run.len() as int]);
    } else if run.len() > n {
        assert(run[n] == s[n]);
    }
}

/// A prefix of digits is a prefix of the leading digits.
proof fn lemma_leading_digits_cover(s: Seq<char>, n: int)
    requires
        0 <= n <= s.len(),
        all_digits(s.take(n)),
    ensures
        n <= leading_digits(s).len(),
        number(s.take(n)) <= number(leading_digits(s)),
{
    lemma_leading_digits(s);
    let run = leading_digits(s);
    if run.len() < n {
        assert(s.take(n)[run.len() as int] == s[run.len() as int]);
    }
    lemma_number_grows(s, n, run.len() as int);
}

/// Reads the characters from `from` on as digits, with a value of at most `max`.
fn parse_digits(chars: &Vec<char>, from: usize, max: u64) -> (r: Result<u64, IntError>)
    requires
        from <= chars.len(),
    ensures
        match r {
            Ok(n) => digits_as_number(chars@.skip(from as int), max as nat) == Ok::<nat, IntError>(
                n as nat,
            ),
            Err(e) => digits_as_number(chars@.skip(from as int), max as nat) == Err::<nat, IntError>(e),
        },
{
    let ghost s = chars@.skip(from as int);
    let mut i: usize = from;
    let mut value: u64 = 0;
    while i < chars.len()
        invariant
            from <= i <= chars.len(),
            s == chars@.skip(from as int),
            all_digits(s.take(i - from)),
            value == number(s.take(i - from)),
            value <= max,
        decreases chars.len() - i,
    {
        let c = chars[i];
        assert(c == s[i - from]);
        if !('0' <= c && c <= '9') {
            proof {
                lemma_leading_digits_are(s, i - from);
            }
            return Err(IntError::InvalidDigit);
        }
        let d: u64 = (c as u32 - 48) as u64;
        proof {
            lemma_take_step(s, i - from);
            assert forall|k: int| 0 <= k < s.take(i - from + 1).len() implies is_digit(
                #[trigger] s.take(i - from + 1)[k],
            ) by {
                if k < i - from {
                    assert(s.take(i - from)[k] == s[k]);
                }
            }
        }
        if d > max || value > max / 10 || value * 10 > max - d {
            proof {
                lemma_leading_digits_cover(s, i - from + 1);
            }
            return Err(IntError::PosOverflow);
        }
        value = value * 10 + d;
        i = i + 1;
    }
    proof {
        lemma_leading_digits_are(s, s.len() as int);
        assert(s.take(s.len() as int) =~= s);
    }
    if i == from {
        return Err(IntError::InvalidDigit);
    }
    Ok(value)
}

/// Reads an unsigned integer of at most `max` the way the standard library reads one.
pub fn parse_unsigned(chars: &Vec<char>, max: u64) -> (r: Result<u64, IntError>)
    ensures
        match r {
            Ok(n) => as_unsigned(chars@, max as nat) == Ok::<nat, IntError>(n as nat),
            Err(e) => as_unsigned(chars@, max as nat) == Err::<nat, IntError>(e),
        },
{
    if chars.len() == 0 {
        return Err(IntError::Empty);
    }
    proof {
        assert(chars@.skip(0) =~= chars@);
    }
    if chars[0] == '+' {
        parse_digits(chars, 1, max)
    } else {
        parse_digits(chars, 0, max)
    }
}

/// Reads a signed 64-bit integer the way the standard library reads one.
pub fn parse_signed(chars: &Vec<char>) -> (r: Option<i64>)
    ensures
        match r {
            Some(n) => as_signed(chars@) == Some(n as int),
            None => as_signed(chars@) is None,
        },
{
    if chars.len() > 0 && chars[0] == '-' {
        match parse_digits(chars, 1, 0x8000_0000_0000_0000) {
            Ok(n) => if n == 0x8000_0000_0000_0000 {
                Some(i64::MIN)
            } else {
                Some(-(n as i64))
            },
            Err(_) => None,
        }
    } else {
        match parse_unsigned(chars, i64::MAX as u64) {
            Ok(n) => Some(n as i64),
            Err(_) => None,
        }
    }
}

/// A number in decimal notation, as `ToString` writes it.
pub fn decimal_text(n: u64) -> (s: String)
    ensures
        s@ == decimal(n as nat),
    decreases n,
{
    let last: u8 = (n % 10) as u8;
    let c: char = (48 + last) as char;
    if n < 10 {
        let mut s = String::new();
        s.push(c);
        s
    } else {
        let mut s = decimal_text(n / 10);
        s.push(c);
        s
    }
}

/// Reading what was written: the decimal notation of a number consists of digits only,
/// starts with one, and reads back as the same number wherever it is not too large.
pub proof fn law_decimal_reads_back(n: nat, max: nat)
    requires
        n <= max,
    ensures
        as_unsigned(decimal(n), max) == Ok::<nat, IntError>(n),
{
    lemma_decimal_digits(n);
    let s = decimal(n);
    lemma_leading_digits_are(s, s.len() as int);
    assert(s.take(s.len() as int) =~= s);
    assert(is_digit(s[0]));
}

/// Two numbers with the same decimal notation are the same number.
pub proof fn law_decimal_injective(a: nat, b: nat)
    requires
        decimal(a) == decimal(b),
    ensures
        a == b,
{
    lemma_decimal_digits(a);
    lemma_decimal_digits(b);
}

/// The decimal notation is a nonempty string of digits with the number as its value.
pub(crate) proof fn lemma_decimal_digits(n: nat)
    ensures
        decimal(n).len() > 0,
        all_digits(decimal(n)),
        number(decimal(n)) == n,
    decreases n,
{
    let s = decimal(n);
    if n < 10 {
        assert(s.drop_last() =~= Seq::empty());
        assert(number(s.drop_last()) == 0);
        assert(s.last() as nat == 48 + n);
    } else {
        lemma_decimal_digits(n / 10);
        assert(s.drop_last() =~= decimal(n / 10));
        assert(s.last() as nat == 48 + n % 10);
    }
}

// Trimming, splitting, prefixes.

/// Whether a character has the Unicode property `White_Space`.
pub open spec fn is_white_space(c: char) -> bool {
    ||| 0x09 <= c as int <= 0x0d
    ||| c as int == 0x20
    ||| c as int == 0x85
    ||| c as int == 0xa0
    ||| c as int == 0x1680
    ||| 0x2000 <= c as int <= 0x200a
    ||| 0x2028 <= c as int <= 0x2029
    ||| c as int == 0x202f
    ||| c as int == 0x205f
    ||| c as int == 0x3000
}

fn white_space(c: char) -> (white: bool)
    ensures
        white == is_white_space(c),
{
    let n: u32 = c as u32;
    (0x09 <= n && n <= 0x0d) || n == 0x20 || n == 0x85 || n == 0xa0 || n == 0x1680 || (0x2000 <= n
        && n <= 0x200a) || n == 0x2028 || n == 0x2029 || n == 0x202f || n == 0x205f || n == 0x3000
}

/// A text without the white space it starts with.
pub open spec fn trimmed_front(s: Seq<char>) -> Seq<char>
    decreases s.len(),
{
    if s.len() > 0 && is_white_space(s[0]) {
        trimmed_front(s.skip(1))
    } else {
        s
    }
}

/// A text without the white space it ends with.
pub open spec fn trimmed_back(s: Seq<char>) -> Seq<char>
    decreases s.len(),
{
    if s.len() > 0 && is_white_space(s.last()) {
        trimmed_back(s.drop_last())
    } else {
        s
    }
}

/// A text without the white space at both ends.
pub open spec fn trimmed(s: Seq<char>) -> Seq<char> {
    trimmed_back(trimmed_front(s))
}

/// Takes the white space off both ends.
pub fn trim(chars: &Vec<char>) -> (t: Vec<char>)
    ensures
        t@ == trimmed(chars@),
{
    let mut from: usize = 0;
    proof {
        assert(chars@.skip(0) =~= chars@);
    }
    while from < chars.len() && white_space(chars[from])
        invariant
            from <= chars.len(),
            trimmed_front(chars@.skip(from as int)) == trimmed_front(chars@),
        decreases chars.len() - from,
    {
        proof {
            assert(chars@.skip(from as int).skip(1) =~= chars@.skip(from + 1));
            assert(chars@.skip(from as int)[0] == chars@[from as int]);
        }
        from = from + 1;
    }
    let ghost front = chars@.skip(from as int);
    let mut to: usize = chars.len();
    proof {
        if from < chars.len() {
            assert(front[0] == chars@[from as int]);
        }
        assert(front.take(front.len() as int) =~= front);
    }
    while to > from && white_space(chars[to - 1])
        invariant
            from <= to <= chars.len(),
            front == chars@.skip(from as int),
            trimmed_back(front.take(to - from)) == trimmed_back(front),
        decreases to,
    {
        proof {
            lemma_take_step(front, to - from - 1);
        }
        to = to - 1;
    }
    proof {
        if from < to {
            lemma_take_step(front, to - from - 1);
        }
        assert(chars@.subrange(from as int, to as int) =~= front.take(to - from));
    }
    chars_between(chars, from, to)
}

/// The parts of a text between the occurrences of a separator. There is always at least one.
pub open spec fn split_at_each(s: Seq<char>, sep: char) -> Seq<Seq<char>>
    decreases s.len(),
{
    if s.len() == 0 {
        seq![Seq::empty()]
    } else {
        let init = split_at_each(s.drop_last(), sep);
        if s.last() == sep {
            init.push(Seq::empty())
        } else {
            init.drop_last().push(init.last().push(s.last()))
        }
    }
}

/// A text without the separator is its only part.
pub(crate) proof fn lemma_split_whole(s: Seq<char>, sep: char)
    requires
        forall|i: int| 0 <= i < s.len() ==> #[trigger] s[i] != sep,
    ensures
        split_at_each(s, sep) == seq![s],
    decreases s.len(),
{
    if s.len() == 0 {
        assert(s =~= Seq::empty());
    } else {
        let init = s.drop_last();
        assert forall|i: int| 0 <= i < init.len() implies #[trigger] init[i] != sep by {
            assert(init[i] == s[i]);
        }
        lemma_split_whole(init, sep);
        assert(s[s.len() - 1] != sep);
        assert(init.push(s.last()) =~= s);
        let before = split_at_each(init, sep);
        assert(before.drop_last().push(before.last().push(s.last())) =~= seq![s]);
    }
}

/// Two texts without the separator, joined by it, are the two parts.
pub(crate) proof fn lemma_split_pair(a: Seq<char>, b: Seq<char>, sep: char)
    requires
        forall|i: int| 0 <= i < a.len() ==> #[trigger] a[i] != sep,
        forall|i: int| 0 <= i < b.len() ==> #[trigger] b[i] != sep,
    ensures
        split_at_each(a.push(sep) + b, sep) == seq![a, b],
    decreases b.len(),
{
    let s = a.push(sep) + b;
    if b.len() == 0 {
        assert(b =~= Seq::empty());
        assert(s =~= a.push(sep));
        assert(s.drop_last() =~= a);
        lemma_split_whole(a, sep);
        assert(split_at_each(s, sep) =~= seq![a, b]);
    } else {
        let init = b.drop_last();
        assert forall|i: int| 0 <= i < init.len() implies #[trigger] init[i] != sep by {
            assert(init[i] == b[i]);
        }
        lemma_split_pair(a, init, sep);
        assert(s.drop_last() =~= a.push(sep) + init);
        assert(s.last() == b[b.len() - 1]);
        let before = split_at_each(a.push(sep) + init, sep);
        assert(init.push(b.last()) =~= b);
        assert(before.drop_last().push(before.last().push(s.last())) =~= seq![a, b]);
    }
}

/// The parts of two texts joined by the separator are those of the one and then those of the
/// other.
pub proof fn law_split_joined(a: Seq<char>, b: Seq<char>, sep: char)
    ensures
        split_at_each(a.push(sep) + b, sep) == split_at_each(a, sep) + split_at_each(b, sep),
    decreases b.len(),
{
    let s = a.push(sep) + b;
    lemma_split_nonempty(b, sep);
    if b.len() == 0 {
        assert(s =~= a.push(sep));
        assert(s.drop_last() =~= a);
        assert(split_at_each(s, sep) =~= split_at_each(a, sep) + split_at_each(b, sep));
    } else {
        let init = b.drop_last();
        law_split_joined(a, init, sep);
        lemma_split_nonempty(init, sep);
        assert(s.drop_last() =~= a.push(sep) + init);
        assert(s.last() == b.last());
        let (p, q) = (split_at_each(a, sep), split_at_each(init, sep));
        if b.last() == sep {
            assert((p + q).push(Seq::empty()) =~= p + q.push(Seq::empty()));
        } else {
            let last = q.last().push(b.last());
            assert((p + q).last() == q.last());
            assert((p + q).drop_last().push(last) =~= p + q.drop_last().push(last));
        }
    }
}

/// No part holds the separator.
pub proof fn law_parts_without_separator(s: Seq<char>, sep: char, part: int, i: int)
    requires
        0 <= part < split_at_each(s, sep).len(),
        0 <= i < split_at_each(s, sep)[part].len(),
    ensures
        split_at_each(s, sep)[part][i] != sep,
    decreases s.len(),
{
    if s.len() > 0 {
        let init = split_at_each(s.drop_last(), sep);
        lemma_split_nonempty(s.drop_last(), sep);
        if s.last() != sep && part == init.len() - 1 && i == init.last().len() {
            assert(split_at_each(s, sep)[part][i] == s.last());
        } else {
            assert(split_at_each(s, sep)[part][i] == init[part][i]);
            law_parts_without_separator(s.drop_last(), sep, part, i);
        }
    }
}

/// The characters of the parts are characters of the text.
pub(crate) proof fn lemma_split_chars(s: Seq<char>, sep: char, part: int, i: int)
    requires
        0 <= part < split_at_each(s, sep).len(),
        0 <= i < split_at_each(s, sep)[part].len(),
    ensures
        s.contains(split_at_each(s, sep)[part][i]),
    decreases s.len(),
{
    if s.len() > 0 {
        let init = split_at_each(s.drop_last(), sep);
        let list = split_at_each(s, sep);
        let c = list[part][i];
        lemma_split_nonempty(s.drop_last(), sep);
        if s.last() != sep && part == init.len() - 1 && i == init.last().len() {
            assert(c == s[s.len() - 1]);
        } else {
            assert(init[part][i] == c);
            lemma_split_chars(s.drop_last(), sep, part, i);
            let j = choose|j: int| 0 <= j < s.drop_last().len() && s.drop_last()[j] == c;
            assert(s[j] == c);
        }
    }
}

/// There is always a part.
pub(crate) proof fn lemma_split_nonempty(s: Seq<char>, sep: char)
    ensures
        split_at_each(s, sep).len() > 0,
    decreases s.len(),
{
    if s.len() > 0 {
        lemma_split_nonempty(s.drop_last(), sep);
    }
}

/// Splits at every occurrence of `sep`.
pub fn split(chars: &Vec<char>, sep: char) -> (list: Vec<Vec<char>>)
    ensures
        parts(list@) == split_at_each(chars@, sep),
        list.len() > 0,
{
    let mut list: Vec<Vec<char>> = Vec::new();
    let mut part: Vec<char> = Vec::new();
    let mut i: usize = 0;
    proof {
        assert(chars@.take(0) =~= Seq::empty());
        assert(parts(list@).push(part@) =~= seq![Seq::empty()]);
    }
    while i < chars.len()
        invariant
            i <= chars.len(),
            parts(list@).push(part@) == split_at_each(chars@.take(i as int), sep),
        decreases chars.len() - i,
    {
        let ghost before = list@;
        let ghost part_before = part@;
        proof {
            lemma_take_step(chars@, i as int);
        }
        let c = chars[i];
        if c == sep {
            list.push(part);
            part = Vec::new();
            proof {
                assert(parts(list@) =~= parts(before).push(part_before));
            }
        } else {
            part.push(c);
            proof {
                let init = parts(before).push(part_before);
                assert(init.drop_last() =~= parts(before));
                assert(init.last() == part_before);
            }
        }
        i = i + 1;
    }
    let ghost before = list@;
    let ghost part_before = part@;
    list.push(part);
    proof {
        assert(parts(list@) =~= parts(before).push(part_before));
        assert(chars@.take(chars@.len() as int) =~= chars@);
    }
    list
}

/// Whether a text starts with `prefix` and ends with `suffix`, without the two overlapping.
pub open spec fn is_enclosed(s: Seq<char>, prefix: Seq<char>, suffix: char) -> bool {
    prefix.is_prefix_of(s) && s.len() > prefix.len() && s.last() == suffix
}

/// What stands between `prefix` and `suffix`, if the text starts and ends with them.
pub fn strip(chars: &Vec<char>, prefix: &Vec<char>, suffix: char) -> (inner: Option<Vec<char>>)
    ensures
        match inner {
            Some(t) => is_enclosed(chars@, prefix@, suffix) && t@ == chars@.subrange(
                prefix@.len() as int,
                chars@.len() - 1,
            ),
            None => !is_enclosed(chars@, prefix@, suffix),
        },
{
    if chars.len() <= prefix.len() {
        return None;
    }
    let head = chars_between(chars, 0, prefix.len());
    if !same_chars(&head, prefix) || chars[chars.len() - 1] != suffix {
        return None;
    }
    Some(chars_between(chars, prefix.len(), chars.len() - 1))
}

/// One text after the other.
pub fn join(a: &str, b: &str) -> (s: String)
    ensures
        s@ == a@ + b@,
{
    let mut s = a.to_string();
    s.append(b);
    s
}

// What the functions on numbers and white space accept and give.

/// Whether a text starts with digits whose value is above a limit.
pub open spec fn starts_too_large(s: Seq<char>, max: nat) -> bool {
    exists|n: int|
        0 <= n <= s.len() && all_digits(#[trigger] s.take(n)) && number(s.take(n)) > max
}

/// All the digits that a text starts with decide that.
proof fn lemma_starts_too_large(s: Seq<char>, max: nat)
    ensures
        starts_too_large(s, max) <==> number(leading_digits(s)) > max,
{
    lemma_leading_digits(s);
    let run = leading_digits(s);
    assert(run == s.take(run.len() as int));
    if starts_too_large(s, max) {
        let n = choose|n: int|
            0 <= n <= s.len() && all_digits(#[trigger] s.take(n)) && number(s.take(n)) > max;
        lemma_leading_digits_cover(s, n);
    }
}

/// A text is read as an unsigned integer exactly if it is one or more digits, perhaps after a
/// plus sign, whose value is within the limit; the result is that value.
pub proof fn law_unsigned_read(chars: Vec<char>, max: u64, r: Result<u64, IntError>)
    requires
        call_ensures(parse_unsigned, (&chars, max), r),
    ensures
        ({
            let digits = if chars@.len() > 0 && chars@[0] == '+' {
                chars@.skip(1)
            } else {
                chars@
            };
            let fits = digits.len() > 0 && all_digits(digits) && number(digits) <= max;
            &&& r is Ok <==> fits
            &&& r matches Ok(n) ==> n == number(digits)
            &&& r matches Err(e) ==> (e is Empty <==> chars@.len() == 0)
            // The digits before anything else decide whether the number is too large.
            &&& r == Err::<u64, IntError>(IntError::PosOverflow) <==> starts_too_large(
                digits,
                max as nat,
            )
        }),
{
    let digits = if chars@.len() > 0 && chars@[0] == '+' {
        chars@.skip(1)
    } else {
        chars@
    };
    lemma_leading_digits(digits);
    assert(digits.take(digits.len() as int) =~= digits);
    if all_digits(digits) {
        lemma_leading_digits_are(digits, digits.len() as int);
    }
    lemma_starts_too_large(digits, max as nat);
}

/// A text in decimal digits is read as a signed integer of the same value where that fits, and
/// with a minus sign before it as the negative of that value.
pub proof fn law_signed_read(n: nat)
    ensures
        n <= i64::MAX ==> as_signed(decimal(n)) == Some(n as int),
        n <= 0x8000_0000_0000_0000 ==> as_signed(seq!['-'] + decimal(n)) == Some(-n),
        n > i64::MAX ==> as_signed(decimal(n)) is None,
{
    lemma_decimal_digits(n);
    let s = decimal(n);
    assert(is_digit(s[0]));
    assert(s.take(s.len() as int) =~= s);
    lemma_leading_digits_are(s, s.len() as int);
    let t = seq!['-'] + s;
    assert(t.skip(1) =~= s);
    assert(t[0] == '-');
}

/// Writing a number and reading it back, through the two functions, gives the number.
pub proof fn law_written_number_is_read(n: u64, text: String, chars: Vec<char>, r: Result<u64, IntError>)
    requires
        call_ensures(decimal_text, (n,), text),
        chars@ == text@,
        call_ensures(parse_unsigned, (&chars, u64::MAX), r),
    ensures
        r == Ok::<u64, IntError>(n),
        all_digits(text@),
        n > 0 ==> text@[0] != '0',
{
    law_decimal_reads_back(n as nat, u64::MAX as nat);
    lemma_decimal_digits(n as nat);
    lemma_no_leading_zero(n as nat);
}

/// The decimal notation of a positive number does not start with a zero.
proof fn lemma_no_leading_zero(n: nat)
    ensures
        decimal(n).len() > 0,
        n > 0 ==> decimal(n)[0] != '0',
    decreases n,
{
    if n >= 10 {
        lemma_no_leading_zero(n / 10);
        assert(decimal(n)[0] == decimal(n / 10)[0]);
    }
}

/// White space is the tab and the line breaks, the space and the no-break space, and the spaces and
/// separators further on in Unicode; no letter, digit or punctuation is.
pub proof fn law_white_space(c: char)
    ensures
        is_white_space(c) <==> {
            ||| c == '\t' || c == '\n' || c == '\u{b}' || c == '\u{c}' || c == '\r'
            ||| c == ' ' || c == '\u{85}' || c == '\u{a0}' || c == '\u{1680}'
            ||| '\u{2000}' <= c <= '\u{200a}'
            ||| c == '\u{2028}' || c == '\u{2029}' || c == '\u{202f}' || c == '\u{205f}'
            ||| c == '\u{3000}'
        },
        '!' <= c <= '~' ==> !is_white_space(c),
{
}

/// Whether a text is nothing but white space.
pub open spec fn all_white(s: Seq<char>) -> bool {
    forall|i: int| 0 <= i < s.len() ==> is_white_space(#[trigger] s[i])
}

/// Whether a text neither starts nor ends with white space.
pub open spec fn is_trim(s: Seq<char>) -> bool {
    s.len() > 0 ==> !is_white_space(s[0]) && !is_white_space(s.last())
}

/// White space around a text is taken off, all of it, and nothing else.
pub proof fn law_trimmed_of_padded(before: Seq<char>, s: Seq<char>, after: Seq<char>)
    requires
        all_white(before),
        all_white(after),
        is_trim(s),
    ensures
        trimmed(before + s + after) == s,
    decreases before.len() + after.len(),
{
    let t = before + s + after;
    if before.len() > 0 {
        assert(t[0] == before[0]);
        let rest = before.skip(1);
        assert forall|i: int| 0 <= i < rest.len() implies is_white_space(#[trigger] rest[i]) by {
            assert(rest[i] == before[i + 1]);
        }
        assert(t.skip(1) =~= rest + s + after);
        law_trimmed_of_padded(rest, s, after);
    } else if s.len() == 0 {
        assert(t =~= after);
        if after.len() > 0 {
            assert(t[0] == after[0]);
            let rest = after.skip(1);
            assert forall|i: int| 0 <= i < rest.len() implies is_white_space(
                #[trigger] rest[i],
            ) by {
                assert(rest[i] == after[i + 1]);
            }
            assert(t.skip(1) =~= before + s + rest);
            law_trimmed_of_padded(before, s, rest);
        } else {
            assert(t =~= s);
        }
    } else {
        assert(t =~= s + after);
        assert(t[0] == s[0]);
        assert(trimmed_front(t) == t);
        lemma_trimmed_back_of_padded(s, after);
    }
}

/// The same for the end of a text.
proof fn lemma_trimmed_back_of_padded(s: Seq<char>, after: Seq<char>)
    requires
        all_white(after),
        s.len() > 0,
        !is_white_space(s.last()),
    ensures
        trimmed_back(s + after) == s,
    decreases after.len(),
{
    let t = s + after;
    if after.len() > 0 {
        assert(t.last() == after[after.len() - 1]);
        let rest = after.drop_last();
        assert forall|i: int| 0 <= i < rest.len() implies is_white_space(#[trigger] rest[i]) by {
            assert(rest[i] == after[i]);
        }
        assert(t.drop_last() =~= s + rest);
        lemma_trimmed_back_of_padded(s, rest);
    } else {
        assert(t =~= s);
    }
}

/// Every text is some white space, what is left of it when trimmed, and some white space; and
/// what is left neither starts nor ends with any.
pub proof fn law_trimmed_parts(s: Seq<char>) -> (around: (Seq<char>, Seq<char>))
    ensures
        all_white(around.0),
        all_white(around.1),
        is_trim(trimmed(s)),
        s == around.0 + trimmed(s) + around.1,
{
    let front = lemma_front_parts(s);
    let rest = trimmed_front(s);
    let back = lemma_back_parts(rest);
    assert(front + (trimmed_back(rest) + back) =~= front + trimmed_back(rest) + back);
    let t = trimmed(s);
    if t.len() > 0 {
        assert(rest == t + back);
        assert(rest[0] == t[0]);
    }
    (front, back)
}

/// The white space that a text starts with.
proof fn lemma_front_parts(s: Seq<char>) -> (front: Seq<char>)
    ensures
        all_white(front),
        s == front + trimmed_front(s),
        trimmed_front(s).len() > 0 ==> !is_white_space(trimmed_front(s)[0]),
    decreases s.len(),
{
    if s.len() > 0 && is_white_space(s[0]) {
        let rest = lemma_front_parts(s.skip(1));
        let front = seq![s[0]] + rest;
        assert(s =~= front + trimmed_front(s.skip(1))) by {
            assert(s =~= seq![s[0]] + s.skip(1));
            assert(seq![s[0]] + (rest + trimmed_front(s.skip(1))) =~= front + trimmed_front(
                s.skip(1),
            ));
        }
        assert forall|i: int| 0 <= i < front.len() implies is_white_space(#[trigger] front[i]) by {
            if i > 0 {
                assert(front[i] == rest[i - 1]);
            }
        }
        front
    } else {
        assert(s =~= Seq::<char>::empty() + s);
        Seq::empty()
    }
}

/// The white space that a text ends with.
proof fn lemma_back_parts(s: Seq<char>) -> (back: Seq<char>)
    ensures
        all_white(back),
        s == trimmed_back(s) + back,
        trimmed_back(s).len() > 0 ==> !is_white_space(trimmed_back(s).last()),
    decreases s.len(),
{
    if s.len() > 0 && is_white_space(s.last()) {
        let rest = lemma_back_parts(s.drop_last());
        let back = rest.push(s.last());
        assert(s =~= trimmed_back(s.drop_last()) + back) by {
            assert(s =~= s.drop_last().push(s.last()));
        }
        assert forall|i: int| 0 <= i < back.len() implies is_white_space(#[trigger] back[i]) by {
            if i < rest.len() {
                assert(back[i] == rest[i]);
            }
        }
        back
    } else {
        assert(s =~= s + Seq::<char>::empty());
        Seq::empty()
    }
}

} // verus!
