//! Characters, decimal numbers and blank-separated fields: the text layer
//! under the notations.

use vstd::prelude::*;

verus! {

/// `String::push` of the standard library: the character is appended to
/// the end of the string, and nothing else changes.
pub assume_specification[ String::push ](s: &mut String, c: char)
    ensures
        final(s)@ == old(s)@.push(c),
;

/// `c` is one of the ten decimal digits.
pub open spec fn is_digit(c: char) -> bool {
    '0' <= c <= '9'
}

/// The number that the digit `c` stands for.
pub open spec fn digit_value(c: char) -> int {
    c as int - '0' as int
}

/// `c` is white space as Unicode defines it.
pub open spec fn is_blank(c: char) -> bool {
    ||| '\u{9}' <= c <= '\u{D}'
    ||| c == ' '
    ||| c == '\u{85}'
    ||| c == '\u{A0}'
    ||| c == '\u{1680}'
    ||| '\u{2000}' <= c <= '\u{200A}'
    ||| c == '\u{2028}'
    ||| c == '\u{2029}'
    ||| c == '\u{202F}'
    ||| c == '\u{205F}'
    ||| c == '\u{3000}'
}

/// The first position at or after `i` that holds no white space, or the
/// length of `s` if there is none.
pub open spec fn skip_blanks(s: Seq<char>, i: int) -> int
    decreases s.len() - i,
{
    if 0 <= i < s.len() && is_blank(s[i]) {
        skip_blanks(s, i + 1)
    } else {
        i
    }
}

/// The first position at or after `i` that holds white space, or the
/// length of `s` if there is none.
pub open spec fn skip_word(s: Seq<char>, i: int) -> int
    decreases s.len() - i,
{
    if 0 <= i < s.len() && !is_blank(s[i]) {
        skip_word(s, i + 1)
    } else {
        i
    }
}

/// The fields of `s` from position `i` on: the longest runs of characters
/// that are not white space, in the order in which they stand.
pub open spec fn fields_from(s: Seq<char>, i: int) -> Seq<Seq<char>>
    decreases s.len() - i,
{
    let start = skip_blanks(s, i);
    if 0 <= i <= start < s.len() {
        let end = skip_word(s, start);
        if start < end <= s.len() {
            seq![s.subrange(start, end)] + fields_from(s, end)
        } else {
            Seq::empty()
        }
    } else {
        Seq::empty()
    }
}

/// The fields of `s`: what stands between white space.
pub open spec fn fields(s: Seq<char>) -> Seq<Seq<char>> {
    fields_from(s, 0)
}

/// `s` without the white space at its two ends.
pub open spec fn trimmed(s: Seq<char>) -> Seq<char>
    decreases s.len(),
{
    if s.len() > 0 && is_blank(s[0]) {
        trimmed(s.drop_first())
    } else if s.len() > 0 && is_blank(s.last()) {
        trimmed(s.drop_last())
    } else {
        s
    }
}

/// The first position at or after `i` that holds `c`, or the length of `s`
/// if there is none.
pub open spec fn position_of(s: Seq<char>, c: char, i: int) -> int
    decreases s.len() - i,
{
    if 0 <= i < s.len() && s[i] != c {
        position_of(s, c, i + 1)
    } else {
        i
    }
}

/// Every character of `s` is a decimal digit.
pub open spec fn all_digits(s: Seq<char>) -> bool {
    forall|i: int| 0 <= i < s.len() ==> is_digit(#[trigger] s[i])
}

/// The number that the digits `s` write in base ten; `0` for no digits.
pub open spec fn decimal_value(s: Seq<char>) -> int
    decreases s.len(),
{
    if s.len() == 0 {
        0
    } else {
        decimal_value(s.drop_last()) * 10 + digit_value(s.last())
    }
}

/// The integer that `s` writes: an optional sign, `+` or `-`, and then one
/// digit or more. `None` for any other text.
pub open spec fn signed_decimal(s: Seq<char>) -> Option<int> {
    if s.len() > 0 && s[0] == '-' {
        let digits = s.drop_first();
        if digits.len() > 0 && all_digits(digits) {
            Some(-decimal_value(digits))
        } else {
            None
        }
    } else {
        unsigned_decimal(s)
    }
}

/// The natural number that `s` writes: an optional `+` and then one digit
/// or more. `None` for any other text.
pub open spec fn unsigned_decimal(s: Seq<char>) -> Option<int> {
    let digits = if s.len() > 0 && s[0] == '+' {
        s.drop_first()
    } else {
        s
    };
    if digits.len() > 0 && all_digits(digits) {
        Some(decimal_value(digits))
    } else {
        None
    }
}

/// The digits that write `n` in base ten, without leading zeros.
pub open spec fn decimal_digits(n: nat) -> Seq<char>
    decreases n,
{
    if n < 10 {
        seq![('0' as int + n) as char]
    } else {
        decimal_digits(n / 10).push(('0' as int + n % 10) as char)
    }
}

/// The text that writes the integer `n`: a `-` for a negative number, then
/// the digits of its size.
pub open spec fn integer_text(n: int) -> Seq<char> {
    if n < 0 {
        seq!['-'] + decimal_digits((-n) as nat)
    } else {
        decimal_digits(n as nat)
    }
}

/// Tells whether `c` is white space.
pub fn is_whitespace(c: char) -> (blank: bool)
    ensures
        blank == is_blank(c),
{
    ('\u{9}' <= c && c <= '\u{D}') || c == ' ' || c == '\u{85}' || c == '\u{A0}' || c
        == '\u{1680}' || ('\u{2000}' <= c && c <= '\u{200A}') || c == '\u{2028}' || c
        == '\u{2029}' || c == '\u{202F}' || c == '\u{205F}' || c == '\u{3000}'
}

/// The value of the digit `c`, or `None` if `c` is no digit.
pub fn digit_of(c: char) -> (d: Option<u8>)
    ensures
        is_digit(c) ==> d == Some(digit_value(c) as u8),
        !is_digit(c) ==> d is None,
{
    if '0' <= c && c <= '9' {
        Some((c as u32 - '0' as u32) as u8)
    } else {
        None
    }
}

/// The digit that stands for `d`.
pub fn digit_char(d: u8) -> (c: char)
    requires
        d < 10,
    ensures
        c == ('0' as int + d) as char,
        is_digit(c),
        digit_value(c) == d,
{
    (('0' as u8) + d) as char
}

/// The characters of `s`, one by one.
pub fn chars_of(s: &str) -> (v: Vec<char>)
    ensures
        v@ == s@,
{
    let mut v: Vec<char> = Vec::new();
    for c in it: s.chars()
        invariant
            v@ == it.seq().take(it.index() as int),
            it.seq() == s@,
    {
        v.push(c);
    }
    v
}

/// The string made of the characters `v`.
pub fn text_of(v: &Vec<char>) -> (s: String)
    ensures
        s@ == v@,
{
    let mut s = String::new();
    let mut i: usize = 0;
    while i < v.len()
        invariant
            i <= v.len(),
            s@ == v@.take(i as int),
        decreases v.len() - i,
    {
        s.push(v[i]);
        assert(v@.take(i as int + 1) == v@.take(i as int).push(v@[i as int]));
        i += 1;
    }
    s
}

/// The characters of `v` from position `start` up to, not including,
/// position `end`.
pub fn slice_of(v: &Vec<char>, start: usize, end: usize) -> (part: Vec<char>)
    requires
        start <= end <= v.len(),
    ensures
        part@ == v@.subrange(start as int, end as int),
{
    let mut part: Vec<char> = Vec::new();
    let mut i: usize = start;
    while i < end
        invariant
            start <= i <= end <= v.len(),
            part@ == v@.subrange(start as int, i as int),
        decreases end - i,
    {
        part.push(v[i]);
        assert(v@.subrange(start as int, i as int + 1) == v@.subrange(
            start as int,
            i as int,
        ).push(v@[i as int]));
        i += 1;
    }
    part
}

/// Tells whether the two texts are the same.
pub fn same_text(a: &Vec<char>, b: &Vec<char>) -> (same: bool)
    ensures
        same == (a@ == b@),
{
    if a.len() != b.len() {
        return false;
    }
    let mut i: usize = 0;
    while i < a.len()
        invariant
            i <= a.len(),
            a.len() == b.len(),
            forall|j: int| 0 <= j < i ==> a@[j] == b@[j],
        decreases a.len() - i,
    {
        if a[i] != b[i] {
            return false;
        }
        i += 1;
    }
    assert(a@ =~= b@);
    true
}

/// Tells whether `c` occurs in `text`.
pub fn has_char(text: &Vec<char>, c: char) -> (found: bool)
    ensures
        found == text@.contains(c),
{
    let mut i: usize = 0;
    while i < text.len()
        invariant
            i <= text.len(),
            forall|j: int| 0 <= j < i ==> text@[j] != c,
        decreases text.len() - i,
    {
        if text[i] == c {
            return true;
        }
        i += 1;
    }
    false
}

/// The first position at or after `start` that holds `c`, or the length of
/// `text` if there is none.
pub fn find_char(text: &Vec<char>, c: char, start: usize) -> (at: usize)
    requires
        start <= text.len(),
    ensures
        at == position_of(text@, c, start as int),
        start <= at <= text.len(),
        at < text.len() ==> text@[at as int] == c,
{
    let mut i: usize = start;
    while i < text.len() && text[i] != c
        invariant
            start <= i <= text.len(),
            position_of(text@, c, start as int) == position_of(text@, c, i as int),
        decreases text.len() - i,
    {
        i += 1;
    }
    i
}

/// Splits `text` into its fields: what stands between white space.
pub fn split_fields(text: &Vec<char>) -> (parts: Vec<Vec<char>>)
    ensures
        parts@.len() == fields(text@).len(),
        forall|k: int| 0 <= k < parts@.len() ==> (#[trigger] parts@[k])@ == fields(text@)[k],
{
    let mut parts: Vec<Vec<char>> = Vec::new();
    let mut i: usize = 0;
    let ghost mut done: Seq<Seq<char>> = Seq::empty();
    loop
        invariant
            i <= text.len(),
            parts@.len() == done.len(),
            forall|k: int| 0 <= k < parts@.len() ==> (#[trigger] parts@[k])@ == done[k],
            fields(text@) == done + fields_from(text@, i as int),
        ensures
            parts@.len() == fields(text@).len(),
            forall|k: int| 0 <= k < parts@.len() ==> (#[trigger] parts@[k])@ == fields(text@)[k],
        decreases text.len() - i,
    {
        let ghost origin = i;
        while i < text.len() && is_whitespace(text[i])
            invariant
                origin <= i <= text.len(),
                skip_blanks(text@, origin as int) == skip_blanks(text@, i as int),
            decreases text.len() - i,
        {
            i += 1;
        }
        let start = i;
        assert(skip_blanks(text@, origin as int) == start);
        if start >= text.len() {
            assert(fields_from(text@, origin as int) == Seq::<Seq<char>>::empty());
            assert(done + Seq::<Seq<char>>::empty() =~= done);
            break ;
        }
        while i < text.len() && !is_whitespace(text[i])
            invariant
                start <= i <= text.len(),
                skip_word(text@, start as int) == skip_word(text@, i as int),
            decreases text.len() - i,
        {
            i += 1;
        }
        assert(skip_word(text@, start as int) == i);
        assert(i > start);
        let part = slice_of(text, start, i);
        proof {
            let rest = fields_from(text@, i as int);
            assert(fields_from(text@, origin as int) == seq![part@] + rest);
            assert(done + (seq![part@] + rest) =~= done.push(part@) + rest);
            done = done.push(part@);
        }
        parts.push(part);
    }
    parts
}

/// The text `s` without the white space at its two ends.
pub fn trim(text: &Vec<char>) -> (inner: Vec<char>)
    ensures
        inner@ == trimmed(text@),
{
    let mut start: usize = 0;
    let mut end: usize = text.len();
    assert(text@.subrange(0, text.len() as int) =~= text@);
    while start < end && is_whitespace(text[start])
        invariant
            start <= end == text.len(),
            trimmed(text@) == trimmed(text@.subrange(start as int, end as int)),
        decreases end - start,
    {
        assert(text@.subrange(start as int, end as int).drop_first() == text@.subrange(
            start as int + 1,
            end as int,
        ));
        start += 1;
    }
    while start < end && is_whitespace(text[end - 1])
        invariant
            start <= end <= text.len(),
            start < end ==> !is_blank(text@[start as int]),
            trimmed(text@) == trimmed(text@.subrange(start as int, end as int)),
        decreases end - start,
    {
        assert(text@.subrange(start as int, end as int).drop_last() == text@.subrange(
            start as int,
            end as int - 1,
        ));
        end -= 1;
    }
    slice_of(text, start, end)
}

/// Reads the digits of `text` from position `start` to its end as a number
/// in base ten. `None` if there is no digit, if another character
/// occurs, or if the number is above `limit`.
fn read_digits(text: &Vec<char>, start: usize, limit: u64) -> (value: Option<u64>)
    requires
        start <= text.len(),
        limit <= 0xffff_ffff,
    ensures
        ({
            let digits = text@.subrange(start as int, text.len() as int);
            match value {
                Some(v) => digits.len() > 0 && all_digits(digits) && v == decimal_value(digits)
                    && v <= limit,
                None => !(digits.len() > 0 && all_digits(digits) && decimal_value(digits)
                    <= limit),
            }
        }),
{
    let ghost digits = text@.subrange(start as int, text.len() as int);
    if start == text.len() {
        return None;
    }
    let mut value: u64 = 0;
    let mut above = false;
    let mut i: usize = start;
    while i < text.len()
        invariant
            start <= i <= text.len(),
            limit <= 0xffff_ffff,
            digits == text@.subrange(start as int, text.len() as int),
            all_digits(digits.take(i - start)),
            !above ==> value == decimal_value(digits.take(i - start)) && value <= limit,
            above ==> decimal_value(digits.take(i - start)) > limit,
        decreases text.len() - i,
    {
        let d = match digit_of(text[i]) {
            Some(d) => d,
            None => {
                assert(!is_digit(digits[i - start]));
                return None;
            },
        };
        proof {
            let longer = digits.take(i - start + 1);
            assert(longer.drop_last() == digits.take(i - start));
            assert(longer.last() == text@[i as int]);
            assert(decimal_value(longer) == decimal_value(digits.take(i - start)) * 10 + d);
            assert(decimal_value(digits.take(i - start)) >= 0);
            assert forall|j: int| 0 <= j < longer.len() implies is_digit(#[trigger] longer[j]) by {
                if j < i - start {
                    assert(longer[j] == digits.take(i - start)[j]);
                }
            }
        }
        if !above {
            value = value * 10 + d as u64;
            if value > limit {
                above = true;
            }
        }
        i += 1;
    }
    assert(digits.take(i - start) == digits);
    if above {
        None
    } else {
        Some(value)
    }
}

/// Reads `text` as a natural number of at most 32 bits: an optional `+`
/// and then one digit or more.
pub fn parse_u32(text: &Vec<char>) -> (value: Option<u32>)
    ensures
        match unsigned_decimal(text@) {
            Some(n) => if n <= u32::MAX {
                value == Some(n as u32)
            } else {
                value is None
            },
            None => value is None,
        },
{
    let start: usize = if text.len() > 0 && text[0] == '+' {
        1
    } else {
        0
    };
    assert(start == 1 ==> text@.subrange(1, text.len() as int) =~= text@.drop_first());
    assert(start == 0 ==> text@.subrange(0, text.len() as int) =~= text@);
    match read_digits(text, start, 0xffff_ffff) {
        Some(n) => Some(n as u32),
        None => None,
    }
}

/// Reads `text` as an integer of 8 bits: an optional sign and then one
/// digit or more.
pub fn parse_i8(text: &Vec<char>) -> (value: Option<i8>)
    ensures
        match signed_decimal(text@) {
            Some(n) => if -128 <= n <= 127 {
                value == Some(n as i8)
            } else {
                value is None
            },
            None => value is None,
        },
{
    if text.len() > 0 && text[0] == '-' {
        assert(text@.subrange(1, text.len() as int) =~= text@.drop_first());
        match read_digits(text, 1, 128) {
            Some(n) => Some((-(n as i16)) as i8),
            None => None,
        }
    } else {
        let start: usize = if text.len() > 0 && text[0] == '+' {
            1
        } else {
            0
        };
        assert(start == 1 ==> text@.subrange(1, text.len() as int) =~= text@.drop_first());
        assert(start == 0 ==> text@.subrange(0, text.len() as int) =~= text@);
        match read_digits(text, start, 127) {
            Some(n) => Some(n as i8),
            None => None,
        }
    }
}

/// Appends to `out` the digits that write `n` in base ten.
pub fn push_decimal(out: &mut String, n: u32)
    ensures
        final(out)@ == old(out)@ + decimal_digits(n as nat),
    decreases n,
{
    if n >= 10 {
        push_decimal(out, n / 10);
    }
    out.push(digit_char((n % 10) as u8));
    proof {
        if n < 10 {
            assert(old(out)@.push(('0' as int + n) as char) =~= old(out)@ + decimal_digits(
                n as nat,
            ));
        } else {
            assert((old(out)@ + decimal_digits((n / 10) as nat)).push(
                ('0' as int + n % 10) as char,
            ) =~= old(out)@ + decimal_digits(n as nat));
        }
    }
}

/// Appends to `out` the text that writes the integer `n`.
pub fn push_integer(out: &mut String, n: i16)
    requires
        n > i16::MIN,
    ensures
        final(out)@ == old(out)@ + integer_text(n as int),
{
    if n < 0 {
        out.push('-');
        push_decimal(out, (-n) as u32);
        assert(old(out)@.push('-') + decimal_digits((-n) as nat) =~= old(out)@ + (seq!['-']
            + decimal_digits((-n) as nat)));
    } else {
        push_decimal(out, n as u32);
    }
}

} // verus!
