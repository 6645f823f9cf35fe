use vstd::prelude::*;
use vstd::string::{StrSliceExecFns, StringExecFns};

verus! {

/// The decimal digit `d` as a character.
pub open spec fn digit_char(d: int) -> char {
    (48 + d) as char
}

/// The decimal digits of `n`, most significant first, without leading zeros.
pub open spec fn digits(n: nat) -> Seq<char>
    decreases n,
{
    if n < 10 {
        seq![digit_char(n as int)]
    } else {
        digits(n / 10).push(digit_char((n % 10) as int))
    }
}

/// How `Display` writes an integer: an optional minus sign and its digits.
pub open spec fn decimal(n: int) -> Seq<char> {
    if n < 0 {
        seq!['-'] + digits((-n) as nat)
    } else {
        digits(n as nat)
    }
}

fn digit_str(d: u64) -> (text: &'static str)
    requires
        d < 10,
    ensures
        text@ == seq![digit_char(d as int)],
{
    proof {
        reveal_strlit("0");
        reveal_strlit("1");
        reveal_strlit("2");
        reveal_strlit("3");
        reveal_strlit("4");
        reveal_strlit("5");
        reveal_strlit("6");
        reveal_strlit("7");
        reveal_strlit("8");
        reveal_strlit("9");
    }
    if d == 0 {
        "0"
    } else if d == 1 {
        "1"
    } else if d == 2 {
        "2"
    } else if d == 3 {
        "3"
    } else if d == 4 {
        "4"
    } else if d == 5 {
        "5"
    } else if d == 6 {
        "6"
    } else if d == 7 {
        "7"
    } else if d == 8 {
        "8"
    } else {
        "9"
    }
}

fn append_digits(text: &mut String, n: u64)
    ensures
        final(text)@ == old(text)@ + digits(n as nat),
    decreases n,
{
    if n >= 10 {
        append_digits(text, n / 10);
    }
    text.append(digit_str(n % 10));
    assert(final(text)@ =~= old(text)@ + digits(n as nat));
}

/// Appends `value` in decimal.
pub fn append_decimal(text: &mut String, value: i64)
    ensures
        final(text)@ == old(text)@ + decimal(value as int),
{
    if value < 0 {
        proof {
            reveal_strlit("-");
        }
        text.append("-");
        let magnitude: u64 = if value == i64::MIN {
            9223372036854775808
        } else {
            (-value) as u64
        };
        append_digits(text, magnitude);
        assert(final(text)@ =~= old(text)@ + decimal(value as int));
    } else {
        append_digits(text, value as u64);
    }
}

/// Appends `value` in decimal.
pub fn append_unsigned(text: &mut String, value: u64)
    ensures
        final(text)@ == old(text)@ + decimal(value as int),
{
    append_digits(text, value);
}

} // verus!

verus! {

/// The characters of `text`.
pub fn chars_of(text: &str) -> (chars: Vec<char>)
    ensures
        chars@ == text@,
{
    let length = text.unicode_len();
    let mut chars: Vec<char> = Vec::new();
    let mut i: usize = 0;
    while i < length
        invariant
            length == text@.len(),
            i <= length,
            chars@ == text@.take(i as int),
        decreases length - i,
    {
        chars.push(text.get_char(i));
        i = i + 1;
        assert(chars@ =~= text@.take(i as int));
    }
    assert(chars@ =~= text@);
    chars
}

/// The value of a run of ASCII decimal digits.
pub open spec fn digits_value(s: Seq<char>) -> int
    decreases s.len(),
{
    if s.len() == 0 {
        0
    } else {
        digits_value(s.drop_last()) * 10 + (s.last() as int - 48)
    }
}

pub open spec fn is_digit(c: char) -> bool {
    '0' <= c <= '9'
}

pub open spec fn all_digits(s: Seq<char>) -> bool {
    forall|i: int| 0 <= i < s.len() ==> is_digit(#[trigger] s[i])
}

/// How `str::parse::<u16>` reads text: an optional `+`, then one or more
/// ASCII digits whose value fits in 16 bits.
pub open spec fn spec_parse_u16(s: Seq<char>) -> Option<u16> {
    let body = if s.len() > 0 && s[0] == '+' {
        s.skip(1)
    } else {
        s
    };
    if body.len() > 0 && all_digits(body) && digits_value(body) <= u16::MAX {
        Some(digits_value(body) as u16)
    } else {
        None
    }
}

/// How `str::parse::<i32>` reads text: an optional sign, then one or more
/// ASCII digits whose signed value fits in 32 bits.
pub open spec fn spec_parse_i32(s: Seq<char>) -> Option<i32> {
    let negative = s.len() > 0 && s[0] == '-';
    let body = if s.len() > 0 && (s[0] == '+' || s[0] == '-') {
        s.skip(1)
    } else {
        s
    };
    let value = if negative {
        -digits_value(body)
    } else {
        digits_value(body)
    };
    if body.len() > 0 && all_digits(body) && i32::MIN <= value <= i32::MAX {
        Some(value as i32)
    } else {
        None
    }
}

proof fn lemma_digits_value_nonnegative(s: Seq<char>)
    requires
        all_digits(s),
    ensures
        digits_value(s) >= 0,
    decreases s.len(),
{
    if s.len() > 0 {
        assert(is_digit(s[s.len() - 1]));
        lemma_digits_value_nonnegative(s.drop_last());
    }
}

/// The value of the digits in `chars[from..to]`, or `None` when one of them
/// is not a digit or the value exceeds `limit`.
fn digits_up_to(chars: &Vec<char>, from: usize, to: usize, limit: u64) -> (value: Option<u64>)
    requires
        from <= to <= chars@.len(),
        limit <= u32::MAX,
    ensures
        match value {
            Some(v) => all_digits(chars@.subrange(from as int, to as int)) && v == digits_value(
                chars@.subrange(from as int, to as int),
            ) && v <= limit,
            None => !all_digits(chars@.subrange(from as int, to as int)) || digits_value(
                chars@.subrange(from as int, to as int),
            ) > limit,
        },
{
    let mut value: u64 = 0;
    let mut i = from;
    while i < to
        invariant
            from <= i <= to <= chars@.len(),
            limit <= u32::MAX,
            all_digits(chars@.subrange(from as int, i as int)),
            value == digits_value(chars@.subrange(from as int, i as int)),
            value <= limit,
        decreases to - i,
    {
        let c = chars[i];
        let ghost before = chars@.subrange(from as int, i as int);
        let ghost after = chars@.subrange(from as int, i + 1);
        assert(after.drop_last() =~= before);
        assert(after.last() == c);
        if !('0' <= c && c <= '9') {
            assert(!is_digit(after[after.len() - 1]));
            proof {
                lemma_not_all_digits_extends(chars@.subrange(from as int, to as int), (i - from) as int);
            }
            return None;
        }
        let digit = (c as u32 - '0' as u32) as u64;
        let next = value * 10 + digit;
        assert(forall|j: int| 0 <= j < after.len() ==> #[trigger] after[j] == (if j < before.len() {
            before[j]
        } else {
            c
        }));
        if next > limit {
            proof {
                lemma_digits_value_prefix_bound(chars@.subrange(from as int, to as int), (i + 1 - from) as int);
                assert(chars@.subrange(from as int, to as int).take((i + 1 - from) as int) =~= after);
            }
            return None;
        }
        value = next;
        i = i + 1;
    }
    Some(value)
}

proof fn lemma_not_all_digits_extends(s: Seq<char>, k: int)
    requires
        0 <= k < s.len(),
        !is_digit(s[k]),
    ensures
        !all_digits(s),
{
}

/// The value of all digits is at least the value of any prefix of them.
proof fn lemma_digits_value_prefix_bound(s: Seq<char>, k: int)
    requires
        0 <= k <= s.len(),
    ensures
        all_digits(s) ==> digits_value(s.take(k)) <= digits_value(s),
    decreases s.len() - k,
{
    if k < s.len() && all_digits(s) {
        lemma_digits_value_prefix_bound(s, k + 1);
        assert(s.take(k + 1).drop_last() =~= s.take(k));
        assert(is_digit(s[k]));
        assert(all_digits(s.take(k))) by {
            assert forall|i: int| 0 <= i < s.take(k).len() implies is_digit(#[trigger] s.take(k)[i]) by {
                assert(is_digit(s[i]));
            }
        }
        lemma_digits_value_nonnegative(s.take(k));
    }
    if k == s.len() {
        assert(s.take(k) =~= s);
    }
}

/// Parses `chars[from..to]` as `str::parse::<u16>` does.
pub fn parse_u16_chars(chars: &Vec<char>, from: usize, to: usize) -> (value: Option<u16>)
    requires
        from <= to <= chars@.len(),
    ensures
        value == spec_parse_u16(chars@.subrange(from as int, to as int)),
{
    let ghost s = chars@.subrange(from as int, to as int);
    let start = if from < to && chars[from] == '+' {
        from + 1
    } else {
        from
    };
    proof {
        if from < to && chars@[from as int] == '+' {
            assert(s.skip(1) =~= chars@.subrange(start as int, to as int));
        } else {
            assert(s =~= chars@.subrange(start as int, to as int));
        }
    }
    if start == to {
        return None;
    }
    match digits_up_to(chars, start, to, 65535) {
        Some(v) => Some(v as u16),
        None => None,
    }
}

/// Parses `chars[from..to]` as `str::parse::<i32>` does.
pub fn parse_i32_chars(chars: &Vec<char>, from: usize, to: usize) -> (value: Option<i32>)
    requires
        from <= to <= chars@.len(),
    ensures
        value == spec_parse_i32(chars@.subrange(from as int, to as int)),
{
    let ghost s = chars@.subrange(from as int, to as int);
    let negative = from < to && chars[from] == '-';
    let start = if from < to && (chars[from] == '+' || chars[from] == '-') {
        from + 1
    } else {
        from
    };
    proof {
        if from < to && (chars@[from as int] == '+' || chars@[from as int] == '-') {
            assert(s.skip(1) =~= chars@.subrange(start as int, to as int));
        } else {
            assert(s =~= chars@.subrange(start as int, to as int));
        }
    }
    if start == to {
        return None;
    }
    let limit: u64 = if negative {
        2147483648
    } else {
        2147483647
    };
    match digits_up_to(chars, start, to, limit) {
        Some(v) => {
            if negative {
                Some((0 - v as i64) as i32)
            } else {
                Some(v as i32)
            }
        },
        None => None,
    }
}

} // verus!

verus! {

/// Unicode `White_Space`, which `char::is_whitespace` and `str::trim` use.
pub open spec fn is_whitespace(c: char) -> bool {
    ||| '\t' <= c <= '\r'
    ||| c == ' '
    ||| c == '\u{85}'
    ||| c == '\u{a0}'
    ||| c == '\u{1680}'
    ||| '\u{2000}' <= c <= '\u{200a}'
    ||| c == '\u{2028}'
    ||| c == '\u{2029}'
    ||| c == '\u{202f}'
    ||| c == '\u{205f}'
    ||| c == '\u{3000}'
}

pub fn char_is_whitespace(c: char) -> (whitespace: bool)
    ensures
        whitespace == is_whitespace(c),
{
    ('\t' <= c && c <= '\r') || c == ' ' || c == '\u{85}' || c == '\u{a0}' || c == '\u{1680}' || (
    '\u{2000}' <= c && c <= '\u{200a}') || c == '\u{2028}' || c == '\u{2029}' || c == '\u{202f}'
        || c == '\u{205f}' || c == '\u{3000}'
}

/// `str::trim`: the text without leading and trailing whitespace.
pub open spec fn trim(s: Seq<char>) -> Seq<char>
    decreases s.len(),
{
    if s.len() > 0 && is_whitespace(s[0]) {
        trim(s.drop_first())
    } else if s.len() > 0 && is_whitespace(s.last()) {
        trim(s.drop_last())
    } else {
        s
    }
}

/// The bounds of `chars[from..to]` once trimmed.
pub fn trim_bounds(chars: &Vec<char>, from: usize, to: usize) -> (bounds: (usize, usize))
    requires
        from <= to <= chars@.len(),
    ensures
        from <= bounds.0 <= bounds.1 <= to,
        chars@.subrange(bounds.0 as int, bounds.1 as int) == trim(
            chars@.subrange(from as int, to as int),
        ),
{
    let mut start = from;
    let mut end = to;
    while start < end && char_is_whitespace(chars[start])
        invariant
            from <= start <= end <= to <= chars@.len(),
            trim(chars@.subrange(start as int, end as int)) == trim(
                chars@.subrange(from as int, to as int),
            ),
        decreases end - start,
    {
        assert(chars@.subrange(start as int, end as int).drop_first() =~= chars@.subrange(
            start + 1,
            end as int,
        ));
        start = start + 1;
    }
    while start < end && char_is_whitespace(chars[end - 1])
        invariant
            from <= start <= end <= to <= chars@.len(),
            start < end ==> !is_whitespace(chars@[start as int]),
            trim(chars@.subrange(start as int, end as int)) == trim(
                chars@.subrange(from as int, to as int),
            ),
        decreases end - start,
    {
        assert(chars@.subrange(start as int, end as int).drop_last() =~= chars@.subrange(
            start as int,
            end - 1,
        ));
        end = end - 1;
    }
    (start, end)
}

/// The position of the first `c` in `s`, or -1.
pub open spec fn first_index_of(s: Seq<char>, c: char) -> int
    decreases s.len(),
{
    if s.len() == 0 {
        -1
    } else if s[0] == c {
        0
    } else if first_index_of(s.drop_first(), c) < 0 {
        -1
    } else {
        first_index_of(s.drop_first(), c) + 1
    }
}

/// The position of the first `c` in `chars[from..to]`, counted from `from`.
pub fn find_first(chars: &Vec<char>, from: usize, to: usize, c: char) -> (index: Option<usize>)
    requires
        from <= to <= chars@.len(),
    ensures
        match index {
            Some(i) => from <= i < to && i - from == first_index_of(
                chars@.subrange(from as int, to as int),
                c,
            ),
            None => first_index_of(chars@.subrange(from as int, to as int), c) == -1,
        },
{
    let mut i = to;
    let mut found: Option<usize> = None;
    while i > from
        invariant
            from <= i <= to <= chars@.len(),
            match found {
                Some(k) => i <= k < to && k - i == first_index_of(chars@.subrange(i as int, to as int), c),
                None => first_index_of(chars@.subrange(i as int, to as int), c) == -1,
            },
        decreases i - from,
    {
        i = i - 1;
        assert(chars@.subrange(i as int, to as int).drop_first() =~= chars@.subrange(i + 1, to as int));
        if chars[i] == c {
            found = Some(i);
        }
    }
    found
}

/// `str::trim` as an owned string.
pub fn trimmed(text: &str) -> (result: String)
    ensures
        result@ == trim(text@),
{
    let chars = chars_of(text);
    let (start, end) = trim_bounds(&chars, 0, chars.len());
    assert(chars@.subrange(0, chars@.len() as int) =~= text@);
    text.substring_char(start, end).to_owned()
}

} // verus!
