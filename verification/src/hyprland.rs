use vstd::prelude::*;
use vstd::string::{StrSliceExecFns, StringExecFns};

use crate::text::{char_is_whitespace, chars_of, is_whitespace};

verus! {

/// Where `"focused": true` marks the focused monitor in `hyprctl monitors -j`.
pub const FOCUSED_MARKER: &'static str = "\"focused\": true";

/// The text `"key":` that introduces a key's value.
pub open spec fn key_marker(key: Seq<char>) -> Seq<char> {
    seq!['"'] + key + seq!['"', ':']
}

/// Whether `marker` occurs in `s` at `at`.
pub open spec fn occurs_at(s: Seq<char>, at: int, marker: Seq<char>) -> bool {
    0 <= at && at + marker.len() <= s.len() && s.subrange(at, at + marker.len()) == marker
}

/// The position of the first occurrence of `marker` in `s`, or -1.
pub open spec fn first_occurrence(s: Seq<char>, marker: Seq<char>) -> int
    decreases s.len(),
{
    if s.len() < marker.len() {
        -1
    } else if s.take(marker.len() as int) == marker {
        0
    } else if s.len() == 0 || first_occurrence(s.drop_first(), marker) < 0 {
        -1
    } else {
        first_occurrence(s.drop_first(), marker) + 1
    }
}

/// The position of the last occurrence of `marker` in `s`, or -1.
pub open spec fn last_occurrence(s: Seq<char>, marker: Seq<char>) -> int
    decreases s.len(),
{
    if s.len() < marker.len() {
        -1
    } else if s.subrange(s.len() - marker.len(), s.len() as int) == marker {
        s.len() - marker.len()
    } else if s.len() == 0 {
        -1
    } else {
        last_occurrence(s.drop_last(), marker)
    }
}

/// Characters that can make up a JSON number as the monitor list is read:
/// digits, `.` and `-`.
pub open spec fn is_number_char(c: char) -> bool {
    ('0' <= c <= '9') || c == '.' || c == '-'
}

/// `str::trim_start`: the text without leading whitespace.
pub open spec fn trim_start(s: Seq<char>) -> Seq<char>
    decreases s.len(),
{
    if s.len() > 0 && is_whitespace(s[0]) {
        trim_start(s.drop_first())
    } else {
        s
    }
}

/// The leading run of number characters.
pub open spec fn number_run(s: Seq<char>) -> Seq<char>
    decreases s.len(),
{
    if s.len() > 0 && is_number_char(s[0]) {
        seq![s[0]] + number_run(s.drop_first())
    } else {
        Seq::empty()
    }
}

/// The number text a value starts with: the run of number characters after
/// any leading whitespace.
pub open spec fn spec_number_text(value: Seq<char>) -> Seq<char> {
    number_run(trim_start(value))
}

/// The number text after the last `"key":` that ends by `before`.
pub open spec fn spec_json_number_text_before(object: Seq<char>, key: Seq<char>, before: int) -> Option<
    Seq<char>,
> {
    let end = if before < object.len() {
        before
    } else {
        object.len() as int
    };
    let at = last_occurrence(object.take(end), key_marker(key));
    if at < 0 {
        None
    } else {
        Some(spec_number_text(object.subrange(at + key_marker(key).len(), object.len() as int)))
    }
}

/// The number text after the first `"key":`.
pub open spec fn spec_json_number_text(object: Seq<char>, key: Seq<char>) -> Option<Seq<char>> {
    let at = first_occurrence(object, key_marker(key));
    if at < 0 {
        None
    } else {
        Some(spec_number_text(object.subrange(at + key_marker(key).len(), object.len() as int)))
    }
}

/// The position of the focused monitor's marker, or the length of the list
/// when no monitor is marked focused.
pub open spec fn spec_focused_index(monitors: Seq<char>) -> int {
    if first_occurrence(monitors, FOCUSED_MARKER@) < 0 {
        monitors.len() as int
    } else {
        first_occurrence(monitors, FOCUSED_MARKER@)
    }
}

fn occurs(chars: &Vec<char>, at: usize, marker: &Vec<char>) -> (found: bool)
    ensures
        found == occurs_at(chars@, at as int, marker@),
{
    if marker.len() > chars.len() || at > chars.len() - marker.len() {
        return false;
    }
    let mut k: usize = 0;
    while k < marker.len()
        invariant
            at + marker@.len() <= chars@.len() <= usize::MAX,
            k <= marker@.len(),
            forall|j: int| 0 <= j < k ==> chars@[at + j] == marker@[j],
        decreases marker@.len() - k,
    {
        if chars[at + k] != marker[k] {
            assert(chars@.subrange(at as int, at + marker@.len())[k as int] != marker@[k as int]);
            return false;
        }
        k = k + 1;
    }
    assert(chars@.subrange(at as int, at + marker@.len()) =~= marker@);
    true
}

fn find_first_occurrence(chars: &Vec<char>, marker: &Vec<char>) -> (index: Option<usize>)
    requires
        marker@.len() > 0,
    ensures
        match index {
            Some(i) => i + marker@.len() <= chars@.len() && i == first_occurrence(chars@, marker@),
            None => first_occurrence(chars@, marker@) == -1,
        },
{
    let n = chars.len();
    let mut found: Option<usize> = None;
    let mut i: usize = n;
    while i > 0
        invariant
            n == chars@.len(),
            marker@.len() > 0,
            i <= n,
            match found {
                Some(k) => i <= k && k + marker@.len() <= n && k - i == first_occurrence(
                    chars@.subrange(i as int, n as int),
                    marker@,
                ),
                None => first_occurrence(chars@.subrange(i as int, n as int), marker@) == -1,
            },
        decreases i,
    {
        i = i - 1;
        let ghost rest = chars@.subrange(i as int, n as int);
        assert(rest.drop_first() =~= chars@.subrange(i + 1, n as int));
        proof {
            if rest.len() >= marker@.len() {
                assert(rest.take(marker@.len() as int) =~= chars@.subrange(i as int, i + marker@.len()));
            }
        }
        if occurs(chars, i, marker) {
            found = Some(i);
        }
    }
    assert(chars@.subrange(0, n as int) =~= chars@);
    found
}

fn find_last_occurrence(chars: &Vec<char>, end: usize, marker: &Vec<char>) -> (index: Option<usize>)
    requires
        end <= chars@.len(),
        marker@.len() > 0,
    ensures
        match index {
            Some(i) => i + marker@.len() <= end && i == last_occurrence(chars@.take(end as int), marker@),
            None => last_occurrence(chars@.take(end as int), marker@) == -1,
        },
{
    let mut e = end;
    while e >= marker.len()
        invariant
            e <= end <= chars@.len(),
            marker@.len() > 0,
            last_occurrence(chars@.take(end as int), marker@) == last_occurrence(
                chars@.take(e as int),
                marker@,
            ),
        decreases e,
    {
        let ghost prefix = chars@.take(e as int);
        assert(prefix.subrange(e - marker@.len(), e as int) =~= chars@.subrange(
            e - marker@.len(),
            e as int,
        ));
        if occurs(chars, e - marker.len(), marker) {
            return Some(e - marker.len());
        }
        assert(prefix.drop_last() =~= chars@.take(e - 1));
        e = e - 1;
    }
    None
}

/// The number text at `chars[from..]`, as `spec_number_text` reads it.
fn number_text_from(chars: &Vec<char>, from: usize) -> (text: String)
    requires
        from <= chars@.len(),
    ensures
        text@ == spec_number_text(chars@.subrange(from as int, chars@.len() as int)),
{
    let n = chars.len();
    let mut start = from;
    while start < n && char_is_whitespace(chars[start])
        invariant
            from <= start <= n == chars@.len(),
            trim_start(chars@.subrange(start as int, n as int)) == trim_start(
                chars@.subrange(from as int, n as int),
            ),
        decreases n - start,
    {
        assert(chars@.subrange(start as int, n as int).drop_first() =~= chars@.subrange(
            start + 1,
            n as int,
        ));
        start = start + 1;
    }
    let ghost trimmed = chars@.subrange(start as int, n as int);
    assert(trim_start(trimmed) == trimmed);
    let mut text = String::new();
    let mut i = start;
    while i < n && (('0' <= chars[i] && chars[i] <= '9') || chars[i] == '.' || chars[i] == '-')
        invariant
            start <= i <= n == chars@.len(),
            text@ + number_run(chars@.subrange(i as int, n as int)) == number_run(trimmed),
            trimmed == chars@.subrange(start as int, n as int),
        decreases n - i,
    {
        let c = chars[i];
        assert(chars@.subrange(i as int, n as int).drop_first() =~= chars@.subrange(i + 1, n as int));
        let mut one = String::new();
        one.append(char_text(c));
        text.append(one.as_str());
        assert(text@ + number_run(chars@.subrange(i + 1, n as int)) =~= number_run(trimmed));
        i = i + 1;
    }
    assert(number_run(chars@.subrange(i as int, n as int)) == Seq::<char>::empty());
    assert(text@ =~= number_run(trimmed));
    text
}

fn char_text(c: char) -> (text: &'static str)
    requires
        is_number_char(c),
    ensures
        text@ == seq![c],
{
    proof {
        reveal_strlit("0");
        reveal_strlit("1");
        reveal_strlit("2");
        reveal_strlit("3");
        reveal_strlit("4");
        reveal_strlit("5");
        reveal_strlit("6");
        reveal_strlit("7");
        reveal_strlit("8");
        reveal_strlit("9");
        reveal_strlit(".");
        reveal_strlit("-");
    }
    if c == '0' {
        "0"
    } else if c == '1' {
        "1"
    } else if c == '2' {
        "2"
    } else if c == '3' {
        "3"
    } else if c == '4' {
        "4"
    } else if c == '5' {
        "5"
    } else if c == '6' {
        "6"
    } else if c == '7' {
        "7"
    } else if c == '8' {
        "8"
    } else if c == '9' {
        "9"
    } else if c == '.' {
        "."
    } else {
        "-"
    }
}

fn marker_chars(key: &str) -> (marker: Vec<char>)
    ensures
        marker@ == key_marker(key@),
{
    let mut marker: Vec<char> = Vec::new();
    marker.push('"');
    let key_chars = chars_of(key);
    let mut i: usize = 0;
    while i < key_chars.len()
        invariant
            key_chars@ == key@,
            i <= key_chars@.len(),
            marker@ == seq!['"'] + key@.take(i as int),
        decreases key_chars@.len() - i,
    {
        marker.push(key_chars[i]);
        i = i + 1;
        assert(marker@ =~= seq!['"'] + key@.take(i as int));
    }
    marker.push('"');
    marker.push(':');
    assert(key@.take(key@.len() as int) =~= key@);
    assert(marker@ =~= key_marker(key@));
    marker
}

/// The number text a JSON value starts with: digits, `.` and `-` after any
/// leading whitespace.
pub fn number_text(value: &str) -> (text: String)
    ensures
        text@ == spec_number_text(value@),
{
    let chars = chars_of(value);
    assert(chars@.subrange(0, chars@.len() as int) =~= value@);
    number_text_from(&chars, 0)
}

/// The number text of the last `"key":` that ends by position `before` of
/// `object`, counted in characters.
pub fn json_number_text_before(object: &str, key: &str, before: usize) -> (text: Option<String>)
    ensures
        match text {
            Some(text) => spec_json_number_text_before(object@, key@, before as int) == Some(text@),
            None => spec_json_number_text_before(object@, key@, before as int) is None,
        },
{
    let chars = chars_of(object);
    let marker = marker_chars(key);
    let end = if before < chars.len() {
        before
    } else {
        chars.len()
    };
    match find_last_occurrence(&chars, end, &marker) {
        Some(at) => Some(number_text_from(&chars, at + marker.len())),
        None => None,
    }
}

/// The number text of the first `"key":` in `object`.
pub fn json_number_text(object: &str, key: &str) -> (text: Option<String>)
    ensures
        match text {
            Some(text) => spec_json_number_text(object@, key@) == Some(text@),
            None => spec_json_number_text(object@, key@) is None,
        },
{
    let chars = chars_of(object);
    let marker = marker_chars(key);
    match find_first_occurrence(&chars, &marker) {
        Some(at) => {
            let length = chars.len();
            assert(at + marker@.len() <= length);
            Some(number_text_from(&chars, at + marker.len()))
        },
        None => None,
    }
}

/// Where the focused monitor's entry is marked, in characters, or the
/// length of the list when none is.
pub fn focused_index(monitors: &str) -> (index: usize)
    ensures
        index == spec_focused_index(monitors@),
{
    let chars = chars_of(monitors);
    let marker = chars_of(FOCUSED_MARKER);
    proof {
        reveal_strlit("\"focused\": true");
    }
    match find_first_occurrence(&chars, &marker) {
        Some(at) => at,
        None => chars.len(),
    }
}

} // verus!
