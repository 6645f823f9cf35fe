use vstd::prelude::*;
use vstd::string::{StrSliceExecFns, StringExecFns};

use crate::app::Orientation;
use crate::driver::DriverKind;
use crate::invalid_input;
use crate::text::{chars_of, parse_i32_chars, spec_parse_i32, trim, trim_bounds};

verus! {

/// The tablet's stylus event device.
pub const DEFAULT_EVENT_FILE: &'static str = "/dev/input/event1";

/// `char::to_ascii_lowercase` applied to every character.
pub open spec fn ascii_lowercase(s: Seq<char>) -> Seq<char> {
    Seq::new(
        s.len(),
        |i: int|
            if 'A' <= s[i] <= 'Z' {
                ((s[i] as int) + 32) as char
            } else {
                s[i]
            },
    )
}

/// The trimmed, ASCII-lowercased characters of `chars[from..to]`.
fn normalized_word(chars: &Vec<char>) -> (word: Vec<char>)
    ensures
        word@ == ascii_lowercase(trim(chars@)),
{
    let (start, end) = trim_bounds(chars, 0, chars.len());
    assert(chars@.subrange(0, chars@.len() as int) =~= chars@);
    let mut word: Vec<char> = Vec::new();
    let mut i = start;
    while i < end
        invariant
            start <= i <= end <= chars@.len(),
            chars@.subrange(start as int, end as int) == trim(chars@),
            word@ == ascii_lowercase(chars@.subrange(start as int, i as int)),
        decreases end - i,
    {
        let c = chars[i];
        let lower = if 'A' <= c && c <= 'Z' {
            ((c as u32) + 32) as u8 as char
        } else {
            c
        };
        word.push(lower);
        i = i + 1;
        assert(word@ =~= ascii_lowercase(chars@.subrange(start as int, i as int)));
    }
    word
}

fn same_chars(word: &Vec<char>, expected: &str) -> (same: bool)
    ensures
        same == (word@ == expected@),
{
    let expected_chars = chars_of(expected);
    if word.len() != expected_chars.len() {
        return false;
    }
    let mut i: usize = 0;
    while i < word.len()
        invariant
            expected_chars@ == expected@,
            word@.len() == expected@.len(),
            i <= word@.len(),
            forall|j: int| 0 <= j < i ==> word@[j] == expected@[j],
        decreases word@.len() - i,
    {
        if word[i] != expected_chars[i] {
            return false;
        }
        i = i + 1;
    }
    assert(word@ =~= expected@);
    true
}

/// Reads an orientation name as the settings form writes it; case and
/// surrounding whitespace do not matter.
pub open spec fn spec_parse_orientation(value: Seq<char>) -> Option<Orientation> {
    let word = ascii_lowercase(trim(value));
    if word == "right"@ {
        Some(Orientation::Right)
    } else if word == "left"@ {
        Some(Orientation::Left)
    } else if word == "vertical"@ {
        Some(Orientation::Vertical)
    } else {
        None
    }
}

pub fn parse_orientation(value: &str) -> (parsed: std::io::Result<Orientation>)
    ensures
        match parsed {
            Ok(orientation) => spec_parse_orientation(value@) == Some(orientation),
            Err(_) => spec_parse_orientation(value@) is None,
        },
{
    let word = normalized_word(&chars_of(value));
    if same_chars(&word, "right") {
        Ok(Orientation::Right)
    } else if same_chars(&word, "left") {
        Ok(Orientation::Left)
    } else if same_chars(&word, "vertical") {
        Ok(Orientation::Vertical)
    } else {
        Err(invalid_input("orientation must be right, left, or vertical"))
    }
}

/// Reads a host driver name as the settings form writes it; case and
/// surrounding whitespace do not matter.
pub open spec fn spec_parse_host_driver(value: Seq<char>) -> Option<DriverKind> {
    let word = ascii_lowercase(trim(value));
    if word == "auto"@ {
        Some(DriverKind::Auto)
    } else if word == "enigo"@ {
        Some(DriverKind::Enigo)
    } else if word == "uinput"@ {
        Some(DriverKind::Uinput)
    } else if word == "uinput-tablet"@ {
        Some(DriverKind::UinputTablet)
    } else if word == "windows-pen"@ {
        Some(DriverKind::WindowsPen)
    } else {
        None
    }
}

pub fn parse_host_driver(value: &str) -> (parsed: std::io::Result<DriverKind>)
    ensures
        match parsed {
            Ok(kind) => spec_parse_host_driver(value@) == Some(kind),
            Err(_) => spec_parse_host_driver(value@) is None,
        },
{
    let word = normalized_word(&chars_of(value));
    if same_chars(&word, "auto") {
        Ok(DriverKind::Auto)
    } else if same_chars(&word, "enigo") {
        Ok(DriverKind::Enigo)
    } else if same_chars(&word, "uinput") {
        Ok(DriverKind::Uinput)
    } else if same_chars(&word, "uinput-tablet") {
        Ok(DriverKind::UinputTablet)
    } else if same_chars(&word, "windows-pen") {
        Ok(DriverKind::WindowsPen)
    } else {
        Err(invalid_input("host driver must be auto, enigo, uinput, uinput-tablet, or windows-pen"))
    }
}

/// Reads the pressure threshold as the settings form writes it: an integer,
/// with surrounding whitespace ignored.
pub fn parse_pressure_threshold(value: &str) -> (parsed: std::io::Result<i32>)
    ensures
        match parsed {
            Ok(threshold) => spec_parse_i32(trim(value@)) == Some(threshold),
            Err(_) => spec_parse_i32(trim(value@)) is None,
        },
{
    let chars = chars_of(value);
    let (start, end) = trim_bounds(&chars, 0, chars.len());
    assert(chars@.subrange(0, chars@.len() as int) =~= value@);
    match parse_i32_chars(&chars, start, end) {
        Some(threshold) => Ok(threshold),
        None => Err(invalid_input("pressure threshold must be an integer")),
    }
}

pub open spec fn spec_orientation_name(orientation: Orientation) -> Seq<char> {
    match orientation {
        Orientation::Right => "right"@,
        Orientation::Left => "left"@,
        Orientation::Vertical => "vertical"@,
    }
}

pub fn orientation_name(orientation: Orientation) -> (name: &'static str)
    ensures
        name@ == spec_orientation_name(orientation),
{
    match orientation {
        Orientation::Right => "right",
        Orientation::Left => "left",
        Orientation::Vertical => "vertical",
    }
}

pub open spec fn spec_host_driver_name(kind: DriverKind) -> Seq<char> {
    match kind {
        DriverKind::Auto => "auto"@,
        DriverKind::Enigo => "enigo"@,
        DriverKind::Uinput => "uinput"@,
        DriverKind::UinputTablet => "uinput-tablet"@,
        DriverKind::WindowsPen => "windows-pen"@,
    }
}

pub fn host_driver_name(kind: DriverKind) -> (name: &'static str)
    ensures
        name@ == spec_host_driver_name(kind),
{
    match kind {
        DriverKind::Auto => "auto",
        DriverKind::Enigo => "enigo",
        DriverKind::Uinput => "uinput",
        DriverKind::UinputTablet => "uinput-tablet",
        DriverKind::WindowsPen => "windows-pen",
    }
}

/// The value a prompt settles on for an answer line: the trimmed answer, or
/// the default when nothing but whitespace was entered.
pub open spec fn spec_prompt_answer(line: Seq<char>, default: Seq<char>) -> Seq<char> {
    if trim(line).len() == 0 {
        default
    } else {
        trim(line)
    }
}

pub fn prompt_answer(line: &str, default: &str) -> (value: String)
    ensures
        value@ == spec_prompt_answer(line@, default@),
{
    let chars = chars_of(line);
    let (start, end) = trim_bounds(&chars, 0, chars.len());
    assert(chars@.subrange(0, chars@.len() as int) =~= line@);
    if start == end {
        default.to_owned()
    } else {
        line.substring_char(start, end).to_owned()
    }
}

/// `Write::write_all`: writes all of `text`, or fails.
#[verifier::external_body]
fn write_text<W: std::io::Write>(output: &mut W, text: &str) -> std::io::Result<()> {
    output.write_all(text.as_bytes())
}

/// `Write::flush`: pushes buffered output to its destination.
#[verifier::external_body]
fn flush_output<W: std::io::Write>(output: &mut W) -> std::io::Result<()> {
    output.flush()
}

/// `BufRead::read_line`: appends the next line of the input, with its line
/// break, to `line`, and says how many bytes it read (none at the end of
/// the input).
#[verifier::external_body]
fn read_line_into<R: std::io::BufRead>(input: &mut R, line: &mut String) -> std::io::Result<usize> {
    input.read_line(line)
}

/// The prompt shown for a value: `label [default]: `.
pub fn prompt_text(label: &str, default: &str) -> (text: String)
    ensures
        text@ == label@ + " ["@ + default@ + "]: "@,
{
    let mut text = String::from_str(label);
    text.append(" [");
    text.append(default);
    text.append("]: ");
    text
}

/// Writes `label [default]: `, reads one answer line and settles on it.
pub fn prompt_with_default<R: std::io::BufRead, W: std::io::Write>(
    mut input: R,
    mut output: W,
    label: &str,
    default: &str,
) -> (value: std::io::Result<String>)
    ensures
        value matches Ok(value) ==> exists|line: Seq<char>|
            #[trigger] spec_prompt_answer(line, default@) == value@,
{
    let prompt = prompt_text(label, default);
    match write_text(&mut output, prompt.as_str()) {
        Ok(()) => {},
        Err(error) => {
            return Err(error);
        },
    }
    match flush_output(&mut output) {
        Ok(()) => {},
        Err(error) => {
            return Err(error);
        },
    }
    let mut line = String::new();
    match read_line_into(&mut input, &mut line) {
        Ok(_) => {},
        Err(error) => {
            return Err(error);
        },
    }
    let value = prompt_answer(line.as_str(), default);
    Ok(value)
}

/// Every orientation's settings name reads back as that orientation.
pub proof fn lemma_orientation_names_parse_back(orientation: Orientation)
    ensures
        spec_parse_orientation(spec_orientation_name(orientation)) == Some(orientation),
{
    reveal_strlit("right");
    reveal_strlit("left");
    reveal_strlit("vertical");
    lemma_lowercase_trimmed_word(spec_orientation_name(orientation));
}

/// Every host driver's settings name reads back as that driver.
pub proof fn lemma_host_driver_names_parse_back(kind: DriverKind)
    ensures
        spec_parse_host_driver(spec_host_driver_name(kind)) == Some(kind),
{
    reveal_strlit("auto");
    reveal_strlit("enigo");
    reveal_strlit("uinput");
    reveal_strlit("uinput-tablet");
    reveal_strlit("windows-pen");
    lemma_lowercase_trimmed_word(spec_host_driver_name(kind));
}

/// A word of lowercase letters and `-` is its own trimmed, lowercased form.
proof fn lemma_lowercase_trimmed_word(word: Seq<char>)
    requires
        word.len() > 0,
        forall|i: int| 0 <= i < word.len() ==> ('a' <= #[trigger] word[i] <= 'z') || word[i] == '-',
    ensures
        ascii_lowercase(trim(word)) == word,
{
    assert(!crate::text::is_whitespace(word[0]));
    assert(!crate::text::is_whitespace(word.last()));
    assert(trim(word) == word);
    assert(ascii_lowercase(word) =~= word);
}

} // verus!
