use vstd::prelude::*;
use vstd::string::{StrSliceExecFns, StringExecFns, StringSliceAdditionalSpecFns};

use crate::invalid_input;
use crate::text::{append_unsigned, chars_of, decimal, parse_u16_chars, spec_parse_u16, trim, trimmed};

verus! {

#[verifier::external_type_specification]
#[verifier::external_body]
pub struct ExPathBuf(std::path::PathBuf);

/// Where and how to reach the tablet.
#[derive(Clone, Debug, PartialEq, Eq)]
pub struct SshOptions {
    pub address: String,
    pub user: String,
    pub password: String,
    pub agent_socket: String,
    pub event_file: String,
    pub known_hosts: Option<std::path::PathBuf>,
}

/// The position of the last `c` in `s`, or -1.
pub open spec fn last_index_of(s: Seq<char>, c: char) -> int
    decreases s.len(),
{
    if s.len() == 0 {
        -1
    } else if s.last() == c {
        s.len() - 1
    } else {
        last_index_of(s.drop_last(), c)
    }
}

/// The position of the last `]:` in `s` after its first character, or -1.
pub open spec fn last_bracket_colon(s: Seq<char>) -> int
    decreases s.len(),
{
    if s.len() < 3 {
        -1
    } else if s[s.len() - 2] == ']' && s[s.len() - 1] == ':' {
        s.len() - 2
    } else {
        last_bracket_colon(s.drop_last())
    }
}

/// How an SSH address splits into host and port: `[host]:port`, where the
/// port follows the last `]:`, or `host:port`, where the port follows the
/// last `:` and the host is not empty.
pub open spec fn spec_parse_address(address: Seq<char>) -> Option<(Seq<char>, u16)> {
    if address.len() > 0 && address[0] == '[' {
        let split = last_bracket_colon(address);
        if split < 0 {
            None
        } else {
            match spec_parse_u16(address.subrange(split + 2, address.len() as int)) {
                Some(port) => Some((address.subrange(1, split), port)),
                None => None,
            }
        }
    } else {
        let split = last_index_of(address, ':');
        if split <= 0 {
            None
        } else {
            match spec_parse_u16(address.subrange(split + 1, address.len() as int)) {
                Some(port) => Some((address.subrange(0, split), port)),
                None => None,
            }
        }
    }
}

proof fn lemma_last_index_of_range(s: Seq<char>, c: char)
    ensures
        -1 <= last_index_of(s, c) < s.len(),
    decreases s.len(),
{
    if s.len() > 0 {
        lemma_last_index_of_range(s.drop_last(), c);
    }
}

proof fn lemma_last_bracket_colon_range(s: Seq<char>)
    ensures
        last_bracket_colon(s) == -1 || 1 <= last_bracket_colon(s) && last_bracket_colon(s) + 2
            <= s.len(),
    decreases s.len(),
{
    if s.len() >= 3 {
        lemma_last_bracket_colon_range(s.drop_last());
    }
}

fn find_last_colon(chars: &Vec<char>) -> (index: Option<usize>)
    ensures
        match index {
            Some(i) => i == last_index_of(chars@, ':') && i < chars@.len(),
            None => last_index_of(chars@, ':') == -1,
        },
{
    proof {
        lemma_last_index_of_range(chars@, ':');
    }
    let mut i = chars.len();
    assert(chars@.take(i as int) =~= chars@);
    while i > 0
        invariant
            i <= chars@.len(),
            last_index_of(chars@, ':') == last_index_of(chars@.take(i as int), ':'),
        decreases i,
    {
        assert(chars@.take(i as int).drop_last() =~= chars@.take(i - 1));
        if chars[i - 1] == ':' {
            return Some(i - 1);
        }
        i = i - 1;
    }
    None
}

fn find_last_bracket_colon(chars: &Vec<char>) -> (index: Option<usize>)
    ensures
        match index {
            Some(i) => i == last_bracket_colon(chars@) && 1 <= i && i + 2 <= chars@.len(),
            None => last_bracket_colon(chars@) == -1,
        },
{
    proof {
        lemma_last_bracket_colon_range(chars@);
    }
    let mut i = chars.len();
    assert(chars@.take(i as int) =~= chars@);
    while i >= 3
        invariant
            i <= chars@.len(),
            last_bracket_colon(chars@) == last_bracket_colon(chars@.take(i as int)),
        decreases i,
    {
        assert(chars@.take(i as int).drop_last() =~= chars@.take(i - 1));
        if chars[i - 2] == ']' && chars[i - 1] == ':' {
            return Some(i - 2);
        }
        i = i - 1;
    }
    None
}

/// `format!("{:?}", text)`: the text quoted and escaped as `Debug` does.
#[verifier::external_body]
fn debug_quoted(text: &str) -> String {
    format!("{text:?}")
}

/// The error reported for an address that is not `host:port`.
pub fn invalid_address(address: &str) -> std::io::Error {
    let mut message = String::from_str("invalid SSH address ");
    let quoted = debug_quoted(address);
    message.append(quoted.as_str());
    message.append("; expected host:port");
    invalid_input(message.as_str())
}

/// Splits an SSH address into host and port.
pub fn parse_address(address: &str) -> (parsed: std::io::Result<(String, u16)>)
    ensures
        match parsed {
            Ok((host, port)) => spec_parse_address(address@) == Some((host@, port)),
            Err(_) => spec_parse_address(address@) is None,
        },
{
    let chars = chars_of(address);
    let length = chars.len();
    if length > 0 && chars[0] == '[' {
        let split = match find_last_bracket_colon(&chars) {
            Some(split) => split,
            None => {
                return Err(invalid_address(address));
            },
        };
        match parse_u16_chars(&chars, split + 2, length) {
            Some(port) => {
                let host = address.substring_char(1, split).to_owned();
                Ok((host, port))
            },
            None => Err(invalid_address(address)),
        }
    } else {
        let split = match find_last_colon(&chars) {
            Some(split) if split > 0 => split,
            _ => {
                return Err(invalid_address(address));
            },
        };
        match parse_u16_chars(&chars, split + 1, length) {
            Some(port) => {
                let host = address.substring_char(0, split).to_owned();
                Ok((host, port))
            },
            None => Err(invalid_address(address)),
        }
    }
}

/// Parses a port number as `str::parse::<u16>` does.
pub fn parse_port(address: &str, port: &str) -> (parsed: std::io::Result<u16>)
    ensures
        match parsed {
            Ok(value) => spec_parse_u16(port@) == Some(value),
            Err(_) => spec_parse_u16(port@) is None,
        },
{
    let chars = chars_of(port);
    match parse_u16_chars(&chars, 0, chars.len()) {
        Some(value) => {
            assert(chars@.subrange(0, chars@.len() as int) =~= port@);
            Ok(value)
        },
        None => {
            assert(chars@.subrange(0, chars@.len() as int) =~= port@);
            Err(invalid_address(address))
        },
    }
}

/// Bytes allowed in a remote event path.
pub open spec fn is_path_byte(byte: u8) -> bool {
    ||| 'a' as u8 <= byte <= 'z' as u8
    ||| 'A' as u8 <= byte <= 'Z' as u8
    ||| '0' as u8 <= byte <= '9' as u8
    ||| byte == '/' as u8
    ||| byte == '_' as u8
    ||| byte == '-' as u8
    ||| byte == '.' as u8
}

/// A remote event path is absolute, longer than `/`, and made only of ASCII
/// letters, digits, `/`, `_`, `-` and `.`, so that it is safe inside quotes.
pub open spec fn is_safe_event_path(bytes: Seq<u8>) -> bool {
    &&& bytes.len() > 1
    &&& bytes[0] == '/' as u8
    &&& forall|i: int| 0 <= i < bytes.len() ==> is_path_byte(#[trigger] bytes[i])
}

/// An accepted event path holds no quote, backslash, space, `$` or `;`, so
/// the single-quoted remote command cannot be broken out of.
pub proof fn lemma_safe_path_cannot_escape_quotes(bytes: Seq<u8>)
    requires
        is_safe_event_path(bytes),
    ensures
        forall|i: int|
            0 <= i < bytes.len() ==> #[trigger] bytes[i] != '\'' as u8 && bytes[i] != '\\' as u8
                && bytes[i] != ' ' as u8 && bytes[i] != '$' as u8 && bytes[i] != ';' as u8,
{
    assert forall|i: int| 0 <= i < bytes.len() implies #[trigger] bytes[i] != '\'' as u8 && bytes[i]
        != '\\' as u8 && bytes[i] != ' ' as u8 && bytes[i] != '$' as u8 && bytes[i] != ';' as u8 by {
        assert(is_path_byte(bytes[i]));
    }
}

/// Accepts only absolute, shell-safe remote event paths.
pub fn validate_event_file(path: &str) -> (validated: std::io::Result<()>)
    ensures
        validated is Ok <==> is_safe_event_path(path.spec_bytes()),
{
    let bytes = path.as_bytes();
    let mut safe = bytes.len() > 1 && bytes[0] == 47u8;
    let mut i: usize = 0;
    while safe && i < bytes.len()
        invariant
            bytes@ == path.spec_bytes(),
            i <= bytes@.len(),
            safe ==> bytes@.len() > 1 && bytes@[0] == '/' as u8,
            safe ==> forall|j: int| 0 <= j < i ==> is_path_byte(#[trigger] bytes@[j]),
            !safe ==> !is_safe_event_path(bytes@),
        decreases bytes@.len() - i,
    {
        let byte = bytes[i];
        let allowed = (97u8 <= byte && byte <= 122u8) || (65u8 <= byte && byte <= 90u8) || (48u8
            <= byte && byte <= 57u8) || byte == 47u8 || byte == 95u8 || byte == 45u8 || byte == 46u8;
        if !allowed {
            safe = false;
        }
        i = i + 1;
    }
    if safe {
        Ok(())
    } else {
        Err(
            invalid_input(
                "event file must be an absolute path containing only letters, numbers, '/', '_', '-', and '.'",
            ),
        )
    }
}

/// The remote command that streams the event file.
pub fn event_command(path: &str) -> (command: String)
    ensures
        command@ == "cat '"@ + path@ + "'"@,
{
    let mut command = String::from_str("cat '");
    command.append(path);
    command.append("'");
    command
}

/// The error text for a remote event command that exited with a failure
/// status: the status and the trimmed standard error; `None` for a command
/// that exited successfully or whose status is unknown.
pub fn remote_failure(exit_status: Option<u32>, stderr: &str) -> (message: Option<String>)
    ensures
        match exit_status {
            Some(status) if status != 0 => message matches Some(message) && message@
                == "remote event command failed with status "@ + decimal(status as int) + ": "@
                + trim(stderr@),
            _ => message is None,
        },
{
    match exit_status {
        Some(status) => if status != 0 {
            let mut message = String::from_str("remote event command failed with status ");
            append_unsigned(&mut message, status as u64);
            message.append(": ");
            let detail = trimmed(stderr);
            message.append(detail.as_str());
            Some(message)
        } else {
            None
        },
        None => None,
    }
}

/// The bytes of streamed chunks not yet handed to the reader.
///
/// `received` is every byte of every chunk accepted, `delivered` every byte
/// handed out, and `remaining` what is left of the current chunk.
pub struct ChunkBuffer {
    current: Vec<u8>,
    offset: usize,
    received: Ghost<Seq<u8>>,
    delivered: Ghost<Seq<u8>>,
}

impl ChunkBuffer {
    pub closed spec fn remaining(&self) -> Seq<u8> {
        self.current@.subrange(self.offset as int, self.current@.len() as int)
    }

    pub closed spec fn received(&self) -> Seq<u8> {
        self.received@
    }

    pub closed spec fn delivered(&self) -> Seq<u8> {
        self.delivered@
    }

    /// Every byte received is delivered or remaining, in order.
    pub closed spec fn well_formed(&self) -> bool {
        &&& self.offset <= self.current@.len()
        &&& self.delivered@ + self.remaining() == self.received@
    }

    pub fn new() -> (buffer: Self)
        ensures
            buffer.well_formed(),
            buffer.remaining() == Seq::<u8>::empty(),
            buffer.received() == Seq::<u8>::empty(),
            buffer.delivered() == Seq::<u8>::empty(),
    {
        let buffer = ChunkBuffer {
            current: Vec::new(),
            offset: 0,
            received: Ghost(Seq::empty()),
            delivered: Ghost(Seq::empty()),
        };
        assert(buffer.remaining() =~= Seq::<u8>::empty());
        buffer
    }

    /// Whether the current chunk is used up.
    pub fn needs_chunk(&self) -> (needs: bool)
        requires
            self.well_formed(),
        ensures
            needs == (self.remaining().len() == 0),
    {
        self.offset >= self.current.len()
    }

    /// Takes the next chunk once the current one is used up; an empty chunk
    /// changes nothing.
    pub fn accept(&mut self, chunk: Vec<u8>)
        requires
            old(self).well_formed(),
            old(self).remaining().len() == 0,
        ensures
            final(self).well_formed(),
            final(self).remaining() == chunk@,
            final(self).received() == old(self).received() + chunk@,
            final(self).delivered() == old(self).delivered(),
    {
        proof {
            assert(self.delivered@ =~= self.received@);
        }
        if chunk.len() > 0 {
            self.current = chunk;
            self.offset = 0;
            self.received = Ghost(self.received@ + self.current@);
            assert(self.remaining() =~= self.current@);
        } else {
            assert(chunk@ =~= Seq::<u8>::empty());
            assert(self.received@ + chunk@ =~= self.received@);
        }
    }

    /// Hands out as many remaining bytes as fit at the front of `output`
    /// and says how many.
    pub fn copy_into(&mut self, output: &mut [u8]) -> (copied: usize)
        requires
            old(self).well_formed(),
        ensures
            final(self).well_formed(),
            copied == if old(output)@.len() < old(self).remaining().len() {
                old(output)@.len()
            } else {
                old(self).remaining().len()
            },
            final(output)@ == old(self).remaining().take(copied as int) + old(output)@.skip(copied as int),
            final(self).remaining() == old(self).remaining().skip(copied as int),
            final(self).delivered() == old(self).delivered() + old(self).remaining().take(copied as int),
            final(self).received() == old(self).received(),
    {
        let available = self.current.len() - self.offset;
        let length = if output.len() < available {
            output.len()
        } else {
            available
        };
        let ghost before = self.remaining();
        let ghost original = output@;
        let mut i: usize = 0;
        while i < length
            invariant
                length <= output@.len(),
                self.offset + length <= self.current.len(),
                before == self.current@.subrange(self.offset as int, self.current@.len() as int),
                output@.len() == original.len(),
                i <= length,
                forall|j: int| 0 <= j < i ==> output@[j] == before[j],
                forall|j: int| i <= j < output@.len() ==> output@[j] == original[j],
            decreases length - i,
        {
            let byte = self.current[self.offset + i];
            output[i] = byte;
            i = i + 1;
        }
        self.offset = self.offset + length;
        self.delivered = Ghost(self.delivered@ + before.take(length as int));
        assert(output@ =~= before.take(length as int) + original.skip(length as int));
        assert(self.remaining() =~= before.skip(length as int));
        assert(self.delivered@ + self.remaining() =~= self.received@) by {
            assert(before.take(length as int) + before.skip(length as int) =~= before);
        }
        length
    }
}

/// The bytes a stream reader hands out are exactly the bytes of the chunks
/// it received, in order: what was delivered, followed by what remains,
/// is all that was received.
pub proof fn lemma_chunks_delivered_in_order(buffer: &ChunkBuffer)
    requires
        buffer.well_formed(),
    ensures
        buffer.delivered() + buffer.remaining() == buffer.received(),
        buffer.delivered().len() <= buffer.received().len(),
        buffer.delivered() == buffer.received().take(buffer.delivered().len() as int),
{
    assert(buffer.received().take(buffer.delivered().len() as int) =~= buffer.delivered());
}

} // verus!
