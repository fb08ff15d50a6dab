//! Classifying operator input and encoding `write` commands.
//!
//! The console session reads one line at a time. A line is `help` (after
//! trailing whitespace is dropped), a `read`-prefixed command, a
//! `write`-prefixed command, or unknown. A `write` line is handed whole to
//! [`parse_write`], which encodes it as an 11-byte frame or rejects it.

use crate::errors::EncodeError;
use crate::frame::{encode_frame, frame_spec, FRAME_LEN, MIN_OVERLONG_VALUE};
use crate::numbers::{parse_u8_chars, parse_u8_spec, parse_u64_chars, parse_u64_spec};
use crate::tokens::{is_space, is_space_char, split_tokens, tokens_of, views_of};
use vstd::prelude::*;

verus! {

/// The command kinds the console session distinguishes.
#[derive(Clone, Copy, Debug, PartialEq, Eq, Structural)]
pub enum Command {
    /// Print the available command syntax.
    Help,
    /// A `read`-prefixed line; reading is not implemented by the hub yet.
    Read,
    /// A `write`-prefixed line, to be encoded as a configuration frame.
    Write,
    /// Anything else.
    Unknown,
}

/// `s` with every trailing whitespace character dropped.
pub open spec fn trim_end_spec(s: Seq<char>) -> Seq<char>
    decreases s.len(),
{
    if s.len() > 0 && is_space(s.last()) {
        trim_end_spec(s.drop_last())
    } else {
        s
    }
}

/// `t` is exactly the word `help`.
pub open spec fn is_help_word(t: Seq<char>) -> bool {
    t.len() == 4 && t[0] == 'h' && t[1] == 'e' && t[2] == 'l' && t[3] == 'p'
}

/// `t` begins with the word `read`.
pub open spec fn has_read_prefix(t: Seq<char>) -> bool {
    t.len() >= 4 && t[0] == 'r' && t[1] == 'e' && t[2] == 'a' && t[3] == 'd'
}

/// `t` begins with the word `write`.
pub open spec fn has_write_prefix(t: Seq<char>) -> bool {
    t.len() >= 5 && t[0] == 'w' && t[1] == 'r' && t[2] == 'i' && t[3] == 't' && t[4] == 'e'
}

/// How a line is classified: the literal `help` once trailing whitespace is
/// dropped, then by its leading keyword. The keyword is matched as a bare
/// prefix, so `readable` still counts as a `read` command.
pub open spec fn classify_spec(s: Seq<char>) -> Command {
    let t = trim_end_spec(s);
    if is_help_word(t) {
        Command::Help
    } else if has_read_prefix(t) {
        Command::Read
    } else if has_write_prefix(t) {
        Command::Write
    } else {
        Command::Unknown
    }
}

/// The index right after the last non-whitespace character of `s`.
fn trimmed_end(s: &str) -> (e: usize)
    ensures
        e <= s@.len(),
        e == trim_end_spec(s@).len(),
        trim_end_spec(s@) == s@.subrange(0, e as int),
{
    let n = s.unicode_len();
    let mut e: usize = n;
    proof {
        assert(s@.subrange(0, n as int) =~= s@);
    }
    loop
        invariant
            e <= n,
            n == s@.len(),
            trim_end_spec(s@) == trim_end_spec(s@.subrange(0, e as int)),
        ensures
            e <= n,
            trim_end_spec(s@) == trim_end_spec(s@.subrange(0, e as int)),
            e == 0 || !is_space(s@[e - 1]),
        decreases e,
    {
        if e == 0 {
            break ;
        }
        let c = s.get_char(e - 1);
        if !is_space_char(c) {
            break ;
        }
        proof {
            assert(s@.subrange(0, e as int).drop_last() =~= s@.subrange(0, e - 1));
        }
        e -= 1;
    }
    proof {
        assert(trim_end_spec(s@.subrange(0, e as int)) == s@.subrange(0, e as int));
    }
    e
}

/// Classifies one line of operator input.
pub fn classify(line: &str) -> (c: Command)
    ensures
        c == classify_spec(line@),
{
    let e = trimmed_end(line);
    let ghost t = trim_end_spec(line@);
    proof {
        assert forall|i: int| 0 <= i < t.len() implies t[i] == line@[i] by {
            assert(t[i] == line@.subrange(0, e as int)[i]);
        }
    }
    if e == 4 && line.get_char(0) == 'h' && line.get_char(1) == 'e' && line.get_char(2) == 'l'
        && line.get_char(3) == 'p' {
        Command::Help
    } else if e >= 4 && line.get_char(0) == 'r' && line.get_char(1) == 'e' && line.get_char(2)
        == 'a' && line.get_char(3) == 'd' {
        Command::Read
    } else if e >= 5 && line.get_char(0) == 'w' && line.get_char(1) == 'r' && line.get_char(2)
        == 'i' && line.get_char(3) == 't' && line.get_char(4) == 'e' {
        Command::Write
    } else {
        Command::Unknown
    }
}

/// What [`parse_write`] returns for a line: reject a line that is not
/// exactly 4 tokens, then a numeric field that does not parse, then a value
/// too large for the payload; otherwise the encoded frame.
pub open spec fn parse_write_spec(s: Seq<char>) -> Result<Seq<u8>, EncodeError> {
    let toks = tokens_of(s);
    if toks.len() != 4 {
        Err(EncodeError::MalformedCommand)
    } else if parse_u8_spec(toks[1]) is None || parse_u8_spec(toks[2]) is None || parse_u64_spec(
        toks[3],
    ) is None {
        Err(EncodeError::InvalidField)
    } else if parse_u64_spec(toks[3])->Some_0 >= MIN_OVERLONG_VALUE {
        Err(EncodeError::PayloadTooLarge)
    } else {
        Ok(
            frame_spec(
                parse_u8_spec(toks[1])->Some_0,
                parse_u8_spec(toks[2])->Some_0,
                parse_u64_spec(toks[3])->Some_0,
            ),
        )
    }
}

/// Encodes a `write` command line as an 11-byte configuration frame.
///
/// The line must split into exactly 4 whitespace-delimited tokens; the first
/// is the keyword and is not inspected, the rest are the node id, the
/// parameter index, and the parameter value. On success the frame is always
/// exactly 11 bytes.
pub fn parse_write(command: &str) -> (r: Result<Vec<u8>, EncodeError>)
    ensures
        r is Ok <==> parse_write_spec(command@) is Ok,
        r is Ok ==> r->Ok_0@ == parse_write_spec(command@)->Ok_0,
        r is Err ==> r->Err_0 == parse_write_spec(command@)->Err_0,
        r is Ok ==> r->Ok_0@.len() == FRAME_LEN,
{
    let toks = split_tokens(command);
    proof {
        assert(toks@.len() == views_of(toks@).len());
    }
    if toks.len() != 4 {
        return Err(EncodeError::MalformedCommand);
    }
    let node_id_opt = parse_u8_chars(&toks[1]);
    let param_index_opt = parse_u8_chars(&toks[2]);
    let param_value_opt = parse_u64_chars(&toks[3]);
    proof {
        assert(toks@[1]@ == views_of(toks@)[1]);
        assert(toks@[2]@ == views_of(toks@)[2]);
        assert(toks@[3]@ == views_of(toks@)[3]);
    }
    match (node_id_opt, param_index_opt, param_value_opt) {
        (Some(node_id), Some(param_index), Some(param_value)) => encode_frame(
            node_id,
            param_index,
            param_value,
        ),
        _ => Err(EncodeError::InvalidField),
    }
}

} // verus!
