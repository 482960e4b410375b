//! The text protocol of the command socket.
//!
//! A client connects, writes one command and closes the connection; nothing is
//! ever sent back. Whatever was received up to the end of the stream is the
//! command. Surrounding whitespace is ignored, so a trailing newline is
//! harmless. Anything that is not a known command is ignored.

use vstd::prelude::*;
use vstd::string::StringSliceAdditionalSpecFns;
use vstd::utf8::{decode_utf8, encode_utf8_decode_utf8, valid_utf8};
use crate::control::Msg;
use crate::text::chars_of;

verus! {

/// The characters that carry the Unicode property `White_Space`.
pub open spec fn is_whitespace(c: char) -> bool {
    let u = c as u32;
    ||| 0x09 <= u <= 0x0D
    ||| u == 0x20
    ||| u == 0x85
    ||| u == 0xA0
    ||| u == 0x1680
    ||| 0x2000 <= u <= 0x200A
    ||| u == 0x2028
    ||| u == 0x2029
    ||| u == 0x202F
    ||| u == 0x205F
    ||| u == 0x3000
}

/// `text` without its leading whitespace.
pub open spec fn trim_start(text: Seq<char>) -> Seq<char>
    decreases text.len(),
{
    if text.len() > 0 && is_whitespace(text[0]) {
        trim_start(text.drop_first())
    } else {
        text
    }
}

/// `text` without its trailing whitespace.
pub open spec fn trim_end(text: Seq<char>) -> Seq<char>
    decreases text.len(),
{
    if text.len() > 0 && is_whitespace(text.last()) {
        trim_end(text.drop_last())
    } else {
        text
    }
}

/// `text` without its leading and trailing whitespace.
pub open spec fn trimmed(text: Seq<char>) -> Seq<char> {
    trim_end(trim_start(text))
}

/// The control message that a received text asks for.
pub open spec fn command_of(text: Seq<char>) -> Option<Msg> {
    if trimmed(text) == "reload-config"@ {
        Some(Msg::ReloadConfig)
    } else if trimmed(text) == "shutdown"@ {
        Some(Msg::Shutdown)
    } else {
        None
    }
}

/// The control message that the received bytes ask for. Bytes that are not
/// UTF-8 ask for nothing.
pub open spec fn command_of_bytes(bytes: Seq<u8>) -> Option<Msg> {
    if valid_utf8(bytes) {
        command_of(decode_utf8(bytes))
    } else {
        None
    }
}

/// Trimming keeps a middle part of the text, and what it drops at either end
/// is whitespace only; what it keeps neither begins nor ends with whitespace.
pub proof fn law_trimming_keeps_the_core(text: Seq<char>)
    ensures
        exists|from: int, to: int|
            {
                &&& 0 <= from <= to <= text.len()
                &&& #[trigger] text.subrange(from, to) == trimmed(text)
                &&& forall|k: int| 0 <= k < from ==> is_whitespace(text[k])
                &&& forall|k: int| to <= k < text.len() ==> is_whitespace(text[k])
                &&& from < to ==> !is_whitespace(text[from]) && !is_whitespace(text[to - 1])
            },
{
    let from = lemma_trim_start_bounds(text);
    let rest = text.subrange(from, text.len() as int);
    let len = lemma_trim_end_bounds(rest);
    let to = from + len;
    assert(rest.subrange(0, len) =~= text.subrange(from, to));
    assert forall|k: int| to <= k < text.len() implies is_whitespace(text[k]) by {
        assert(rest[k - from] == text[k]);
    }
    if from < to {
        assert(rest[0] == text[from]);
        assert(rest[len - 1] == text[to - 1]);
    }
}

/// Where the text without its leading whitespace begins.
proof fn lemma_trim_start_bounds(text: Seq<char>) -> (from: int)
    ensures
        0 <= from <= text.len(),
        trim_start(text) == text.subrange(from, text.len() as int),
        forall|k: int| 0 <= k < from ==> is_whitespace(text[k]),
        from < text.len() ==> !is_whitespace(text[from]),
    decreases text.len(),
{
    if text.len() > 0 && is_whitespace(text[0]) {
        let tail = text.drop_first();
        let inner = lemma_trim_start_bounds(tail);
        assert(tail.subrange(inner, tail.len() as int) =~= text.subrange(
            inner + 1,
            text.len() as int,
        ));
        assert forall|k: int| 0 <= k < inner + 1 implies is_whitespace(text[k]) by {
            if k > 0 {
                assert(tail[k - 1] == text[k]);
            }
        }
        if inner + 1 < text.len() {
            assert(tail[inner] == text[inner + 1]);
        }
        inner + 1
    } else {
        assert(text.subrange(0, text.len() as int) =~= text);
        0
    }
}

/// Where the text without its trailing whitespace ends.
proof fn lemma_trim_end_bounds(text: Seq<char>) -> (to: int)
    ensures
        0 <= to <= text.len(),
        trim_end(text) == text.subrange(0, to),
        forall|k: int| to <= k < text.len() ==> is_whitespace(text[k]),
        0 < to ==> !is_whitespace(text[to - 1]),
    decreases text.len(),
{
    if text.len() > 0 && is_whitespace(text.last()) {
        let init = text.drop_last();
        let inner = lemma_trim_end_bounds(init);
        assert(init.subrange(0, inner) =~= text.subrange(0, inner));
        assert forall|k: int| inner <= k < text.len() implies is_whitespace(text[k]) by {
            if k < text.len() - 1 {
                assert(init[k] == text[k]);
            }
        }
        if 0 < inner {
            assert(init[inner - 1] == text[inner - 1]);
        }
        inner
    } else {
        assert(text.subrange(0, text.len() as int) =~= text);
        text.len() as int
    }
}

/// Whether `c` is whitespace.
pub fn is_space(c: char) -> (space: bool)
    ensures
        space == is_whitespace(c),
{
    let u: u32 = c as u32;
    (0x09 <= u && u <= 0x0D) || u == 0x20 || u == 0x85 || u == 0xA0 || u == 0x1680 || (0x2000 <= u
        && u <= 0x200A) || u == 0x2028 || u == 0x2029 || u == 0x202F || u == 0x205F || u == 0x3000
}

/// Whether the part of `chars` between `from` and `to` reads `word`.
fn part_reads(chars: &Vec<char>, from: usize, to: usize, word: &str) -> (reads: bool)
    requires
        from <= to <= chars.len(),
    ensures
        reads == (chars@.subrange(from as int, to as int) == word@),
{
    let letters = chars_of(word);
    if letters.len() != to - from {
        return false;
    }
    let mut k: usize = 0;
    while k < letters.len()
        invariant
            k <= letters.len(),
            letters@ == word@,
            letters.len() == to - from,
            from <= to <= chars.len(),
            forall|l: int| 0 <= l < k ==> chars@[from + l] == letters@[l],
        decreases letters.len() - k,
    {
        if chars[from + k] != letters[k] {
            assert(chars@.subrange(from as int, to as int)[k as int] == chars@[from + k]);
            return false;
        }
        k = k + 1;
    }
    assert(chars@.subrange(from as int, to as int) =~= letters@);
    true
}

/// Reads one command: `reload-config` asks for a reload, `shutdown` for a
/// shutdown, each with any amount of whitespace around it. Every other text
/// asks for nothing.
pub fn parse_command(command: &str) -> (msg: Option<Msg>)
    ensures
        msg == command_of(command@),
{
    let chars = chars_of(command);
    let n = chars.len();
    let mut from: usize = 0;
    assert(chars@.subrange(0, n as int) =~= chars@);
    while from < n && is_space(chars[from])
        invariant
            n == chars.len(),
            from <= n,
            trim_start(chars@) == trim_start(chars@.subrange(from as int, n as int)),
        decreases n - from,
    {
        assert(chars@.subrange(from as int, n as int).drop_first() =~= chars@.subrange(
            from + 1,
            n as int,
        ));
        from = from + 1;
    }
    assert(trim_start(chars@) == chars@.subrange(from as int, n as int));
    let mut to: usize = n;
    while from < to && is_space(chars[to - 1])
        invariant
            n == chars.len(),
            from <= to <= n,
            trim_end(chars@.subrange(from as int, n as int)) == trim_end(
                chars@.subrange(from as int, to as int),
            ),
        decreases to - from,
    {
        assert(chars@.subrange(from as int, to as int).drop_last() =~= chars@.subrange(
            from as int,
            to - 1,
        ));
        to = to - 1;
    }
    assert(trimmed(chars@) == chars@.subrange(from as int, to as int));
    if part_reads(&chars, from, to, "reload-config") {
        Some(Msg::ReloadConfig)
    } else if part_reads(&chars, from, to, "shutdown") {
        Some(Msg::Shutdown)
    } else {
        None
    }
}

/// `core::str::from_utf8`: the bytes as text if they are well-formed UTF-8,
/// and nothing otherwise. The text it gives is the one that is encoded by
/// exactly these bytes.
#[verifier::external_body]
fn text_of_bytes(bytes: &[u8]) -> (text: Option<&str>)
    ensures
        text is Some <==> valid_utf8(bytes@),
        text matches Some(t) ==> t.spec_bytes() == bytes@,
{
    core::str::from_utf8(bytes).ok()
}

/// Reads one command from what a connection delivered up to its end. Bytes
/// that are not UTF-8 are no command.
pub fn command_from_bytes(received: &[u8]) -> (msg: Option<Msg>)
    ensures
        msg == command_of_bytes(received@),
{
    match text_of_bytes(received) {
        Some(text) => {
            proof {
                encode_utf8_decode_utf8(text@);
            }
            parse_command(text)
        },
        None => None,
    }
}

/// Where the command socket lives in the file system.
pub fn socket_path() -> (path: &'static str)
    ensures
        path@ == "/tmp/mqtt2influxdb2.sock"@,
{
    "/tmp/mqtt2influxdb2.sock"
}

} // verus!
