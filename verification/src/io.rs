//! The line codec: text goes out as a line, a line comes in as text.
use vstd::prelude::*;
use vstd::string::*;
use vstd::utf8::*;
use crate::error::{Error, Fault};
use crate::smtp::crlf;
use crate::stream::{after_first_line, decode, first_line, Stream};
use crate::text::{to_chars, trim, trimmed};

verus! {

/// What the end of a written text is: the end of a line, or nothing.
pub open spec fn line_end(add_newline: bool) -> Seq<u8> {
    if add_newline {
        crlf()
    } else {
        Seq::empty()
    }
}

/// What a line says: its text without the white space at either end, the end
/// of the line among it. Nothing where the bytes are no UTF-8.
pub open spec fn line_text(line: Seq<u8>) -> Option<Seq<char>> {
    if valid_utf8(line) {
        Some(trim(decode_utf8(line)))
    } else {
        None
    }
}

/// Queues `msg` to go out, followed by the end of a line if asked.
pub fn tx(stream: &mut Stream, msg: &str, add_newline: bool)
    ensures
        final(stream).outbound() == old(stream).outbound() + encode_utf8(msg@) + line_end(
            add_newline,
        ),
        final(stream).inbound() == old(stream).inbound(),
        final(stream).secure() == old(stream).secure(),
{
    let mut bytes = msg.as_bytes_vec();
    if add_newline {
        bytes.push(13u8);
        bytes.push(10u8);
    }
    stream.send_mail(bytes.as_slice());
}

/// Reads one line where a whole one has come in, and returns what it says.
/// A line that is no UTF-8 is read and refused.
pub fn rx(stream: &mut Stream) -> (r: Result<Option<String>, Error>)
    ensures
        final(stream).inbound() == after_first_line(old(stream).inbound()),
        final(stream).outbound() == old(stream).outbound(),
        final(stream).secure() == old(stream).secure(),
        match first_line(old(stream).inbound()) {
            None => r matches Ok(None),
            Some(line) => match line_text(line) {
                None => r matches Err(e) && e@ == Fault::InvalidCommand(None),
                Some(text) => r matches Ok(Some(s)) && s@ == text,
            },
        },
{
    match stream.take_line() {
        None => Ok(None),
        Some(line) => match decode(line) {
            None => Err(Error::InvalidCommand(None)),
            Some(text) => {
                let chars = to_chars(text.as_str());
                Ok(Some(trimmed(&chars)))
            },
        },
    }
}

} // verus!
