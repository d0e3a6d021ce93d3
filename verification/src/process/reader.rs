//! Reading the output of an engine: bytes are cut into lines, blank lines
//! are passed over, and each other line is read as a command.
use vstd::prelude::*;
use vstd::slice::{slice_subrange, slice_to_vec};
use vstd::string::*;
use vstd::utf8::{decode_utf8, encode_utf8_decode_utf8, valid_utf8};
use std::time::Instant;
use crate::error::Error;
use crate::protocol::engine::{
    command_of, lemma_command_is_written, CommandModel, EngineCommand, Failure,
};
use crate::text::{char_is_whitespace, is_blank, is_whitespace};
use crate::time::now;

verus! {

/// `std::str::Utf8Error`, of which the library only asks whether there is
/// one.
#[verifier::external_type_specification]
#[verifier::external_body]
pub struct ExUtf8Error(std::str::Utf8Error);

/// `std::str::from_utf8` is not verified here. As the standard library
/// documents it, the call succeeds exactly on bytes that are valid UTF-8,
/// and the string it returns is made of these bytes.
pub assume_specification<'a>[ std::str::from_utf8 ](v: &'a [u8]) -> (r: Result<
    &'a str,
    std::str::Utf8Error,
>)
    ensures
        r is Ok <==> valid_utf8(v@),
        r is Ok ==> r->Ok_0.spec_bytes() == v@,
;

/// Whether the kind of an I/O error, which `std::io::Error::kind` tells,
/// is `ErrorKind::InvalidData`.
pub uninterp spec fn is_invalid_data(e: std::io::Error) -> bool;

/// Makes the error that reading a line gives when the line is not valid
/// UTF-8, by `std::io::Error::from`. As the standard library documents
/// it, the error made from a kind is of that kind, here `InvalidData`.
#[verifier::external_body]
fn invalid_data() -> (e: std::io::Error)
    ensures
        is_invalid_data(e),
{
    std::io::Error::from(std::io::ErrorKind::InvalidData)
}

/// One record of what an engine wrote: the command that was read, the
/// text it was read from, and the time at which it was read.
#[derive(Debug)]
pub struct EngineOutput {
    response: Option<EngineCommand>,
    raw_str: String,
    timestamp: Instant,
}

/// What an `EngineOutput` holds.
pub struct OutputModel {
    pub response: Option<CommandModel>,
    pub raw_str: Seq<char>,
    pub timestamp: Instant,
}

impl View for EngineOutput {
    type V = OutputModel;

    closed spec fn view(&self) -> OutputModel {
        OutputModel {
            response: match self.response {
                Some(c) => Some(c@),
                None => None,
            },
            raw_str: self.raw_str@,
            timestamp: self.timestamp,
        }
    }
}

impl EngineOutput {
    /// The command that was read; `None` at the end of the stream.
    pub fn response(&self) -> (r: &Option<EngineCommand>)
        ensures
            match self@.response {
                Some(m) => r matches Some(c) && c@ == m,
                None => r is None,
            },
    {
        &self.response
    }

    /// The line as it was read, with its leading whitespace and the
    /// newline that ends it.
    pub fn raw_str(&self) -> (s: &str)
        ensures
            s@ == self@.raw_str,
    {
        self.raw_str.as_str()
    }

    /// The time at which the record was read.
    pub fn timestamp(&self) -> (t: &Instant)
        ensures
            *t == self@.timestamp,
    {
        &self.timestamp
    }
}

/// The length of the first line of `bytes`: up to and with the first
/// newline, or all of `bytes` where there is no newline.
pub open spec fn line_len(bytes: Seq<u8>) -> int
    decreases bytes.len(),
{
    if bytes.len() == 0 {
        0
    } else if bytes[0] == 0x0A {
        1
    } else {
        1 + line_len(bytes.skip(1))
    }
}

/// What reading one record comes to.
pub enum Reading {
    /// Nothing is left to read.
    End,
    /// A line that is not valid UTF-8.
    Invalid,
    /// A line that is not blank, as text.
    Line(Seq<char>),
}

/// What reading one record from `bytes` comes to, and the bytes that are
/// left after it. Lines are taken one by one; blank lines are passed
/// over; the first line that is not blank, or not valid UTF-8, is the
/// record.
pub open spec fn next_reading(bytes: Seq<u8>) -> (Reading, Seq<u8>)
    decreases bytes.len(),
    via next_reading_decreases
{
    if bytes.len() == 0 {
        (Reading::End, bytes)
    } else {
        let n = line_len(bytes);
        let line = bytes.take(n);
        let rest = bytes.skip(n);
        if !valid_utf8(line) {
            (Reading::Invalid, rest)
        } else if is_blank(decode_utf8(line)) {
            next_reading(rest)
        } else {
            (Reading::Line(decode_utf8(line)), rest)
        }
    }
}

#[via_fn]
proof fn next_reading_decreases(bytes: Seq<u8>) {
    lemma_line_len(bytes);
}

/// Whether the outcome of reading a record is the one that `reading`
/// asks for: at the end of the stream a record without a command and with
/// empty text; for a line that is not valid UTF-8 an I/O error of the
/// kind `InvalidData`; for a line of text the command that the line is,
/// with the line as its text, or the error that decoding the line gives.
pub open spec fn delivers(r: Result<EngineOutput, Error>, reading: Reading) -> bool {
    match reading {
        Reading::End => r matches Ok(out) && out@.response is None && out@.raw_str
            == Seq::<char>::empty(),
        Reading::Invalid => r matches Err(Error::EngineIo(e)) && is_invalid_data(e),
        Reading::Line(text) => match command_of(text) {
            Ok(m) => r matches Ok(out) && out@.response == Some(m) && out@.raw_str == text,
            Err(Failure::Syntax) => r matches Err(Error::IllegalSyntax),
            Err(Failure::Number) => r matches Err(Error::IllegalNumberFormat(_)),
        },
    }
}

/// The first line is not empty and does not reach beyond the bytes.
pub proof fn lemma_line_len(bytes: Seq<u8>)
    ensures
        bytes.len() > 0 ==> 0 < line_len(bytes) <= bytes.len(),
        bytes.len() == 0 ==> line_len(bytes) == 0,
        forall|k: int| 0 <= k < line_len(bytes) - 1 ==> #[trigger] bytes[k] != 0x0A,
        line_len(bytes) < bytes.len() ==> bytes[line_len(bytes) - 1] == 0x0A,
    decreases bytes.len(),
{
    if bytes.len() > 0 && bytes[0] != 0x0A {
        let rest = bytes.skip(1);
        lemma_line_len(rest);
        assert forall|k: int| 0 <= k < line_len(bytes) - 1 implies #[trigger] bytes[k] != 0x0A by {
            if k > 0 {
                assert(bytes[k] == rest[k - 1]);
            }
        }
        if line_len(bytes) < bytes.len() {
            assert(bytes[line_len(bytes) - 1] == rest[line_len(rest) - 1]);
        }
    }
}

/// Tells whether nothing but whitespace is in `s`.
pub fn str_is_blank(s: &str) -> (b: bool)
    ensures
        b == is_blank(s@),
{
    let mut blank = true;
    for c in it: s.chars()
        invariant
            it.seq() == s@,
            blank == is_blank(s@.take(it.index())),
    {
        let ghost k = it.index();
        assert(s@.take(k + 1).drop_last() =~= s@.take(k));
        assert(s@.take(k + 1).last() == c);
        if !char_is_whitespace(c) {
            blank = false;
        }
        assert(blank == is_blank(s@.take(k + 1))) by {
            if is_blank(s@.take(k + 1)) {
                assert forall|i: int| 0 <= i < k implies is_whitespace(
                    #[trigger] s@.take(k)[i],
                ) by {
                    assert(s@.take(k)[i] == s@.take(k + 1)[i]);
                }
            } else if is_blank(s@.take(k)) && is_whitespace(c) {
                assert forall|i: int| 0 <= i < k + 1 implies is_whitespace(
                    #[trigger] s@.take(k + 1)[i],
                ) by {
                    if i < k {
                        assert(s@.take(k)[i] == s@.take(k + 1)[i]);
                    }
                }
            }
        }
    }
    assert(s@.take(s@.len() as int) =~= s@);
    blank
}

/// What one line comes to that was read from a stream on its own: the
/// end of the stream where the line is empty, for then nothing was left
/// to read; nothing where the line is blank, so that the next line is to
/// be read; and the line as text otherwise.
pub open spec fn line_reading(line: Seq<char>) -> Option<Reading> {
    if line.len() == 0 {
        Some(Reading::End)
    } else if is_blank(line) {
        None
    } else {
        Some(Reading::Line(line))
    }
}

impl EngineOutput {
    /// Takes one line that was read from a stream, and tells what to do
    /// with it: `None` says to read the next line, for this one is blank;
    /// otherwise the outcome is the record of the line, the record that
    /// marks the end of the stream where the line is empty, or the error
    /// that decoding the line gives.
    pub fn from_line(line: &str) -> (r: Option<Result<EngineOutput, Error>>)
        ensures
            match line_reading(line@) {
                Some(reading) => r matches Some(outcome) && delivers(outcome, reading),
                None => r is None,
            },
    {
        if line.is_empty() {
            Some(Ok(EngineOutput { response: None, raw_str: String::new(), timestamp: now() }))
        } else if str_is_blank(line) {
            None
        } else {
            match EngineCommand::parse(line) {
                Ok(response) => Some(
                    Ok(
                        EngineOutput {
                            response: Some(response),
                            raw_str: line.to_owned(),
                            timestamp: now(),
                        },
                    ),
                ),
                Err(e) => Some(Err(e)),
            }
        }
    }
}

/// Reads records from the bytes that an engine wrote.
#[derive(Debug)]
pub struct EngineCommandReader {
    receive: Vec<u8>,
    consumed: usize,
}

impl EngineCommandReader {
    #[verifier::type_invariant]
    spec fn inv(self) -> bool {
        self.consumed <= self.receive.len()
    }

    /// The bytes that have not been read yet.
    pub closed spec fn remaining(&self) -> Seq<u8> {
        self.receive@.skip(self.consumed as int)
    }

    /// A reader of the given bytes.
    pub fn new(receive: &[u8]) -> (reader: Self)
        ensures
            reader.remaining() == receive@,
    {
        let reader = EngineCommandReader { receive: slice_to_vec(receive), consumed: 0 };
        assert(reader.receive@.skip(0) =~= receive@);
        reader
    }

    /// Reads the next record.
    ///
    /// Blank lines are passed over. At the end of the bytes the record
    /// has no command and empty text, and so has every record after it. A
    /// line that is not blank is taken from the bytes whatever comes of
    /// it: the record of its command, or the error that says why it is
    /// none.
    pub fn next_command(&mut self) -> (r: Result<EngineOutput, Error>)
        ensures
            delivers(r, next_reading(old(self).remaining()).0),
            final(self).remaining() == next_reading(old(self).remaining()).1,
    {
        proof {
            use_type_invariant(&*self);
        }
        let total: usize = self.receive.len();
        let mut start: usize = self.consumed;
        while start < total
            invariant
                self.consumed <= start <= total,
                total == self.receive.len(),
                self.receive == old(self).receive,
                next_reading(self.receive@.skip(start as int)) == next_reading(
                    old(self).remaining(),
                ),
            decreases total - start,
        {
            let ghost bytes = self.receive@.skip(start as int);
            let mut end: usize = start;
            assert(bytes.skip(0) =~= bytes);
            while end < total && self.receive[end] != 0x0Au8
                invariant
                    start <= end <= total,
                    total == self.receive.len(),
                    bytes == self.receive@.skip(start as int),
                    line_len(bytes) == (end - start) + line_len(bytes.skip(end - start)),
                decreases total - end,
            {
                proof {
                    let tail = bytes.skip(end - start);
                    assert(tail[0] == self.receive[end as int]);
                    assert(tail.skip(1) =~= bytes.skip(end + 1 - start));
                }
                end += 1;
            }
            proof {
                let tail = bytes.skip(end - start);
                if end < total {
                    assert(tail[0] == self.receive[end as int]);
                }
            }
            if end < total {
                end += 1;
            }
            assert(line_len(bytes) == end - start);
            let line = slice_subrange(self.receive.as_slice(), start, end);
            assert(line@ =~= bytes.take(end - start));
            assert(self.receive@.skip(end as int) =~= bytes.skip(end - start));
            match std::str::from_utf8(line) {
                Err(_) => {
                    self.consumed = end;
                    return Err(Error::EngineIo(invalid_data()));
                },
                Ok(text) => {
                    proof {
                        encode_utf8_decode_utf8(text@);
                        assert(text@.len() > 0) by {
                            if text@.len() == 0 {
                                assert(text@ =~= Seq::<char>::empty());
                                assert(text.spec_bytes().len() == 0);
                            }
                        }
                    }
                    if let Some(outcome) = EngineOutput::from_line(text) {
                        self.consumed = end;
                        return outcome;
                    }
                },
            }
            start = end;
        }
        self.consumed = total;
        assert(self.receive@.skip(total as int) =~= Seq::<u8>::empty());
        Ok(EngineOutput { response: None, raw_str: String::new(), timestamp: now() })
    }
}

/// Bytes that make up one line: at least one byte, and no newline but,
/// if any, at the very end.
pub open spec fn is_one_line(line: Seq<u8>) -> bool {
    &&& line.len() > 0
    &&& forall|i: int| 0 <= i < line.len() - 1 ==> #[trigger] line[i] != 0x0A
}

/// A line of text that ends in a newline and holds nothing but
/// whitespace.
pub open spec fn is_blank_line(line: Seq<u8>) -> bool {
    &&& is_one_line(line)
    &&& line.last() == 0x0A
    &&& valid_utf8(line)
    &&& is_blank(decode_utf8(line))
}

/// A line that ends in a newline, or after which nothing comes, is the
/// first line of what it begins.
pub proof fn lemma_first_line(line: Seq<u8>, rest: Seq<u8>)
    requires
        is_one_line(line),
        line.last() == 0x0A || rest.len() == 0,
    ensures
        line_len(line + rest) == line.len(),
        (line + rest).take(line.len() as int) == line,
        (line + rest).skip(line.len() as int) == rest,
    decreases line.len(),
{
    let whole = line + rest;
    assert(whole.take(line.len() as int) =~= line);
    assert(whole.skip(line.len() as int) =~= rest);
    assert(whole[0] == line[0]);
    if line.len() == 1 {
        if line[0] != 0x0A {
            assert(whole.skip(1) =~= rest);
            assert(line_len(rest) == 0);
        }
    } else {
        let tail = line.skip(1);
        assert(line[0] != 0x0A);
        assert(tail.last() == line.last());
        assert forall|i: int| 0 <= i < tail.len() - 1 implies #[trigger] tail[i] != 0x0A by {
            assert(tail[i] == line[i + 1]);
        }
        lemma_first_line(tail, rest);
        assert(whole.skip(1) =~= tail + rest);
    }
}

/// Reading passes over a blank line: what is read is what would be read
/// had the line not been there.
pub proof fn lemma_blank_line_skipped(line: Seq<u8>, rest: Seq<u8>)
    requires
        is_blank_line(line),
    ensures
        next_reading(line + rest) == next_reading(rest),
{
    lemma_first_line(line, rest);
}

/// Reading passes over any number of blank lines.
pub proof fn lemma_blank_lines_skipped(blanks: Seq<Seq<u8>>, rest: Seq<u8>)
    requires
        forall|i: int| 0 <= i < blanks.len() ==> is_blank_line(#[trigger] blanks[i]),
    ensures
        next_reading(blanks.flatten() + rest) == next_reading(rest),
    decreases blanks.len(),
{
    if blanks.len() == 0 {
        assert(blanks.flatten() + rest =~= rest);
    } else {
        let others = blanks.drop_first();
        assert forall|i: int| 0 <= i < others.len() implies is_blank_line(#[trigger] others[i]) by {
            assert(others[i] == blanks[i + 1]);
        }
        lemma_blank_lines_skipped(others, rest);
        assert(blanks.flatten() + rest =~= blanks.first() + (others.flatten() + rest));
        lemma_blank_line_skipped(blanks.first(), others.flatten() + rest);
    }
}

/// Any number of blank lines followed by one line that holds a command
/// make one record: the command of that line, with that line and no
/// blank line as its text. After it nothing is left but the end of the
/// stream.
pub proof fn lemma_one_record_after_blank_lines(
    blanks: Seq<Seq<u8>>,
    line: Seq<u8>,
    r: Result<EngineOutput, Error>,
)
    requires
        forall|i: int| 0 <= i < blanks.len() ==> is_blank_line(#[trigger] blanks[i]),
        is_one_line(line),
        valid_utf8(line),
        command_of(decode_utf8(line)) is Ok,
        command_of(decode_utf8(line)) != Ok::<CommandModel, Failure>(CommandModel::Unknown),
        delivers(r, next_reading(blanks.flatten() + line).0),
    ensures
        r is Ok,
        r->Ok_0@.response == Some(command_of(decode_utf8(line))->Ok_0),
        r->Ok_0@.raw_str == decode_utf8(line),
        next_reading(blanks.flatten() + line).1 == Seq::<u8>::empty(),
        next_reading(next_reading(blanks.flatten() + line).1).0 == Reading::End,
{
    lemma_command_is_written(decode_utf8(line));
    lemma_blank_lines_skipped(blanks, line);
    lemma_first_line(line, Seq::<u8>::empty());
    assert(line + Seq::<u8>::empty() =~= line);
}

/// At the end of the stream reading changes nothing: the next reading
/// meets the end of the stream again, with the same bytes left, which are
/// none.
pub proof fn lemma_end_of_stream(bytes: Seq<u8>)
    requires
        next_reading(bytes).0 == Reading::End,
    ensures
        next_reading(bytes).1 == Seq::<u8>::empty(),
        next_reading(next_reading(bytes).1) == next_reading(bytes),
    decreases bytes.len(),
{
    if bytes.len() > 0 {
        lemma_line_len(bytes);
        lemma_end_of_stream(bytes.skip(line_len(bytes)));
    } else {
        assert(bytes =~= Seq::<u8>::empty());
    }
}

/// Reading a record takes at least one byte, unless it meets the end of
/// the stream.
pub proof fn lemma_reading_consumes(bytes: Seq<u8>)
    ensures
        next_reading(bytes).1.len() <= bytes.len(),
        !(next_reading(bytes).0 is End) ==> next_reading(bytes).1.len() < bytes.len(),
    decreases bytes.len(),
{
    if bytes.len() > 0 {
        lemma_line_len(bytes);
        lemma_reading_consumes(bytes.skip(line_len(bytes)));
    }
}

} // verus!
