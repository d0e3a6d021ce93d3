//! Writing commands for an engine: each command becomes one line of
//! bytes.
use vstd::prelude::*;
use vstd::slice::slice_to_vec;
use vstd::string::*;
use vstd::utf8::encode_utf8;
use crate::error::Error;
use crate::protocol::gui::GuiCommand;

verus! {

/// The bytes of the line that carries `command`: its text, then one
/// newline, in UTF-8.
pub open spec fn line_of(command: &GuiCommand) -> Seq<u8> {
    encode_utf8(command.encoding() + seq!['\n'])
}

/// Writes the line that carries `command`.
pub fn encode_line(command: &GuiCommand) -> (line: Vec<u8>)
    ensures
        line@ == line_of(command),
{
    let mut text = command.to_string();
    proof {
        reveal_strlit("\n");
        assert("\n"@ =~= seq!['\n']);
    }
    text.append("\n");
    slice_to_vec(text.as_str().as_bytes())
}

/// Collects the lines of the commands that are sent, in the order in
/// which they are sent.
#[derive(Debug)]
pub struct GuiCommandWriter {
    writer: Vec<u8>,
}

impl GuiCommandWriter {
    /// All the bytes written so far, with those that the writer began
    /// with.
    pub closed spec fn written(&self) -> Seq<u8> {
        self.writer@
    }

    /// A writer that goes on after the bytes of `writer`.
    pub fn new(writer: Vec<u8>) -> (w: Self)
        ensures
            w.written() == writer@,
    {
        GuiCommandWriter { writer }
    }

    /// Writes `command` as one line. This cannot fail.
    pub fn send(&mut self, command: &GuiCommand) -> (r: Result<(), Error>)
        ensures
            r is Ok,
            final(self).written() == old(self).written() + line_of(command),
    {
        let line = encode_line(command);
        self.writer.extend_from_slice(line.as_slice());
        Ok(())
    }

    /// The bytes written so far.
    pub fn get_ref(&self) -> (bytes: &Vec<u8>)
        ensures
            bytes@ == self.written(),
    {
        &self.writer
    }

    /// Gives the bytes written so far and leaves the writer empty.
    pub fn take(&mut self) -> (bytes: Vec<u8>)
        ensures
            bytes@ == old(self).written(),
            final(self).written() == Seq::<u8>::empty(),
    {
        let mut bytes: Vec<u8> = Vec::new();
        std::mem::swap(&mut bytes, &mut self.writer);
        bytes
    }
}

} // verus!
