//! The rules of a session with an engine: what the engine says of itself
//! during the handshake, who holds the reader of its output, and what is
//! done with each record that is read.
use vstd::prelude::*;
use vstd::string::*;
use crate::error::Error;
use crate::process::reader::{
    delivers, is_invalid_data, lemma_reading_consumes, next_reading, EngineCommandReader,
    EngineOutput, Reading,
};
use crate::protocol::engine::{
    command_of, CommandModel, EngineCommand, Failure, IdModel, IdParams, OptionKind,
    OptionKindModel, OptionParams,
};
use crate::protocol::gui::GuiCommand;
use crate::text::{i32_to_string, signed_decimal};

verus! {

/// The text that stands for the default of an option: `true` or `false`
/// for a check, the decimal numeral for a spin, the default itself for
/// the other kinds, and nothing where the engine declared no default.
pub open spec fn default_text(value: OptionKindModel) -> Seq<char> {
    match value {
        OptionKindModel::Check { default: Some(on) } => if on {
            "true"@
        } else {
            "false"@
        },
        OptionKindModel::Spin { default: Some(n), .. } => signed_decimal(n as int),
        OptionKindModel::Combo { default: Some(s), .. } => s,
        OptionKindModel::Button { default: Some(s) } => s,
        OptionKindModel::String { default: Some(s) } => s,
        OptionKindModel::Filename { default: Some(s) } => s,
        _ => Seq::empty(),
    }
}

/// Writes the default of an option as text.
pub fn default_value(value: &OptionKind) -> (s: String)
    ensures
        s@ == default_text(value@),
{
    match value {
        OptionKind::Check { default: Some(on) } => {
            if *on {
                String::from_str("true")
            } else {
                String::from_str("false")
            }
        },
        OptionKind::Spin { default: Some(n), .. } => i32_to_string(*n),
        OptionKind::Combo { default: Some(s), .. } => s.clone(),
        OptionKind::Button { default: Some(s) } => s.clone(),
        OptionKind::String { default: Some(s) } => s.clone(),
        OptionKind::Filename { default: Some(s) } => s.clone(),
        _ => String::new(),
    }
}

/// The map that a list of pairs writes down, read from left to right: a
/// later pair replaces an earlier one of the same key.
pub open spec fn pairs_map(pairs: Seq<(String, String)>) -> Map<Seq<char>, Seq<char>>
    decreases pairs.len(),
{
    if pairs.len() == 0 {
        Map::empty()
    } else {
        pairs_map(pairs.drop_last()).insert(pairs.last().0@, pairs.last().1@)
    }
}

/// No key stands twice in the list.
pub open spec fn distinct_keys(pairs: Seq<(String, String)>) -> bool {
    forall|i: int, j: int|
        0 <= i < j < pairs.len() ==> (#[trigger] pairs[i]).0@ != (#[trigger] pairs[j]).0@
}

/// What an engine said of itself during the handshake.
#[derive(Debug)]
pub struct EngineInfo {
    name: String,
    options: Vec<(String, String)>,
}

/// What an `EngineInfo` holds: the name of the engine, and for each
/// option that the engine declared the text of its default.
pub struct EngineInfoModel {
    pub name: Seq<char>,
    pub options: Map<Seq<char>, Seq<char>>,
}

impl EngineInfoModel {
    /// What is known before the engine has said anything.
    pub open spec fn blank() -> EngineInfoModel {
        EngineInfoModel { name: Seq::empty(), options: Map::empty() }
    }

    /// What is known after one more command of the engine. A name
    /// replaces the name known before, and the declaration of an option
    /// replaces what was known of an option of that name; no other
    /// command tells anything.
    pub open spec fn after(self, command: CommandModel) -> EngineInfoModel {
        match command {
            CommandModel::Id(IdModel::Name(name)) => EngineInfoModel { name, ..self },
            CommandModel::Option(option) => EngineInfoModel {
                options: self.options.insert(option.name, default_text(option.value)),
                ..self
            },
            _ => self,
        }
    }
}

impl View for EngineInfo {
    type V = EngineInfoModel;

    closed spec fn view(&self) -> EngineInfoModel {
        EngineInfoModel { name: self.name@, options: pairs_map(self.options@) }
    }
}

/// Replacing the value of a pair whose key stands once is the same as
/// writing the pair anew.
proof fn lemma_pairs_map_update(pairs: Seq<(String, String)>, at: int, pair: (String, String))
    requires
        0 <= at < pairs.len(),
        distinct_keys(pairs),
        pairs[at].0@ == pair.0@,
    ensures
        distinct_keys(pairs.update(at, pair)),
        pairs_map(pairs.update(at, pair)) == pairs_map(pairs).insert(pair.0@, pair.1@),
    decreases pairs.len(),
{
    let updated = pairs.update(at, pair);
    assert(distinct_keys(updated)) by {
        assert forall|i: int, j: int| 0 <= i < j < updated.len() implies (#[trigger] updated[i]).0@
            != (#[trigger] updated[j]).0@ by {
            assert(pairs[i].0@ != pairs[j].0@);
        }
    }
    if at == pairs.len() - 1 {
        assert(updated.drop_last() =~= pairs.drop_last());
        assert(pairs_map(updated) =~= pairs_map(pairs).insert(pair.0@, pair.1@));
    } else {
        let front = pairs.drop_last();
        assert(distinct_keys(front)) by {
            assert forall|i: int, j: int| 0 <= i < j < front.len() implies (#[trigger] front[i]).0@
                != (#[trigger] front[j]).0@ by {
                assert(pairs[i].0@ != pairs[j].0@);
            }
        }
        lemma_pairs_map_update(front, at, pair);
        assert(updated.drop_last() =~= front.update(at, pair));
        assert(updated.last() == pairs.last());
        assert(pairs[at].0@ != pairs[pairs.len() - 1].0@);
        assert(pairs_map(updated) =~= pairs_map(pairs).insert(pair.0@, pair.1@));
    }
}

/// A key that stands in no pair is not in the map.
proof fn lemma_pairs_map_keys(pairs: Seq<(String, String)>, key: Seq<char>)
    ensures
        pairs_map(pairs).contains_key(key) <==> exists|i: int|
            0 <= i < pairs.len() && (#[trigger] pairs[i]).0@ == key,
    decreases pairs.len(),
{
    if pairs.len() > 0 {
        let front = pairs.drop_last();
        lemma_pairs_map_keys(front, key);
        if pairs_map(pairs).contains_key(key) {
            if pairs.last().0@ == key {
                assert(pairs[pairs.len() - 1].0@ == key);
            } else {
                let i = choose|i: int| 0 <= i < front.len() && (#[trigger] front[i]).0@ == key;
                assert(pairs[i].0@ == key);
            }
        }
        if exists|i: int| 0 <= i < pairs.len() && (#[trigger] pairs[i]).0@ == key {
            let i = choose|i: int| 0 <= i < pairs.len() && (#[trigger] pairs[i]).0@ == key;
            if i < front.len() {
                assert(front[i].0@ == key);
            }
        }
    }
}

impl EngineInfo {
    #[verifier::type_invariant]
    spec fn inv(self) -> bool {
        distinct_keys(self.options@)
    }

    /// Nothing known yet: no name, no option.
    pub fn new() -> (info: EngineInfo)
        ensures
            info@ == EngineInfoModel::blank(),
    {
        EngineInfo { name: String::new(), options: Vec::new() }
    }

    /// The name of the engine; empty until the engine has told it.
    pub fn name(&self) -> (s: &str)
        ensures
            s@ == self@.name,
    {
        self.name.as_str()
    }

    /// The options of the engine: each name once, with the text of the
    /// default.
    pub fn options(&self) -> (pairs: &Vec<(String, String)>)
        ensures
            distinct_keys(pairs@),
            pairs_map(pairs@) == self@.options,
    {
        proof {
            use_type_invariant(self);
        }
        &self.options
    }

    /// The text of the default of the option `name`, if the engine
    /// declared an option of that name.
    pub fn option(&self, name: &str) -> (r: Option<&String>)
        ensures
            match r {
                Some(text) => self@.options.contains_key(name@) && self@.options[name@] == text@,
                None => !self@.options.contains_key(name@),
            },
    {
        proof {
            use_type_invariant(self);
        }
        let key = String::from_str(name);
        let mut i: usize = 0;
        while i < self.options.len()
            invariant
                i <= self.options.len(),
                key@ == name@,
                distinct_keys(self.options@),
                forall|k: int| 0 <= k < i ==> (#[trigger] self.options@[k]).0@ != name@,
            decreases self.options.len() - i,
        {
            if self.options[i].0 == key {
                proof {
                    lemma_pairs_map_update(self.options@, i as int, self.options@[i as int]);
                    assert(self.options@.update(i as int, self.options@[i as int])
                        =~= self.options@);
                }
                return Some(&self.options[i].1);
            }
            i += 1;
        }
        proof {
            lemma_pairs_map_keys(self.options@, name@);
        }
        None
    }

    /// Takes note of one command of the engine.
    pub fn record(&mut self, command: &EngineCommand)
        ensures
            final(self)@ == old(self)@.after(command@),
    {
        proof {
            use_type_invariant(&*self);
        }
        match command {
            EngineCommand::Id(IdParams::Name(name)) => {
                self.name = name.clone();
            },
            EngineCommand::Option(OptionParams { name, value }) => {
                let text = default_value(value);
                let key = name.clone();
                let mut options: Vec<(String, String)> = Vec::new();
                std::mem::swap(&mut options, &mut self.options);
                let ghost before = options@;
                let mut i: usize = 0;
                let mut found: Option<usize> = None;
                while i < options.len()
                    invariant_except_break
                        i <= options.len(),
                        found is None,
                        forall|k: int| 0 <= k < i ==> (#[trigger] options@[k]).0@ != name@,
                    invariant
                        key@ == name@,
                    ensures
                        match found {
                            Some(at) => at < options.len() && options@[at as int].0@ == name@,
                            None => forall|k: int|
                                0 <= k < options.len() ==> (#[trigger] options@[k]).0@ != name@,
                        },
                    decreases options.len() - i,
                {
                    if options[i].0 == key {
                        found = Some(i);
                        break ;
                    }
                    i += 1;
                }
                match found {
                    Some(at) => {
                        proof {
                            lemma_pairs_map_update(before, at as int, (key, text));
                        }
                        options.set(at, (key, text));
                    },
                    None => {
                        proof {
                            let pairs = before.push((key, text));
                            assert(pairs.drop_last() =~= before);
                            assert(distinct_keys(pairs));
                        }
                        options.push((key, text));
                    },
                }
                self.options = options;
            },
            _ => {},
        }
    }
}

impl Clone for EngineInfo {
    fn clone(&self) -> (info: EngineInfo)
        ensures
            info@ == self@,
    {
        proof {
            use_type_invariant(self);
        }
        let mut options: Vec<(String, String)> = Vec::new();
        let mut i: usize = 0;
        while i < self.options.len()
            invariant
                i <= self.options.len(),
                options@ == self.options@.take(i as int),
            decreases self.options.len() - i,
        {
            options.push((self.options[i].0.clone(), self.options[i].1.clone()));
            assert(options@ =~= self.options@.take(i + 1));
            i += 1;
        }
        assert(options@ =~= self.options@);
        EngineInfo { name: self.name.clone(), options }
    }
}

impl Default for EngineInfo {
    fn default() -> (info: EngineInfo)
        ensures
            info@ == EngineInfoModel::blank(),
    {
        EngineInfo::new()
    }
}

/// What is done with the outcome of reading one record while a handshake
/// waits for its acknowledgement.
#[derive(Clone, Copy, Debug, PartialEq, Eq)]
pub enum Handshake {
    /// The acknowledgement has come: the handshake is over.
    Complete,
    /// The record was none, or not the acknowledgement: read on.
    Pending,
}

/// Whether a failure to read a record is passed over: a line that cannot
/// be decoded is, be it that the line is not in the grammar or that a
/// number in it cannot be read. No other failure is.
pub open spec fn is_noise(e: Error) -> bool {
    e is IllegalSyntax || e is IllegalNumberFormat
}

/// Whether a record carries the given command.
pub open spec fn carries(output: EngineOutput, command: CommandModel) -> bool {
    output@.response == Some(command)
}

/// What the engine is known for after the outcome of reading one more
/// record: what the command of the record tells; nothing new where the
/// record has no command or reading failed.
pub open spec fn info_after(
    info: EngineInfoModel,
    event: Result<EngineOutput, Error>,
) -> EngineInfoModel {
    match event {
        Ok(output) => match output@.response {
            Some(command) => info.after(command),
            None => info,
        },
        Err(_) => info,
    }
}

/// Takes the outcome of reading one record while the discovery of the
/// engine waits for `usiok`.
///
/// A record is taken note of in `info`, and `usiok` completes the
/// handshake. A line that cannot be decoded is passed over; any other
/// failure ends the handshake and is handed on as it is.
pub fn discover_step(info: &mut EngineInfo, event: Result<EngineOutput, Error>) -> (r: Result<
    Handshake,
    Error,
>)
    ensures
        final(info)@ == info_after(old(info)@, event),
        match event {
            Ok(output) => if carries(output, CommandModel::UsiOk) {
                r matches Ok(Handshake::Complete)
            } else {
                r matches Ok(Handshake::Pending)
            },
            Err(e) => if is_noise(e) {
                r matches Ok(Handshake::Pending)
            } else {
                r == Err::<Handshake, Error>(e)
            },
        },
{
    match event {
        Ok(output) => match output.response() {
            Some(command) => {
                info.record(command);
                match command {
                    EngineCommand::UsiOk => Ok(Handshake::Complete),
                    _ => Ok(Handshake::Pending),
                }
            },
            None => Ok(Handshake::Pending),
        },
        Err(Error::IllegalSyntax) => Ok(Handshake::Pending),
        Err(Error::IllegalNumberFormat(_)) => Ok(Handshake::Pending),
        Err(e) => Err(e),
    }
}

/// Takes the outcome of reading one record while the engine is waited
/// for to be ready.
///
/// `readyok` completes the handshake. Every other record and a line that
/// cannot be decoded are passed over; any other failure ends the
/// handshake and is handed on as it is.
pub fn prepare_step(event: Result<EngineOutput, Error>) -> (r: Result<Handshake, Error>)
    ensures
        match event {
            Ok(output) => if carries(output, CommandModel::ReadyOk) {
                r matches Ok(Handshake::Complete)
            } else {
                r matches Ok(Handshake::Pending)
            },
            Err(e) => if is_noise(e) {
                r matches Ok(Handshake::Pending)
            } else {
                r == Err::<Handshake, Error>(e)
            },
        },
{
    match event {
        Ok(output) => match output.response() {
            Some(EngineCommand::ReadyOk) => Ok(Handshake::Complete),
            _ => Ok(Handshake::Pending),
        },
        Err(Error::IllegalSyntax) => Ok(Handshake::Pending),
        Err(Error::IllegalNumberFormat(_)) => Ok(Handshake::Pending),
        Err(e) => Err(e),
    }
}

/// Why a handshake ends before its acknowledgement has come.
pub enum Halt {
    /// A line of the engine is not valid UTF-8.
    NotText,
}

/// Whether the outcome of a handshake is the one asked for; a halt shows
/// as the I/O error that reading the line gave.
pub open spec fn concludes(r: Result<Handshake, Error>, expected: Result<Handshake, Halt>) -> bool {
    match expected {
        Ok(handshake) => r == Ok::<Handshake, Error>(handshake),
        Err(Halt::NotText) => r matches Err(Error::EngineIo(e)) && is_invalid_data(e),
    }
}

/// The discovery of an engine on the bytes at hand: how it ends, what is
/// known of the engine by then, and the bytes that are left.
///
/// Records are read one after the other and taken note of. `usiok` ends
/// the discovery; the bytes after it are left. Lines that cannot be
/// decoded are passed over. Where the bytes run out first, the discovery
/// is pending: it goes on when there are more bytes.
pub open spec fn discovery(info: EngineInfoModel, bytes: Seq<u8>) -> (
    Result<Handshake, Halt>,
    EngineInfoModel,
    Seq<u8>,
)
    decreases bytes.len(),
    via discovery_decreases
{
    let (reading, rest) = next_reading(bytes);
    match reading {
        Reading::End => (Ok(Handshake::Pending), info, rest),
        Reading::Invalid => (Err(Halt::NotText), info, rest),
        Reading::Line(text) => match command_of(text) {
            Ok(command) => if command == CommandModel::UsiOk {
                (Ok(Handshake::Complete), info, rest)
            } else {
                discovery(info.after(command), rest)
            },
            Err(_) => discovery(info, rest),
        },
    }
}

#[via_fn]
proof fn discovery_decreases(info: EngineInfoModel, bytes: Seq<u8>) {
    lemma_reading_consumes(bytes);
}

/// The wait for an engine to be ready on the bytes at hand: how it ends,
/// and the bytes that are left.
///
/// Records are read one after the other. `readyok` ends the wait; the
/// bytes after it are left. Every other record and lines that cannot be
/// decoded are passed over. Where the bytes run out first, the wait is
/// pending: it goes on when there are more bytes.
pub open spec fn readiness(bytes: Seq<u8>) -> (Result<Handshake, Halt>, Seq<u8>)
    decreases bytes.len(),
    via readiness_decreases
{
    let (reading, rest) = next_reading(bytes);
    match reading {
        Reading::End => (Ok(Handshake::Pending), rest),
        Reading::Invalid => (Err(Halt::NotText), rest),
        Reading::Line(text) => match command_of(text) {
            Ok(command) => if command == CommandModel::ReadyOk {
                (Ok(Handshake::Complete), rest)
            } else {
                readiness(rest)
            },
            Err(_) => readiness(rest),
        },
    }
}

#[via_fn]
proof fn readiness_decreases(bytes: Seq<u8>) {
    lemma_reading_consumes(bytes);
}

/// Whether a record is the one that marks the end of the stream.
fn marks_end(event: &Result<EngineOutput, Error>) -> (b: bool)
    ensures
        b == (event matches Ok(output) && output@.response is None),
{
    match event {
        Ok(output) => output.response().is_none(),
        Err(_) => false,
    }
}

/// Goes on with the discovery of an engine on the bytes that `reader`
/// holds, until `usiok` is read, the bytes run out, or reading fails.
pub fn discover(info: &mut EngineInfo, reader: &mut EngineCommandReader) -> (r: Result<
    Handshake,
    Error,
>)
    ensures
        concludes(r, discovery(old(info)@, old(reader).remaining()).0),
        final(info)@ == discovery(old(info)@, old(reader).remaining()).1,
        final(reader).remaining() == discovery(old(info)@, old(reader).remaining()).2,
{
    loop
        invariant
            discovery(info@, reader.remaining()) == discovery(old(info)@, old(reader).remaining()),
        decreases reader.remaining().len(),
    {
        proof {
            lemma_reading_consumes(reader.remaining());
        }
        let event = reader.next_command();
        let at_end = marks_end(&event);
        let step = discover_step(info, event)?;
        if at_end {
            return Ok(Handshake::Pending);
        }
        match step {
            Handshake::Complete => {
                return Ok(Handshake::Complete);
            },
            Handshake::Pending => {},
        }
    }
}

/// Goes on with the wait for an engine to be ready on the bytes that
/// `reader` holds, until `readyok` is read, the bytes run out, or reading
/// fails.
pub fn await_ready(reader: &mut EngineCommandReader) -> (r: Result<Handshake, Error>)
    ensures
        concludes(r, readiness(old(reader).remaining()).0),
        final(reader).remaining() == readiness(old(reader).remaining()).1,
{
    loop
        invariant
            readiness(reader.remaining()) == readiness(old(reader).remaining()),
        decreases reader.remaining().len(),
    {
        proof {
            lemma_reading_consumes(reader.remaining());
        }
        let event = reader.next_command();
        let at_end = marks_end(&event);
        let step = prepare_step(event)?;
        if at_end {
            return Ok(Handshake::Pending);
        }
        match step {
            Handshake::Complete => {
                return Ok(Handshake::Complete);
            },
            Handshake::Pending => {},
        }
    }
}

/// What the listener does with the outcome of reading one record.
#[derive(Debug)]
pub enum Listening {
    /// Hand the record to the handler, then read on.
    Deliver(EngineOutput),
    /// Read on; the handler is not called.
    Skip,
    /// Stop listening, with this failure as the outcome.
    Stop(Error),
}

/// What the listener does with the outcome of reading one record: every
/// record goes to the handler, the one that marks the end of the stream
/// too; a line that cannot be decoded is passed over without a call of
/// the handler; any other failure stops the listener.
pub open spec fn listening_on(event: Result<EngineOutput, Error>) -> Listening {
    match event {
        Ok(output) => Listening::Deliver(output),
        Err(e) => if is_noise(e) {
            Listening::Skip
        } else {
            Listening::Stop(e)
        },
    }
}

/// Decides what the listener does with the outcome of reading one
/// record.
pub fn listen_step(event: Result<EngineOutput, Error>) -> (action: Listening)
    ensures
        action == listening_on(event),
{
    match event {
        Ok(output) => Listening::Deliver(output),
        Err(Error::IllegalSyntax) => Listening::Skip,
        Err(Error::IllegalNumberFormat(_)) => Listening::Skip,
        Err(e) => Listening::Stop(e),
    }
}

/// What the listener does after the handler has returned: it reads on
/// after a success, and stops after a failure, whose description it
/// hands on as `Error::HandlerError`.
pub fn after_handler(outcome: Result<(), String>) -> (r: Result<(), Error>)
    ensures
        match outcome {
            Ok(_) => r is Ok,
            Err(description) => r == Err::<(), Error>(Error::HandlerError(description)),
        },
{
    match outcome {
        Ok(_) => Ok(()),
        Err(description) => Err(Error::HandlerError(description)),
    }
}

/// The outcome of ending a session. The engine is told to quit, and then
/// its process is killed whether or not it could be told; `sent` and
/// `killed` are the outcomes of the two. The first failure of the two is
/// the outcome of the whole.
pub fn kill_outcome(sent: Result<(), Error>, killed: Result<(), Error>) -> (r: Result<(), Error>)
    ensures
        match (sent, killed) {
            (Err(e), _) => r == Err::<(), Error>(e),
            (Ok(_), Err(e)) => r == Err::<(), Error>(e),
            (Ok(_), Ok(_)) => r is Ok,
        },
{
    match sent {
        Err(e) => Err(e),
        Ok(_) => killed,
    }
}

/// Who holds the reader of an engine's output. A session begins with the
/// reader in its hands, lends it to each handshake, and gives it away for
/// good when listening begins.
#[derive(Debug)]
pub struct Session<R> {
    reader: Option<R>,
}

impl<R> Session<R> {
    /// The reader, as long as the session holds it.
    pub closed spec fn reader(&self) -> Option<R> {
        self.reader
    }

    /// Whether the reader has been given to the listener.
    pub open spec fn is_listening(&self) -> bool {
        self.reader() is None
    }

    /// The session once listening has begun: it holds no reader.
    pub closed spec fn listening(self) -> Session<R> {
        Session { reader: None }
    }

    /// The outcome of opening a handshake that begins with `command`: the
    /// command to send, or a refusal once listening has begun.
    pub open spec fn opening(&self, command: GuiCommand) -> Result<GuiCommand, Error> {
        if self.is_listening() {
            Err(Error::IllegalOperation)
        } else {
            Ok(command)
        }
    }

    /// The outcome of beginning to listen: the reader, or a refusal when
    /// listening has begun before.
    pub open spec fn handover(&self) -> Result<R, Error> {
        match self.reader() {
            Some(reader) => Ok(reader),
            None => Err(Error::IllegalOperation),
        }
    }

    /// A session that holds `reader`.
    pub fn new(reader: R) -> (session: Self)
        ensures
            session.reader() == Some(reader),
            !session.is_listening(),
    {
        Session { reader: Some(reader) }
    }

    /// Lends the reader to a handshake, which is refused once listening
    /// has begun. What the handshake does to the reader stays done.
    pub fn reader_mut(&mut self) -> (r: Result<&mut R, Error>)
        ensures
            match old(self).reader() {
                Some(reader) => r matches Ok(lent) && *lent == reader && final(self).reader()
                    == Some(*final(lent)),
                None => r matches Err(Error::IllegalOperation) && *final(self) == *old(self),
            },
    {
        match &mut self.reader {
            Some(reader) => Ok(reader),
            None => Err(Error::IllegalOperation),
        }
    }

    /// Opens the discovery of the engine: the command to send is `usi`.
    /// Refused once listening has begun.
    pub fn get_info(&self) -> (r: Result<GuiCommand, Error>)
        ensures
            r == self.opening(GuiCommand::Usi),
    {
        match &self.reader {
            Some(_) => Ok(GuiCommand::Usi),
            None => Err(Error::IllegalOperation),
        }
    }

    /// Opens the wait for the engine to be ready: the command to send is
    /// `isready`. Refused once listening has begun.
    pub fn prepare(&self) -> (r: Result<GuiCommand, Error>)
        ensures
            r == self.opening(GuiCommand::IsReady),
    {
        match &self.reader {
            Some(_) => Ok(GuiCommand::IsReady),
            None => Err(Error::IllegalOperation),
        }
    }

    /// Begins listening: the reader leaves the session for good. Refused
    /// when it has left before.
    pub fn listen(&mut self) -> (r: Result<R, Error>)
        ensures
            r == old(self).handover(),
            *final(self) == old(self).listening(),
            final(self).is_listening(),
    {
        match self.reader.take() {
            Some(reader) => Ok(reader),
            None => Err(Error::IllegalOperation),
        }
    }

    /// Ends the session: the command to send is `quit`. This is allowed
    /// at any time, and as often as wanted; who holds the reader does not
    /// change.
    pub fn kill(&self) -> (command: GuiCommand)
        ensures
            command == GuiCommand::Quit,
    {
        GuiCommand::Quit
    }

    /// Once listening has begun, whether it was allowed or refused, the
    /// session is listening, stays so when asked to listen again, and
    /// refuses every handshake and every further call to listen.
    pub proof fn lemma_listening_is_final(self, command: GuiCommand)
        ensures
            self.listening().is_listening(),
            self.listening().listening() == self.listening(),
            self.listening().opening(command) == Err::<GuiCommand, Error>(Error::IllegalOperation),
            self.listening().handover() == Err::<R, Error>(Error::IllegalOperation),
    {
    }
}

/// The listener passes over a line that cannot be decoded, be it that
/// the line is not in the grammar or that a number in it cannot be read:
/// whatever reading such a line comes to, the listener neither stops nor
/// calls the handler, but reads on.
pub proof fn lemma_noise_is_skipped(text: Seq<char>, event: Result<EngineOutput, Error>)
    requires
        command_of(text) is Err,
        delivers(event, Reading::Line(text)),
    ensures
        listening_on(event) == Listening::Skip,
{
}

} // verus!
