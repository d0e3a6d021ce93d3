//! A typed codec for the USI protocol, the line protocol between a shogi
//! GUI and a shogi engine, and the rules of a session between the two.
//!
//! - `protocol::gui` holds the commands that the GUI sends, with the text
//!   of each: `GuiCommand::to_string`.
//! - `protocol::engine` holds the commands that the engine sends, and
//!   reads a line of text as one of them: `EngineCommand::parse`.
//! - `process::writer` and `process::reader` turn commands into lines of
//!   bytes and lines of bytes into records.
//! - `process::engine` holds what an engine tells of itself during the
//!   handshake, and decides what a session does with each record.
//!
//! The library does no input or output of its own: it works on bytes that
//! its caller has read or is going to write.
pub mod error;
pub mod process;
pub mod protocol;
pub mod text;
pub mod time;

pub use self::error::Error;
pub use self::process::engine::{EngineInfo, Handshake, Listening, Session};
pub use self::process::reader::{EngineCommandReader, EngineOutput};
pub use self::process::writer::GuiCommandWriter;
pub use self::protocol::engine::{
    BestMoveParams, CheckmateParams, EngineCommand, IdParams, InfoParams, OptionKind,
    OptionParams, ScoreKind,
};
pub use self::protocol::gui::{GameOverKind, GuiCommand, MateParam, ThinkParams};
