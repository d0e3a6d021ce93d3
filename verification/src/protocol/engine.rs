//! The commands that an engine sends to a GUI, and how a line of text is
//! read as one of them.
use vstd::prelude::*;
use vstd::string::*;
use std::time::Duration;
use crate::error::Error;
use crate::text::{
    i32_of, is_blank, join_from, joined, lemma_blank_has_no_words, parse_i32, parse_u64,
    split_words, u64_of, word_is, words,
};
use crate::time::{nanos_part, secs_part};

verus! {

/// The answer to a `go` command.
#[derive(Clone, Debug, PartialEq, Eq, Hash)]
pub enum BestMoveParams {
    /// The move to play and, if the engine names one, the move it expects
    /// in reply.
    MakeMove(String, Option<String>),
    Resign,
    Win,
}

/// The answer to a search for mate.
#[derive(Clone, Debug, PartialEq, Eq, Hash)]
pub enum CheckmateParams {
    /// The moves that lead to mate.
    Mate(Vec<String>),
    NoMate,
    NotImplemented,
    Timeout,
}

/// What an engine says of itself.
#[derive(Clone, Debug, PartialEq, Eq, Hash)]
pub enum IdParams {
    Name(String),
    Author(String),
}

/// How the number of a score is to be read.
#[derive(Clone, Copy, Debug, PartialEq, Eq, Hash)]
pub enum ScoreKind {
    CpExact,
    CpLowerbound,
    CpUpperbound,
    MateExact,
    MateSignOnly,
    MateLowerbound,
    MateUpperbound,
}

/// One item of an `info` command.
#[derive(Clone, Debug, PartialEq, Eq, Hash)]
pub enum InfoParams {
    CurrMove(String),
    /// The depth of the search and, if given, the selective depth.
    Depth(i32, Option<i32>),
    HashFull(i32),
    MultiPv(i32),
    Nodes(i32),
    Nps(i32),
    Pv(Vec<String>),
    Score(i32, ScoreKind),
    Text(String),
    Time(Duration),
}

/// The kind of an option that an engine offers, with what the engine
/// declares of it.
#[derive(Clone, Debug, PartialEq, Eq, Hash)]
#[allow(inconsistent_fields)]
pub enum OptionKind {
    Check { default: Option<bool> },
    Spin { default: Option<i32>, min: Option<i32>, max: Option<i32> },
    Combo { default: Option<String>, vars: Vec<String> },
    Button { default: Option<String> },
    String { default: Option<String> },
    Filename { default: Option<String> },
}

/// An option that an engine offers.
#[derive(Clone, Debug, PartialEq, Eq, Hash)]
pub struct OptionParams {
    pub name: String,
    pub value: OptionKind,
}

/// A command sent from the engine to the GUI.
#[derive(Clone, Debug, PartialEq, Eq, Hash)]
pub enum EngineCommand {
    Id(IdParams),
    BestMove(BestMoveParams),
    Checkmate(CheckmateParams),
    Info(Vec<InfoParams>),
    Option(OptionParams),
    ReadyOk,
    UsiOk,
    /// A line without a single word.
    Unknown,
}

/// What a `BestMoveParams` holds.
pub enum BestMoveModel {
    MakeMove(Seq<char>, Option<Seq<char>>),
    Resign,
    Win,
}

/// What a `CheckmateParams` holds.
pub enum CheckmateModel {
    Mate(Seq<Seq<char>>),
    NoMate,
    NotImplemented,
    Timeout,
}

/// What an `IdParams` holds.
pub enum IdModel {
    Name(Seq<char>),
    Author(Seq<char>),
}

/// What an `InfoParams` holds. A time is held as its whole seconds and
/// the nanoseconds beyond them.
pub enum InfoModel {
    CurrMove(Seq<char>),
    Depth(i32, Option<i32>),
    HashFull(i32),
    MultiPv(i32),
    Nodes(i32),
    Nps(i32),
    Pv(Seq<Seq<char>>),
    Score(i32, ScoreKind),
    Text(Seq<char>),
    Time(u64, u32),
}

/// What an `OptionKind` holds.
#[allow(inconsistent_fields)]
pub enum OptionKindModel {
    Check { default: Option<bool> },
    Spin { default: Option<i32>, min: Option<i32>, max: Option<i32> },
    Combo { default: Option<Seq<char>>, vars: Seq<Seq<char>> },
    Button { default: Option<Seq<char>> },
    String { default: Option<Seq<char>> },
    Filename { default: Option<Seq<char>> },
}

/// What an `OptionParams` holds.
pub struct OptionModel {
    pub name: Seq<char>,
    pub value: OptionKindModel,
}

/// What an `EngineCommand` holds.
pub enum CommandModel {
    Id(IdModel),
    BestMove(BestMoveModel),
    Checkmate(CheckmateModel),
    Info(Seq<InfoModel>),
    Option(OptionModel),
    ReadyOk,
    UsiOk,
    Unknown,
}

/// The characters of a string that may be absent.
pub open spec fn text_of(s: Option<String>) -> Option<Seq<char>> {
    match s {
        Some(s) => Some(s@),
        None => None,
    }
}

impl View for BestMoveParams {
    type V = BestMoveModel;

    open spec fn view(&self) -> BestMoveModel {
        match self {
            BestMoveParams::MakeMove(m, pm) => BestMoveModel::MakeMove(m@, text_of(*pm)),
            BestMoveParams::Resign => BestMoveModel::Resign,
            BestMoveParams::Win => BestMoveModel::Win,
        }
    }
}

impl View for CheckmateParams {
    type V = CheckmateModel;

    open spec fn view(&self) -> CheckmateModel {
        match self {
            CheckmateParams::Mate(moves) => CheckmateModel::Mate(moves.deep_view()),
            CheckmateParams::NoMate => CheckmateModel::NoMate,
            CheckmateParams::NotImplemented => CheckmateModel::NotImplemented,
            CheckmateParams::Timeout => CheckmateModel::Timeout,
        }
    }
}

impl View for IdParams {
    type V = IdModel;

    open spec fn view(&self) -> IdModel {
        match self {
            IdParams::Name(s) => IdModel::Name(s@),
            IdParams::Author(s) => IdModel::Author(s@),
        }
    }
}

impl View for InfoParams {
    type V = InfoModel;

    open spec fn view(&self) -> InfoModel {
        match self {
            InfoParams::CurrMove(m) => InfoModel::CurrMove(m@),
            InfoParams::Depth(d, sd) => InfoModel::Depth(*d, *sd),
            InfoParams::HashFull(n) => InfoModel::HashFull(*n),
            InfoParams::MultiPv(n) => InfoModel::MultiPv(*n),
            InfoParams::Nodes(n) => InfoModel::Nodes(*n),
            InfoParams::Nps(n) => InfoModel::Nps(*n),
            InfoParams::Pv(moves) => InfoModel::Pv(moves.deep_view()),
            InfoParams::Score(n, kind) => InfoModel::Score(*n, *kind),
            InfoParams::Text(s) => InfoModel::Text(s@),
            InfoParams::Time(t) => InfoModel::Time(secs_part(*t), nanos_part(*t)),
        }
    }
}

impl View for OptionKind {
    type V = OptionKindModel;

    open spec fn view(&self) -> OptionKindModel {
        match self {
            OptionKind::Check { default } => OptionKindModel::Check { default: *default },
            OptionKind::Spin { default, min, max } => OptionKindModel::Spin {
                default: *default,
                min: *min,
                max: *max,
            },
            OptionKind::Combo { default, vars } => OptionKindModel::Combo {
                default: text_of(*default),
                vars: vars.deep_view(),
            },
            OptionKind::Button { default } => OptionKindModel::Button {
                default: text_of(*default),
            },
            OptionKind::String { default } => OptionKindModel::String {
                default: text_of(*default),
            },
            OptionKind::Filename { default } => OptionKindModel::Filename {
                default: text_of(*default),
            },
        }
    }
}

impl View for OptionParams {
    type V = OptionModel;

    open spec fn view(&self) -> OptionModel {
        OptionModel { name: self.name@, value: self.value@ }
    }
}

/// What a list of info items holds, item by item.
pub open spec fn info_models(items: Seq<InfoParams>) -> Seq<InfoModel> {
    Seq::new(items.len(), |i: int| items[i]@)
}

impl View for EngineCommand {
    type V = CommandModel;

    open spec fn view(&self) -> CommandModel {
        match self {
            EngineCommand::Id(id) => CommandModel::Id(id@),
            EngineCommand::BestMove(best) => CommandModel::BestMove(best@),
            EngineCommand::Checkmate(mate) => CommandModel::Checkmate(mate@),
            EngineCommand::Info(items) => CommandModel::Info(info_models(items@)),
            EngineCommand::Option(option) => CommandModel::Option(option@),
            EngineCommand::ReadyOk => CommandModel::ReadyOk,
            EngineCommand::UsiOk => CommandModel::UsiOk,
            EngineCommand::Unknown => CommandModel::Unknown,
        }
    }
}

/// The two ways in which a line can fail to be a command.
pub enum Failure {
    /// The line is not in the grammar.
    Syntax,
    /// A word that must write a number does not, or the number does not
    /// fit.
    Number,
}

/// Whether the outcome of decoding is the one that the grammar gives: the
/// command with the same contents, or the error of the same kind.
pub open spec fn agrees(
    r: Result<EngineCommand, Error>,
    expected: Result<CommandModel, Failure>,
) -> bool {
    match expected {
        Ok(m) => r matches Ok(c) && c@ == m,
        Err(Failure::Syntax) => r matches Err(Error::IllegalSyntax),
        Err(Failure::Number) => r matches Err(Error::IllegalNumberFormat(_)),
    }
}

/// What follows `bestmove`: `resign` or `win` alone, a move alone, or a
/// move, the word `ponder` and the move expected in reply. Words after
/// those three are not looked at.
pub open spec fn best_move_of(args: Seq<Seq<char>>) -> Result<CommandModel, Failure> {
    if args.len() == 1 {
        if args[0] == "resign"@ {
            Ok(CommandModel::BestMove(BestMoveModel::Resign))
        } else if args[0] == "win"@ {
            Ok(CommandModel::BestMove(BestMoveModel::Win))
        } else {
            Ok(CommandModel::BestMove(BestMoveModel::MakeMove(args[0], None)))
        }
    } else if args.len() >= 3 && args[1] == "ponder"@ {
        Ok(CommandModel::BestMove(BestMoveModel::MakeMove(args[0], Some(args[2]))))
    } else {
        Err(Failure::Syntax)
    }
}

/// What follows `checkmate`: one of three fixed words, or the moves that
/// lead to mate.
pub open spec fn checkmate_of(args: Seq<Seq<char>>) -> Result<CommandModel, Failure> {
    if args.len() == 0 {
        Err(Failure::Syntax)
    } else if args[0] == "notimplemented"@ {
        Ok(CommandModel::Checkmate(CheckmateModel::NotImplemented))
    } else if args[0] == "timeout"@ {
        Ok(CommandModel::Checkmate(CheckmateModel::Timeout))
    } else if args[0] == "nomate"@ {
        Ok(CommandModel::Checkmate(CheckmateModel::NoMate))
    } else {
        Ok(CommandModel::Checkmate(CheckmateModel::Mate(args)))
    }
}

/// What follows `id`: `name` or `author`, then the words of the name,
/// which are joined by single spaces.
pub open spec fn id_of(args: Seq<Seq<char>>) -> Result<CommandModel, Failure> {
    if args.len() == 0 {
        Err(Failure::Syntax)
    } else if args[0] == "name"@ {
        Ok(CommandModel::Id(IdModel::Name(joined(args.skip(1)))))
    } else if args[0] == "author"@ {
        Ok(CommandModel::Id(IdModel::Author(joined(args.skip(1)))))
    } else {
        Err(Failure::Syntax)
    }
}

/// A copy of the words from position `from` on.
fn copy_from(ws: &Vec<String>, from: usize) -> (out: Vec<String>)
    requires
        from <= ws.len(),
    ensures
        out.deep_view() == ws.deep_view().skip(from as int),
{
    let mut out: Vec<String> = Vec::new();
    let mut i: usize = from;
    while i < ws.len()
        invariant
            from <= i <= ws.len(),
            out.deep_view() == ws.deep_view().subrange(from as int, i as int),
        decreases ws.len() - i,
    {
        let ghost before = out.deep_view();
        out.push(ws[i].clone());
        assert(out.deep_view() =~= before.push(ws[i as int]@));
        assert(out.deep_view() =~= ws.deep_view().subrange(from as int, i + 1));
        i += 1;
    }
    assert(out.deep_view() =~= ws.deep_view().skip(from as int));
    out
}

fn parse_bestmove(ws: &Vec<String>) -> (r: Result<EngineCommand, Error>)
    requires
        ws.len() >= 1,
    ensures
        agrees(r, best_move_of(ws.deep_view().skip(1))),
{
    let ghost args = ws.deep_view().skip(1);
    if ws.len() == 2 {
        assert(args[0] == ws[1]@);
        if word_is(&ws[1], "resign") {
            Ok(EngineCommand::BestMove(BestMoveParams::Resign))
        } else if word_is(&ws[1], "win") {
            Ok(EngineCommand::BestMove(BestMoveParams::Win))
        } else {
            Ok(EngineCommand::BestMove(BestMoveParams::MakeMove(ws[1].clone(), None)))
        }
    } else if ws.len() >= 4 && word_is(&ws[2], "ponder") {
        assert(args[0] == ws[1]@ && args[1] == ws[2]@ && args[2] == ws[3]@);
        Ok(
            EngineCommand::BestMove(
                BestMoveParams::MakeMove(ws[1].clone(), Some(ws[3].clone())),
            ),
        )
    } else {
        assert(args.len() >= 3 ==> args[1] == ws[2]@);
        Err(Error::IllegalSyntax)
    }
}

fn parse_checkmate(ws: &Vec<String>) -> (r: Result<EngineCommand, Error>)
    requires
        ws.len() >= 1,
    ensures
        agrees(r, checkmate_of(ws.deep_view().skip(1))),
{
    let ghost args = ws.deep_view().skip(1);
    if ws.len() < 2 {
        return Err(Error::IllegalSyntax);
    }
    assert(args[0] == ws[1]@);
    if word_is(&ws[1], "notimplemented") {
        Ok(EngineCommand::Checkmate(CheckmateParams::NotImplemented))
    } else if word_is(&ws[1], "timeout") {
        Ok(EngineCommand::Checkmate(CheckmateParams::Timeout))
    } else if word_is(&ws[1], "nomate") {
        Ok(EngineCommand::Checkmate(CheckmateParams::NoMate))
    } else {
        Ok(EngineCommand::Checkmate(CheckmateParams::Mate(copy_from(ws, 1))))
    }
}

fn parse_id(ws: &Vec<String>) -> (r: Result<EngineCommand, Error>)
    requires
        ws.len() >= 1,
    ensures
        agrees(r, id_of(ws.deep_view().skip(1))),
{
    let ghost args = ws.deep_view().skip(1);
    if ws.len() < 2 {
        return Err(Error::IllegalSyntax);
    }
    assert(args[0] == ws[1]@);
    assert(args.skip(1) =~= ws.deep_view().skip(2));
    if word_is(&ws[1], "name") {
        Ok(EngineCommand::Id(IdParams::Name(join_from(ws, 2))))
    } else if word_is(&ws[1], "author") {
        Ok(EngineCommand::Id(IdParams::Author(join_from(ws, 2))))
    } else {
        Err(Error::IllegalSyntax)
    }
}

/// What the `key value` pairs of an `option` line have declared so far.
pub struct OptionFields {
    pub name: Option<Seq<char>>,
    pub kind: Option<Seq<char>>,
    pub default: Option<Seq<char>>,
    pub min: Option<i32>,
    pub max: Option<i32>,
    pub vars: Seq<Seq<char>>,
}

impl OptionFields {
    /// Nothing declared yet.
    pub open spec fn blank() -> OptionFields {
        OptionFields {
            name: None,
            kind: None,
            default: None,
            min: None,
            max: None,
            vars: Seq::empty(),
        }
    }

    /// The fields after one more pair. A key that comes again replaces
    /// what it declared before, but for `var`, whose values add up in the
    /// order in which they come. `min` and `max` must write an `i32`.
    pub open spec fn with(self, key: Seq<char>, value: Seq<char>) -> Result<OptionFields, Failure> {
        if key == "name"@ {
            Ok(OptionFields { name: Some(value), ..self })
        } else if key == "type"@ {
            Ok(OptionFields { kind: Some(value), ..self })
        } else if key == "default"@ {
            Ok(OptionFields { default: Some(value), ..self })
        } else if key == "min"@ {
            match i32_of(value) {
                Some(n) => Ok(OptionFields { min: Some(n), ..self }),
                None => Err(Failure::Number),
            }
        } else if key == "max"@ {
            match i32_of(value) {
                Some(n) => Ok(OptionFields { max: Some(n), ..self }),
                None => Err(Failure::Number),
            }
        } else if key == "var"@ {
            Ok(OptionFields { vars: self.vars.push(value), ..self })
        } else {
            Err(Failure::Syntax)
        }
    }

    /// The option that the fields declare. A name and a type are needed.
    /// The default of a `check` is `true` or `false`, that of a `spin` an
    /// `i32`; the defaults of the other kinds are taken as they stand.
    pub open spec fn declared(self) -> Result<CommandModel, Failure> {
        if self.name is None || self.kind is None {
            Err(Failure::Syntax)
        } else {
            let name = self.name->0;
            let kind = self.kind->0;
            if kind == "check"@ {
                if self.default is None {
                    Ok(option_model(name, OptionKindModel::Check { default: None }))
                } else if self.default->0 == "true"@ {
                    Ok(option_model(name, OptionKindModel::Check { default: Some(true) }))
                } else if self.default->0 == "false"@ {
                    Ok(option_model(name, OptionKindModel::Check { default: Some(false) }))
                } else {
                    Err(Failure::Syntax)
                }
            } else if kind == "spin"@ {
                if self.default is None {
                    Ok(
                        option_model(
                            name,
                            OptionKindModel::Spin { default: None, min: self.min, max: self.max },
                        ),
                    )
                } else if i32_of(self.default->0) is Some {
                    Ok(
                        option_model(
                            name,
                            OptionKindModel::Spin {
                                default: i32_of(self.default->0),
                                min: self.min,
                                max: self.max,
                            },
                        ),
                    )
                } else {
                    Err(Failure::Number)
                }
            } else if kind == "combo"@ {
                Ok(
                    option_model(
                        name,
                        OptionKindModel::Combo { default: self.default, vars: self.vars },
                    ),
                )
            } else if kind == "button"@ {
                Ok(option_model(name, OptionKindModel::Button { default: self.default }))
            } else if kind == "string"@ {
                Ok(option_model(name, OptionKindModel::String { default: self.default }))
            } else if kind == "filename"@ {
                Ok(option_model(name, OptionKindModel::Filename { default: self.default }))
            } else {
                Err(Failure::Syntax)
            }
        }
    }
}

/// The declaration of an option of the given name and kind.
pub open spec fn option_model(name: Seq<char>, value: OptionKindModel) -> CommandModel {
    CommandModel::Option(OptionModel { name, value })
}

/// The fields that the first `pairs` pairs of `args` declare, read from
/// left to right; the first pair that fails decides the failure.
pub open spec fn fields_of(args: Seq<Seq<char>>, pairs: nat) -> Result<OptionFields, Failure>
    decreases pairs,
{
    if pairs == 0 {
        Ok(OptionFields::blank())
    } else {
        match fields_of(args, (pairs - 1) as nat) {
            Ok(fields) => fields.with(args[2 * pairs - 2], args[2 * pairs - 1]),
            Err(e) => Err(e),
        }
    }
}

/// What follows `option`: pairs of a key and a value, then nothing. A key
/// without a value is not in the grammar.
pub open spec fn option_of(args: Seq<Seq<char>>) -> Result<CommandModel, Failure> {
    match fields_of(args, args.len() / 2) {
        Ok(fields) => if args.len() % 2 == 0 {
            fields.declared()
        } else {
            Err(Failure::Syntax)
        },
        Err(e) => Err(e),
    }
}

/// The fields of an option while its line is read.
struct OptionDraft {
    name: Option<String>,
    kind: Option<String>,
    default: Option<String>,
    min: Option<i32>,
    max: Option<i32>,
    vars: Vec<String>,
}

impl View for OptionDraft {
    type V = OptionFields;

    closed spec fn view(&self) -> OptionFields {
        OptionFields {
            name: text_of(self.name),
            kind: text_of(self.kind),
            default: text_of(self.default),
            min: self.min,
            max: self.max,
            vars: self.vars.deep_view(),
        }
    }
}

impl OptionDraft {
    fn set(self, key: &String, value: &String) -> (r: Result<OptionDraft, Error>)
        ensures
            match self@.with(key@, value@) {
                Ok(fields) => r matches Ok(d) && d@ == fields,
                Err(Failure::Syntax) => r matches Err(Error::IllegalSyntax),
                Err(Failure::Number) => r matches Err(Error::IllegalNumberFormat(_)),
            },
    {
        let mut draft = self;
        if word_is(key, "name") {
            draft.name = Some(value.clone());
        } else if word_is(key, "type") {
            draft.kind = Some(value.clone());
        } else if word_is(key, "default") {
            draft.default = Some(value.clone());
        } else if word_is(key, "min") {
            match parse_i32(value.as_str()) {
                Ok(n) => {
                    draft.min = Some(n);
                },
                Err(e) => {
                    return Err(Error::IllegalNumberFormat(e));
                },
            }
        } else if word_is(key, "max") {
            match parse_i32(value.as_str()) {
                Ok(n) => {
                    draft.max = Some(n);
                },
                Err(e) => {
                    return Err(Error::IllegalNumberFormat(e));
                },
            }
        } else if word_is(key, "var") {
            let ghost before = draft.vars.deep_view();
            draft.vars.push(value.clone());
            assert(draft.vars.deep_view() =~= before.push(value@));
        } else {
            return Err(Error::IllegalSyntax);
        }
        Ok(draft)
    }

    fn finish(self) -> (r: Result<EngineCommand, Error>)
        ensures
            agrees(r, self@.declared()),
    {
        let name = match self.name {
            Some(name) => name,
            None => {
                return Err(Error::IllegalSyntax);
            },
        };
        let kind = match self.kind {
            Some(kind) => kind,
            None => {
                return Err(Error::IllegalSyntax);
            },
        };
        let value = if word_is(&kind, "check") {
            match self.default {
                None => OptionKind::Check { default: None },
                Some(d) => {
                    if word_is(&d, "true") {
                        OptionKind::Check { default: Some(true) }
                    } else if word_is(&d, "false") {
                        OptionKind::Check { default: Some(false) }
                    } else {
                        return Err(Error::IllegalSyntax);
                    }
                },
            }
        } else if word_is(&kind, "spin") {
            match self.default {
                None => OptionKind::Spin { default: None, min: self.min, max: self.max },
                Some(d) => match parse_i32(d.as_str()) {
                    Ok(n) => OptionKind::Spin { default: Some(n), min: self.min, max: self.max },
                    Err(e) => {
                        return Err(Error::IllegalNumberFormat(e));
                    },
                },
            }
        } else if word_is(&kind, "combo") {
            OptionKind::Combo { default: self.default, vars: self.vars }
        } else if word_is(&kind, "button") {
            OptionKind::Button { default: self.default }
        } else if word_is(&kind, "string") {
            OptionKind::String { default: self.default }
        } else if word_is(&kind, "filename") {
            OptionKind::Filename { default: self.default }
        } else {
            return Err(Error::IllegalSyntax);
        };
        Ok(EngineCommand::Option(OptionParams { name, value }))
    }
}

fn parse_option(ws: &Vec<String>) -> (r: Result<EngineCommand, Error>)
    requires
        ws.len() >= 1,
    ensures
        agrees(r, option_of(ws.deep_view().skip(1))),
{
    let ghost args = ws.deep_view().skip(1);
    let mut draft = OptionDraft {
        name: None,
        kind: None,
        default: None,
        min: None,
        max: None,
        vars: Vec::new(),
    };
    assert(draft@ == OptionFields::blank()) by {
        assert(draft.vars.deep_view() =~= Seq::empty());
    }
    let pairs: usize = (ws.len() - 1) / 2;
    let mut k: usize = 0;
    while k < pairs
        invariant
            ws.len() >= 1,
            args == ws.deep_view().skip(1),
            pairs == (ws.len() - 1) / 2,
            k <= pairs,
            fields_of(args, k as nat) == Ok::<OptionFields, Failure>(draft@),
        decreases pairs - k,
    {
        assert(args[2 * (k + 1) - 2] == ws[2 * k + 1]@);
        assert(args[2 * (k + 1) - 1] == ws[2 * k + 2]@);
        match draft.set(&ws[2 * k + 1], &ws[2 * k + 2]) {
            Ok(next) => {
                draft = next;
            },
            Err(e) => {
                proof {
                    lemma_fields_failure(args, (k + 1) as nat, pairs as nat);
                }
                return Err(e);
            },
        }
        k += 1;
    }
    if (ws.len() - 1) % 2 == 1 {
        return Err(Error::IllegalSyntax);
    }
    draft.finish()
}

/// Once a pair has failed, reading further pairs changes nothing.
proof fn lemma_fields_failure(args: Seq<Seq<char>>, failed: nat, pairs: nat)
    requires
        failed <= pairs,
        fields_of(args, failed) is Err,
    ensures
        fields_of(args, pairs) == fields_of(args, failed),
    decreases pairs,
{
    if failed < pairs {
        lemma_fields_failure(args, failed, (pairs - 1) as nat);
    }
}

/// The `i32` that the word at position `at` writes.
pub open spec fn number_at(args: Seq<Seq<char>>, at: int) -> Result<i32, Failure> {
    if at < 0 || at >= args.len() {
        Err(Failure::Syntax)
    } else {
        match i32_of(args[at]) {
            Some(n) => Ok(n),
            None => Err(Failure::Number),
        }
    }
}

/// The score that begins at position `at`, and the position after it. A
/// score is `cp` or `mate`, then a number, then `lowerbound` or
/// `upperbound` if the number is a bound. After `mate` a bare `+` or `-`
/// may stand for the number; it is held as 1 or -1.
pub open spec fn score_at(args: Seq<Seq<char>>, at: int) -> Result<(InfoModel, int), Failure> {
    if at < 0 || at + 1 >= args.len() {
        Err(Failure::Syntax)
    } else {
        let unit = args[at];
        let amount = args[at + 1];
        let lower = at + 2 < args.len() && args[at + 2] == "lowerbound"@;
        let upper = at + 2 < args.len() && args[at + 2] == "upperbound"@;
        let next = if lower || upper {
            at + 3
        } else {
            at + 2
        };
        if unit == "cp"@ {
            match i32_of(amount) {
                Some(n) => Ok(
                    (
                        InfoModel::Score(
                            n,
                            if lower {
                                ScoreKind::CpLowerbound
                            } else if upper {
                                ScoreKind::CpUpperbound
                            } else {
                                ScoreKind::CpExact
                            },
                        ),
                        next,
                    ),
                ),
                None => Err(Failure::Number),
            }
        } else if unit == "mate"@ {
            if amount == "+"@ {
                Ok((InfoModel::Score(1, ScoreKind::MateSignOnly), at + 2))
            } else if amount == "-"@ {
                Ok((InfoModel::Score(-1i32, ScoreKind::MateSignOnly), at + 2))
            } else {
                match i32_of(amount) {
                    Some(n) => Ok(
                        (
                            InfoModel::Score(
                                n,
                                if lower {
                                    ScoreKind::MateLowerbound
                                } else if upper {
                                    ScoreKind::MateUpperbound
                                } else {
                                    ScoreKind::MateExact
                                },
                            ),
                            next,
                        ),
                    ),
                    None => Err(Failure::Number),
                }
            }
        } else {
            Err(Failure::Syntax)
        }
    }
}

/// The item of an `info` line that begins at position `at`, and the
/// position after it. `pv` and `string` take all the words that are left.
pub open spec fn info_item_at(args: Seq<Seq<char>>, at: int) -> Result<(InfoModel, int), Failure> {
    if at < 0 || at >= args.len() {
        Err(Failure::Syntax)
    } else {
        let key = args[at];
        if key == "depth"@ {
            match number_at(args, at + 1) {
                Ok(depth) => if at + 2 < args.len() && args[at + 2] == "seldepth"@ {
                    match number_at(args, at + 3) {
                        Ok(seldepth) => Ok((InfoModel::Depth(depth, Some(seldepth)), at + 4)),
                        Err(e) => Err(e),
                    }
                } else {
                    Ok((InfoModel::Depth(depth, None), at + 2))
                },
                Err(e) => Err(e),
            }
        } else if key == "time"@ {
            if at + 1 >= args.len() {
                Err(Failure::Syntax)
            } else {
                match u64_of(args[at + 1]) {
                    Some(ms) => Ok(
                        (
                            InfoModel::Time(
                                (ms / 1000) as u64,
                                ((ms % 1000) * 1_000_000) as u32,
                            ),
                            at + 2,
                        ),
                    ),
                    None => Err(Failure::Number),
                }
            }
        } else if key == "nodes"@ {
            match number_at(args, at + 1) {
                Ok(n) => Ok((InfoModel::Nodes(n), at + 2)),
                Err(e) => Err(e),
            }
        } else if key == "multipv"@ {
            match number_at(args, at + 1) {
                Ok(n) => Ok((InfoModel::MultiPv(n), at + 2)),
                Err(e) => Err(e),
            }
        } else if key == "nps"@ {
            match number_at(args, at + 1) {
                Ok(n) => Ok((InfoModel::Nps(n), at + 2)),
                Err(e) => Err(e),
            }
        } else if key == "hashfull"@ {
            match number_at(args, at + 1) {
                Ok(n) => Ok((InfoModel::HashFull(n), at + 2)),
                Err(e) => Err(e),
            }
        } else if key == "currmove"@ {
            if at + 1 >= args.len() {
                Err(Failure::Syntax)
            } else {
                Ok((InfoModel::CurrMove(args[at + 1]), at + 2))
            }
        } else if key == "score"@ {
            score_at(args, at + 1)
        } else if key == "pv"@ {
            Ok((InfoModel::Pv(args.skip(at + 1)), args.len() as int))
        } else if key == "string"@ {
            Ok((InfoModel::Text(joined(args.skip(at + 1))), args.len() as int))
        } else {
            Err(Failure::Syntax)
        }
    }
}

/// The items of an `info` line from position `at` on, read from left to
/// right; the first item that fails decides the failure.
pub open spec fn info_items_from(args: Seq<Seq<char>>, at: int) -> Result<Seq<InfoModel>, Failure>
    decreases args.len() - at,
    via info_items_from_decreases
{
    if at < 0 || at >= args.len() {
        Ok(Seq::empty())
    } else {
        match info_item_at(args, at) {
            Ok((item, next)) => match info_items_from(args, next) {
                Ok(rest) => Ok(seq![item] + rest),
                Err(e) => Err(e),
            },
            Err(e) => Err(e),
        }
    }
}

#[via_fn]
proof fn info_items_from_decreases(args: Seq<Seq<char>>, at: int) {
    lemma_info_item_advances(args, at);
}

/// An item takes at least one word, and no word beyond the line.
pub proof fn lemma_info_item_advances(args: Seq<Seq<char>>, at: int)
    ensures
        info_item_at(args, at) is Ok ==> at < info_item_at(args, at)->Ok_0.1 <= args.len(),
{
}

/// What follows `info`: any number of items.
pub open spec fn info_of(args: Seq<Seq<char>>) -> Result<CommandModel, Failure> {
    match info_items_from(args, 0) {
        Ok(items) => Ok(CommandModel::Info(items)),
        Err(e) => Err(e),
    }
}

/// The command that a line of words is. The first word says which
/// command it is; a line without a word is no command, and a first word
/// that names none is not in the grammar.
pub open spec fn command_of_words(ws: Seq<Seq<char>>) -> Result<CommandModel, Failure> {
    if ws.len() == 0 {
        Ok(CommandModel::Unknown)
    } else if ws[0] == "bestmove"@ {
        best_move_of(ws.skip(1))
    } else if ws[0] == "checkmate"@ {
        checkmate_of(ws.skip(1))
    } else if ws[0] == "id"@ {
        id_of(ws.skip(1))
    } else if ws[0] == "info"@ {
        info_of(ws.skip(1))
    } else if ws[0] == "option"@ {
        option_of(ws.skip(1))
    } else if ws[0] == "readyok"@ {
        Ok(CommandModel::ReadyOk)
    } else if ws[0] == "usiok"@ {
        Ok(CommandModel::UsiOk)
    } else {
        Err(Failure::Syntax)
    }
}

/// The command that a line of text is.
pub open spec fn command_of(line: Seq<char>) -> Result<CommandModel, Failure> {
    command_of_words(words(line))
}

/// Reads the number at index `at` of the line, which is position
/// `at - 1` of what follows the first word.
fn parse_number(ws: &Vec<String>, at: usize) -> (r: Result<i32, Error>)
    requires
        1 <= at,
        ws.len() >= 1,
    ensures
        match number_at(ws.deep_view().skip(1), at - 1) {
            Ok(n) => r == Ok::<i32, Error>(n),
            Err(Failure::Syntax) => r matches Err(Error::IllegalSyntax),
            Err(Failure::Number) => r matches Err(Error::IllegalNumberFormat(_)),
        },
{
    if at >= ws.len() {
        return Err(Error::IllegalSyntax);
    }
    assert(ws.deep_view().skip(1)[at - 1] == ws[at as int]@);
    match parse_i32(ws[at].as_str()) {
        Ok(n) => Ok(n),
        Err(e) => Err(Error::IllegalNumberFormat(e)),
    }
}

fn parse_score(ws: &Vec<String>, at: usize) -> (r: Result<(InfoParams, usize), Error>)
    requires
        1 <= at,
        ws.len() >= 1,
    ensures
        match score_at(ws.deep_view().skip(1), at - 1) {
            Ok((m, next)) => r matches Ok((item, n)) && item@ == m && n == next + 1,
            Err(Failure::Syntax) => r matches Err(Error::IllegalSyntax),
            Err(Failure::Number) => r matches Err(Error::IllegalNumberFormat(_)),
        },
{
    let ghost args = ws.deep_view().skip(1);
    if at >= ws.len() || at + 1 >= ws.len() {
        return Err(Error::IllegalSyntax);
    }
    assert(args[at - 1] == ws[at as int]@);
    assert(args[at as int] == ws[at + 1]@);
    let lower = at + 2 < ws.len() && word_is(&ws[at + 2], "lowerbound");
    let upper = at + 2 < ws.len() && word_is(&ws[at + 2], "upperbound");
    assert(at + 2 < ws.len() ==> args[at + 1] == ws[at + 2]@);
    let next: usize = if lower || upper {
        at + 3
    } else {
        at + 2
    };
    if word_is(&ws[at], "cp") {
        match parse_i32(ws[at + 1].as_str()) {
            Ok(n) => {
                let kind = if lower {
                    ScoreKind::CpLowerbound
                } else if upper {
                    ScoreKind::CpUpperbound
                } else {
                    ScoreKind::CpExact
                };
                Ok((InfoParams::Score(n, kind), next))
            },
            Err(e) => Err(Error::IllegalNumberFormat(e)),
        }
    } else if word_is(&ws[at], "mate") {
        if word_is(&ws[at + 1], "+") {
            Ok((InfoParams::Score(1, ScoreKind::MateSignOnly), at + 2))
        } else if word_is(&ws[at + 1], "-") {
            Ok((InfoParams::Score(-1, ScoreKind::MateSignOnly), at + 2))
        } else {
            match parse_i32(ws[at + 1].as_str()) {
                Ok(n) => {
                    let kind = if lower {
                        ScoreKind::MateLowerbound
                    } else if upper {
                        ScoreKind::MateUpperbound
                    } else {
                        ScoreKind::MateExact
                    };
                    Ok((InfoParams::Score(n, kind), next))
                },
                Err(e) => Err(Error::IllegalNumberFormat(e)),
            }
        }
    } else {
        Err(Error::IllegalSyntax)
    }
}

/// Reads the item that begins at index `at` of the line, which is
/// position `at - 1` of what follows the first word; returns it with the
/// index after it.
fn parse_info_item(ws: &Vec<String>, at: usize) -> (r: Result<(InfoParams, usize), Error>)
    requires
        1 <= at < ws.len(),
    ensures
        match info_item_at(ws.deep_view().skip(1), at - 1) {
            Ok((m, next)) => r matches Ok((item, n)) && item@ == m && n == next + 1,
            Err(Failure::Syntax) => r matches Err(Error::IllegalSyntax),
            Err(Failure::Number) => r matches Err(Error::IllegalNumberFormat(_)),
        },
{
    let ghost args = ws.deep_view().skip(1);
    assert(args[at - 1] == ws[at as int]@);
    assert(at + 1 < ws.len() ==> args[at as int] == ws[at + 1]@);
    assert(at + 2 < ws.len() ==> args[at + 1] == ws[at + 2]@);
    let key = &ws[at];
    if word_is(key, "depth") {
        let depth = parse_number(ws, at + 1)?;
        if at + 2 < ws.len() && word_is(&ws[at + 2], "seldepth") {
            let seldepth = parse_number(ws, at + 3)?;
            Ok((InfoParams::Depth(depth, Some(seldepth)), at + 4))
        } else {
            Ok((InfoParams::Depth(depth, None), at + 2))
        }
    } else if word_is(key, "time") {
        if at + 1 >= ws.len() {
            return Err(Error::IllegalSyntax);
        }
        match parse_u64(ws[at + 1].as_str()) {
            Ok(ms) => Ok((InfoParams::Time(Duration::from_millis(ms)), at + 2)),
            Err(e) => Err(Error::IllegalNumberFormat(e)),
        }
    } else if word_is(key, "nodes") {
        let n = parse_number(ws, at + 1)?;
        Ok((InfoParams::Nodes(n), at + 2))
    } else if word_is(key, "multipv") {
        let n = parse_number(ws, at + 1)?;
        Ok((InfoParams::MultiPv(n), at + 2))
    } else if word_is(key, "nps") {
        let n = parse_number(ws, at + 1)?;
        Ok((InfoParams::Nps(n), at + 2))
    } else if word_is(key, "hashfull") {
        let n = parse_number(ws, at + 1)?;
        Ok((InfoParams::HashFull(n), at + 2))
    } else if word_is(key, "currmove") {
        if at + 1 >= ws.len() {
            return Err(Error::IllegalSyntax);
        }
        Ok((InfoParams::CurrMove(ws[at + 1].clone()), at + 2))
    } else if word_is(key, "score") {
        parse_score(ws, at + 1)
    } else if word_is(key, "pv") {
        assert(args.skip(at as int) =~= ws.deep_view().skip(at + 1));
        Ok((InfoParams::Pv(copy_from(ws, at + 1)), ws.len()))
    } else if word_is(key, "string") {
        assert(args.skip(at as int) =~= ws.deep_view().skip(at + 1));
        Ok((InfoParams::Text(join_from(ws, at + 1)), ws.len()))
    } else {
        Err(Error::IllegalSyntax)
    }
}

/// The items read so far, followed by those that are still to be read.
spec fn items_then(
    done: Seq<InfoModel>,
    rest: Result<Seq<InfoModel>, Failure>,
) -> Result<Seq<InfoModel>, Failure> {
    match rest {
        Ok(items) => Ok(done + items),
        Err(e) => Err(e),
    }
}

fn parse_info(ws: &Vec<String>) -> (r: Result<EngineCommand, Error>)
    requires
        ws.len() >= 1,
    ensures
        agrees(r, info_of(ws.deep_view().skip(1))),
{
    let ghost args = ws.deep_view().skip(1);
    let mut items: Vec<InfoParams> = Vec::new();
    let mut at: usize = 1;
    assert(items_then(info_models(items@), info_items_from(args, 0)) == info_items_from(args, 0))
        by {
        match info_items_from(args, 0) {
            Ok(rest) => {
                assert(info_models(items@) + rest =~= rest);
            },
            Err(_) => {},
        }
    }
    while at < ws.len()
        invariant
            1 <= at <= ws.len(),
            args == ws.deep_view().skip(1),
            items_then(info_models(items@), info_items_from(args, at - 1)) == info_items_from(
                args,
                0,
            ),
        decreases ws.len() - at,
    {
        let ghost before = info_models(items@);
        match parse_info_item(ws, at) {
            Ok((item, next)) => {
                items.push(item);
                proof {
                    assert(info_models(items@) =~= before.push(item@));
                    match info_items_from(args, next - 1) {
                        Ok(rest) => {
                            assert(before.push(item@) + rest =~= before + (seq![item@] + rest));
                        },
                        Err(_) => {},
                    }
                }
                at = next;
            },
            Err(e) => {
                return Err(e);
            },
        }
    }
    assert(info_models(items@) + Seq::<InfoModel>::empty() =~= info_models(items@));
    Ok(EngineCommand::Info(items))
}

impl EngineCommand {
    /// Reads one line of text as a command of the engine.
    ///
    /// The line is split into words at whitespace. The outcome is the one
    /// that `command_of` gives for the line: the command that the words
    /// spell, `Error::IllegalSyntax` where they spell none, or
    /// `Error::IllegalNumberFormat` where a word that must write a number
    /// does not write one that fits.
    pub fn parse(cmd: &str) -> (r: Result<EngineCommand, Error>)
        ensures
            agrees(r, command_of(cmd@)),
    {
        let ws = split_words(cmd);
        if ws.len() == 0 {
            return Ok(EngineCommand::Unknown);
        }
        let head = &ws[0];
        if word_is(head, "bestmove") {
            parse_bestmove(&ws)
        } else if word_is(head, "checkmate") {
            parse_checkmate(&ws)
        } else if word_is(head, "id") {
            parse_id(&ws)
        } else if word_is(head, "info") {
            parse_info(&ws)
        } else if word_is(head, "option") {
            parse_option(&ws)
        } else if word_is(head, "readyok") {
            Ok(EngineCommand::ReadyOk)
        } else if word_is(head, "usiok") {
            Ok(EngineCommand::UsiOk)
        } else {
            Err(Error::IllegalSyntax)
        }
    }
}

/// A line that is a command other than the one of the line without a
/// word holds more than whitespace.
pub proof fn lemma_command_is_written(line: Seq<char>)
    requires
        command_of(line) != Ok::<CommandModel, Failure>(CommandModel::Unknown),
    ensures
        !is_blank(line),
{
    if is_blank(line) {
        lemma_blank_has_no_words(line, 0);
    }
}

} // verus!
