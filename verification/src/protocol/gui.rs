//! The commands that a GUI sends to an engine, and how each is written on
//! the wire.
use vstd::prelude::*;
use vstd::string::*;
use std::time::Duration;
use crate::text::{
    decimal, is_whitespace, lemma_decimal_digits, lemma_single_word, lemma_space_has_no_words,
    lemma_words_concat, push_decimal, words,
};
use crate::time::{millis, nanos_part, secs_part};

verus! {

/// How a game ended, from the engine's side.
#[derive(Clone, Debug, PartialEq, Eq, Hash)]
pub enum GameOverKind {
    Win,
    Lose,
    Draw,
}

/// The limit of a search for mate.
#[derive(Clone, Debug, PartialEq, Eq, Hash)]
pub enum MateParam {
    Timeout(Duration),
    Infinite,
}

/// The parameters of a `go` command. Each is either absent or set; an
/// absent one leaves no trace on the wire.
#[derive(Clone, Debug, PartialEq, Eq, Hash)]
pub struct ThinkParams {
    ponder: bool,
    btime: Option<Duration>,
    wtime: Option<Duration>,
    byoyomi: Option<Duration>,
    binc: Option<Duration>,
    winc: Option<Duration>,
    infinite: bool,
    mate: Option<MateParam>,
}

/// What a `ThinkParams` holds, field by field.
pub struct ThinkModel {
    pub ponder: bool,
    pub btime: Option<Duration>,
    pub wtime: Option<Duration>,
    pub byoyomi: Option<Duration>,
    pub binc: Option<Duration>,
    pub winc: Option<Duration>,
    pub infinite: bool,
    pub mate: Option<MateParam>,
}

/// A command sent from the GUI to the engine.
#[derive(Clone, Debug, PartialEq, Eq, Hash)]
pub enum GuiCommand {
    GameOver(GameOverKind),
    Go(ThinkParams),
    IsReady,
    Ponderhit,
    Position(String),
    SetOption(String, Option<String>),
    Stop,
    Usi,
    UsiNewGame,
    Quit,
}

impl View for ThinkParams {
    type V = ThinkModel;

    closed spec fn view(&self) -> ThinkModel {
        ThinkModel {
            ponder: self.ponder,
            btime: self.btime,
            wtime: self.wtime,
            byoyomi: self.byoyomi,
            binc: self.binc,
            winc: self.winc,
            infinite: self.infinite,
            mate: self.mate,
        }
    }
}

/// One parameter of a `go` command, as it is set.
pub enum Setting {
    Ponder,
    Btime(Duration),
    Wtime(Duration),
    Byoyomi(Duration),
    Binc(Duration),
    Winc(Duration),
    Infinite,
    Mate(MateParam),
}

impl Setting {
    /// Whether two settings are of the same parameter.
    pub open spec fn same_parameter(self, other: Setting) -> bool {
        match (self, other) {
            (Setting::Ponder, Setting::Ponder) => true,
            (Setting::Btime(_), Setting::Btime(_)) => true,
            (Setting::Wtime(_), Setting::Wtime(_)) => true,
            (Setting::Byoyomi(_), Setting::Byoyomi(_)) => true,
            (Setting::Binc(_), Setting::Binc(_)) => true,
            (Setting::Winc(_), Setting::Winc(_)) => true,
            (Setting::Infinite, Setting::Infinite) => true,
            (Setting::Mate(_), Setting::Mate(_)) => true,
            _ => false,
        }
    }
}

impl ThinkModel {
    /// The parameters after one of them is set; the others stay as they
    /// are.
    pub open spec fn with(self, setting: Setting) -> ThinkModel {
        match setting {
            Setting::Ponder => ThinkModel { ponder: true, ..self },
            Setting::Btime(t) => ThinkModel { btime: Some(t), ..self },
            Setting::Wtime(t) => ThinkModel { wtime: Some(t), ..self },
            Setting::Byoyomi(t) => ThinkModel { byoyomi: Some(t), ..self },
            Setting::Binc(t) => ThinkModel { binc: Some(t), ..self },
            Setting::Winc(t) => ThinkModel { winc: Some(t), ..self },
            Setting::Infinite => ThinkModel { infinite: true, ..self },
            Setting::Mate(m) => ThinkModel { mate: Some(m), ..self },
        }
    }

    /// The words that follow the word `go` on the wire: for each
    /// parameter that is set its key and, where it has one, its value,
    /// always in this order.
    pub open spec fn tokens(self) -> Seq<Seq<char>> {
        flag_words(self.ponder, "ponder"@) + time_words("btime"@, self.btime) + time_words(
            "wtime"@,
            self.wtime,
        ) + time_words("byoyomi"@, self.byoyomi) + time_words("binc"@, self.binc) + time_words(
            "winc"@,
            self.winc,
        ) + flag_words(self.infinite, "infinite"@) + mate_words(self.mate)
    }

    /// Parameters of which none is set.
    pub open spec fn unset() -> ThinkModel {
        ThinkModel {
            ponder: false,
            btime: None,
            wtime: None,
            byoyomi: None,
            binc: None,
            winc: None,
            infinite: false,
            mate: None,
        }
    }

    /// What follows the word `go` on the wire: one group for each parameter
    /// that is set, each led by a space, always in this order.
    pub open spec fn encoding(self) -> Seq<char> {
        flag_text(self.ponder, " ponder"@) + time_text(" btime "@, self.btime) + time_text(
            " wtime "@,
            self.wtime,
        ) + time_text(" byoyomi "@, self.byoyomi) + time_text(" binc "@, self.binc) + time_text(
            " winc "@,
            self.winc,
        ) + flag_text(self.infinite, " infinite"@) + mate_text(self.mate)
    }
}

/// The words of a flag: its key when the flag is set.
pub open spec fn flag_words(on: bool, key: Seq<char>) -> Seq<Seq<char>> {
    if on {
        seq![key]
    } else {
        Seq::empty()
    }
}

/// The words of a time parameter: its key and the numeral of its
/// milliseconds when the parameter is set.
pub open spec fn time_words(key: Seq<char>, t: Option<Duration>) -> Seq<Seq<char>> {
    match t {
        Some(t) => seq![key, decimal(millis(t))],
        None => Seq::empty(),
    }
}

/// The words of the mate parameter.
pub open spec fn mate_words(mate: Option<MateParam>) -> Seq<Seq<char>> {
    match mate {
        Some(MateParam::Timeout(t)) => seq!["mate"@, decimal(millis(t))],
        Some(MateParam::Infinite) => seq!["mate"@, "infinite"@],
        None => Seq::empty(),
    }
}

/// The text of a flag: its word when the flag is set, nothing otherwise.
pub open spec fn flag_text(on: bool, word: Seq<char>) -> Seq<char> {
    if on {
        word
    } else {
        Seq::empty()
    }
}

/// The text of a time parameter: its key and the time in milliseconds
/// when the parameter is set, nothing otherwise.
pub open spec fn time_text(key: Seq<char>, t: Option<Duration>) -> Seq<char> {
    match t {
        Some(t) => key + decimal(millis(t)),
        None => Seq::empty(),
    }
}

/// The text of the mate parameter.
pub open spec fn mate_text(mate: Option<MateParam>) -> Seq<char> {
    match mate {
        Some(MateParam::Timeout(t)) => " mate "@ + decimal(millis(t)),
        Some(MateParam::Infinite) => " mate infinite"@,
        None => Seq::empty(),
    }
}

/// A duration in whole milliseconds, cut off below the millisecond.
pub fn to_ms(t: Duration) -> (ms: u128)
    ensures
        ms == millis(t),
        ms == 1000 * secs_part(t) + nanos_part(t) / 1_000_000,
{
    let secs: u64 = t.as_secs();
    let nanos: u32 = t.subsec_nanos();
    1000u128 * (secs as u128) + ((nanos / 1_000_000) as u128)
}

fn push_flag(out: &mut String, on: bool, word: &str)
    ensures
        final(out)@ == old(out)@ + flag_text(on, word@),
{
    if on {
        out.append(word);
    }
    assert(out@ =~= old(out)@ + flag_text(on, word@));
}

fn push_time(out: &mut String, key: &str, t: &Option<Duration>)
    ensures
        final(out)@ == old(out)@ + time_text(key@, *t),
{
    if let Some(d) = t {
        out.append(key);
        push_decimal(out, to_ms(*d));
    }
    assert(out@ =~= old(out)@ + time_text(key@, *t));
}

fn push_mate(out: &mut String, mate: &Option<MateParam>)
    ensures
        final(out)@ == old(out)@ + mate_text(*mate),
{
    match mate {
        Some(MateParam::Timeout(d)) => {
            out.append(" mate ");
            push_decimal(out, to_ms(*d));
        },
        Some(MateParam::Infinite) => {
            out.append(" mate infinite");
        },
        None => {},
    }
    assert(out@ =~= old(out)@ + mate_text(*mate));
}

impl GameOverKind {
    /// The word that stands for the result on the wire.
    pub open spec fn encoding(&self) -> Seq<char> {
        match self {
            GameOverKind::Win => "win"@,
            GameOverKind::Lose => "lose"@,
            GameOverKind::Draw => "draw"@,
        }
    }

    /// Writes the result as the protocol spells it.
    pub fn to_string(&self) -> (s: String)
        ensures
            s@ == self.encoding(),
    {
        match self {
            GameOverKind::Win => String::from_str("win"),
            GameOverKind::Lose => String::from_str("lose"),
            GameOverKind::Draw => String::from_str("draw"),
        }
    }
}

impl Default for ThinkParams {
    fn default() -> (p: ThinkParams)
        ensures
            p@ == ThinkModel::unset(),
    {
        ThinkParams {
            ponder: false,
            btime: None,
            wtime: None,
            byoyomi: None,
            binc: None,
            winc: None,
            infinite: false,
            mate: None,
        }
    }
}

impl ThinkParams {
    /// Parameters of which none is set.
    pub fn new() -> (p: ThinkParams)
        ensures
            p@ == ThinkModel::unset(),
    {
        ThinkParams {
            ponder: false,
            btime: None,
            wtime: None,
            byoyomi: None,
            binc: None,
            winc: None,
            infinite: false,
            mate: None,
        }
    }

    /// Asks the engine to think on the opponent's time.
    pub fn ponder(self) -> (p: ThinkParams)
        ensures
            p@ == self@.with(Setting::Ponder),
    {
        let mut p = self;
        p.ponder = true;
        p
    }

    /// Sets the time that black has left.
    pub fn btime(self, t: Duration) -> (p: ThinkParams)
        ensures
            p@ == self@.with(Setting::Btime(t)),
    {
        let mut p = self;
        p.btime = Some(t);
        p
    }

    /// Sets the time that white has left.
    pub fn wtime(self, t: Duration) -> (p: ThinkParams)
        ensures
            p@ == self@.with(Setting::Wtime(t)),
    {
        let mut p = self;
        p.wtime = Some(t);
        p
    }

    /// Sets the time allowed for each move once the main time is used up.
    pub fn byoyomi(self, t: Duration) -> (p: ThinkParams)
        ensures
            p@ == self@.with(Setting::Byoyomi(t)),
    {
        let mut p = self;
        p.byoyomi = Some(t);
        p
    }

    /// Sets the time that black gains with each move.
    pub fn binc(self, t: Duration) -> (p: ThinkParams)
        ensures
            p@ == self@.with(Setting::Binc(t)),
    {
        let mut p = self;
        p.binc = Some(t);
        p
    }

    /// Sets the time that white gains with each move.
    pub fn winc(self, t: Duration) -> (p: ThinkParams)
        ensures
            p@ == self@.with(Setting::Winc(t)),
    {
        let mut p = self;
        p.winc = Some(t);
        p
    }

    /// Asks the engine to search until it is told to stop.
    pub fn infinite(self) -> (p: ThinkParams)
        ensures
            p@ == self@.with(Setting::Infinite),
    {
        let mut p = self;
        p.infinite = true;
        p
    }

    /// Asks the engine to search for mate within the given limit.
    pub fn mate(self, t: MateParam) -> (p: ThinkParams)
        ensures
            p@ == self@.with(Setting::Mate(t)),
    {
        let mut p = self;
        p.mate = Some(t);
        p
    }

    /// Writes the parameters as they follow the word `go`.
    pub fn to_string(&self) -> (s: String)
        ensures
            s@ == self@.encoding(),
    {
        let mut out = String::new();
        push_flag(&mut out, self.ponder, " ponder");
        push_time(&mut out, " btime ", &self.btime);
        push_time(&mut out, " wtime ", &self.wtime);
        push_time(&mut out, " byoyomi ", &self.byoyomi);
        push_time(&mut out, " binc ", &self.binc);
        push_time(&mut out, " winc ", &self.winc);
        push_flag(&mut out, self.infinite, " infinite");
        push_mate(&mut out, &self.mate);
        assert(out@ =~= self@.encoding());
        out
    }
}

impl GuiCommand {
    /// The line that carries the command, without the newline that ends it.
    pub open spec fn encoding(&self) -> Seq<char> {
        match self {
            GuiCommand::GameOver(kind) => "gameover "@ + kind.encoding(),
            GuiCommand::Go(params) => "go"@ + params@.encoding(),
            GuiCommand::IsReady => "isready"@,
            GuiCommand::Ponderhit => "ponderhit"@,
            GuiCommand::Position(sfen) => "position sfen "@ + sfen@,
            GuiCommand::SetOption(name, None) => "setoption name "@ + name@,
            GuiCommand::SetOption(name, Some(value)) => "setoption name "@ + name@ + " value "@
                + value@,
            GuiCommand::Stop => "stop"@,
            GuiCommand::Usi => "usi"@,
            GuiCommand::UsiNewGame => "usinewgame"@,
            GuiCommand::Quit => "quit"@,
        }
    }

    /// Writes the command as one line of the protocol, without a newline.
    pub fn to_string(&self) -> (s: String)
        ensures
            s@ == self.encoding(),
    {
        match self {
            GuiCommand::GameOver(kind) => {
                let mut out = String::from_str("gameover ");
                out.append(kind.to_string().as_str());
                out
            },
            GuiCommand::Go(params) => {
                let mut out = String::from_str("go");
                out.append(params.to_string().as_str());
                out
            },
            GuiCommand::IsReady => String::from_str("isready"),
            GuiCommand::Ponderhit => String::from_str("ponderhit"),
            GuiCommand::Position(sfen) => {
                let mut out = String::from_str("position sfen ");
                out.append(sfen.as_str());
                out
            },
            GuiCommand::SetOption(name, None) => {
                let mut out = String::from_str("setoption name ");
                out.append(name.as_str());
                out
            },
            GuiCommand::SetOption(name, Some(value)) => {
                let mut out = String::from_str("setoption name ");
                out.append(name.as_str());
                out.append(" value ");
                out.append(value.as_str());
                out
            },
            GuiCommand::Stop => String::from_str("stop"),
            GuiCommand::Usi => String::from_str("usi"),
            GuiCommand::UsiNewGame => String::from_str("usinewgame"),
            GuiCommand::Quit => String::from_str("quit"),
        }
    }
}

/// Whether a text is empty or begins with whitespace.
spec fn opens_with_space(s: Seq<char>) -> bool {
    s.len() == 0 || is_whitespace(s[0])
}

/// A key that is written after a space is one word.
proof fn lemma_flag_words(on: bool, spaced: Seq<char>, key: Seq<char>)
    requires
        key.len() > 0,
        forall|i: int| 0 <= i < key.len() ==> !is_whitespace(#[trigger] key[i]),
        spaced == seq![' '] + key,
    ensures
        words(flag_text(on, spaced)) == flag_words(on, key),
        opens_with_space(flag_text(on, spaced)),
{
    lemma_space_has_no_words(' ');
    lemma_single_word(key);
    lemma_words_concat(seq![' '], key);
    assert(Seq::<Seq<char>>::empty() + seq![key] =~= seq![key]);
}

/// A key between two spaces and a word after it are two words.
proof fn lemma_key_and_value(spaced: Seq<char>, key: Seq<char>, value: Seq<char>)
    requires
        key.len() > 0,
        forall|i: int| 0 <= i < key.len() ==> !is_whitespace(#[trigger] key[i]),
        value.len() > 0,
        forall|i: int| 0 <= i < value.len() ==> !is_whitespace(#[trigger] value[i]),
        spaced == seq![' '] + key + seq![' '],
    ensures
        words(spaced + value) == seq![key, value],
        opens_with_space(spaced + value),
{
    lemma_flag_words(true, seq![' '] + key, key);
    lemma_space_has_no_words(' ');
    lemma_words_concat(seq![' '] + key, seq![' ']);
    assert(seq![key] + Seq::<Seq<char>>::empty() =~= seq![key]);
    lemma_single_word(value);
    lemma_words_concat(spaced, value);
    assert(seq![key] + seq![value] =~= seq![key, value]);
    assert((spaced + value)[0] == ' ');
}

proof fn lemma_time_words(t: Option<Duration>, spaced: Seq<char>, key: Seq<char>)
    requires
        key.len() > 0,
        forall|i: int| 0 <= i < key.len() ==> !is_whitespace(#[trigger] key[i]),
        spaced == seq![' '] + key + seq![' '],
    ensures
        words(time_text(spaced, t)) == time_words(key, t),
        opens_with_space(time_text(spaced, t)),
{
    match t {
        Some(d) => {
            lemma_decimal_digits(millis(d));
            lemma_key_and_value(spaced, key, decimal(millis(d)));
        },
        None => {},
    }
}

proof fn lemma_mate_words(mate: Option<MateParam>)
    ensures
        words(mate_text(mate)) == mate_words(mate),
        opens_with_space(mate_text(mate)),
{
    reveal_strlit(" mate ");
    reveal_strlit(" mate infinite");
    reveal_strlit("mate");
    reveal_strlit("infinite");
    let spaced = seq![' '] + "mate"@ + seq![' '];
    match mate {
        Some(MateParam::Timeout(d)) => {
            assert(" mate "@ =~= spaced);
            lemma_decimal_digits(millis(d));
            lemma_key_and_value(spaced, "mate"@, decimal(millis(d)));
        },
        Some(MateParam::Infinite) => {
            assert(" mate infinite"@ =~= spaced + "infinite"@);
            lemma_key_and_value(spaced, "mate"@, "infinite"@);
        },
        None => {},
    }
}

/// Two texts that are empty or begin with whitespace, written one after
/// the other.
proof fn lemma_pieces(a: Seq<char>, b: Seq<char>)
    requires
        opens_with_space(a),
        opens_with_space(b),
    ensures
        opens_with_space(a + b),
        words(a + b) == words(a) + words(b),
{
    lemma_words_concat(a, b);
    if a.len() > 0 {
        assert((a + b)[0] == a[0]);
    } else {
        assert(a + b =~= b);
    }
}

/// Whatever the order in which the parameters were set, the words of a
/// `go` command stand in one fixed order: `go`, then for each parameter
/// that is set its key and value, `ponder` first and `mate` last.
pub proof fn lemma_go_tokens(command: GuiCommand)
    requires
        command is Go,
    ensures
        words(command.encoding()) == seq!["go"@] + command->Go_0@.tokens(),
{
    let params = command->Go_0@;
    reveal_strlit("go");
    reveal_strlit(" ponder");
    reveal_strlit("ponder");
    reveal_strlit(" btime ");
    reveal_strlit("btime");
    reveal_strlit(" wtime ");
    reveal_strlit("wtime");
    reveal_strlit(" byoyomi ");
    reveal_strlit("byoyomi");
    reveal_strlit(" binc ");
    reveal_strlit("binc");
    reveal_strlit(" winc ");
    reveal_strlit("winc");
    reveal_strlit(" infinite");
    reveal_strlit("infinite");
    assert(" ponder"@ =~= seq![' '] + "ponder"@);
    assert(" btime "@ =~= seq![' '] + "btime"@ + seq![' ']);
    assert(" wtime "@ =~= seq![' '] + "wtime"@ + seq![' ']);
    assert(" byoyomi "@ =~= seq![' '] + "byoyomi"@ + seq![' ']);
    assert(" binc "@ =~= seq![' '] + "binc"@ + seq![' ']);
    assert(" winc "@ =~= seq![' '] + "winc"@ + seq![' ']);
    assert(" infinite"@ =~= seq![' '] + "infinite"@);
    lemma_flag_words(params.ponder, " ponder"@, "ponder"@);
    lemma_time_words(params.btime, " btime "@, "btime"@);
    lemma_time_words(params.wtime, " wtime "@, "wtime"@);
    lemma_time_words(params.byoyomi, " byoyomi "@, "byoyomi"@);
    lemma_time_words(params.binc, " binc "@, "binc"@);
    lemma_time_words(params.winc, " winc "@, "winc"@);
    lemma_flag_words(params.infinite, " infinite"@, "infinite"@);
    lemma_mate_words(params.mate);
    let upto_btime = flag_text(params.ponder, " ponder"@) + time_text(" btime "@, params.btime);
    let upto_wtime = upto_btime + time_text(" wtime "@, params.wtime);
    let upto_byoyomi = upto_wtime + time_text(" byoyomi "@, params.byoyomi);
    let upto_binc = upto_byoyomi + time_text(" binc "@, params.binc);
    let upto_winc = upto_binc + time_text(" winc "@, params.winc);
    let upto_infinite = upto_winc + flag_text(params.infinite, " infinite"@);
    lemma_pieces(flag_text(params.ponder, " ponder"@), time_text(" btime "@, params.btime));
    lemma_pieces(upto_btime, time_text(" wtime "@, params.wtime));
    lemma_pieces(upto_wtime, time_text(" byoyomi "@, params.byoyomi));
    lemma_pieces(upto_byoyomi, time_text(" binc "@, params.binc));
    lemma_pieces(upto_binc, time_text(" winc "@, params.winc));
    lemma_pieces(upto_winc, flag_text(params.infinite, " infinite"@));
    lemma_pieces(upto_infinite, mate_text(params.mate));
    lemma_single_word("go"@);
    lemma_words_concat("go"@, params.encoding());
}

/// Setting two different parameters comes to the same whichever is set
/// first; so the order in which the parameters of a `go` command are set
/// leaves no trace in the command.
pub proof fn lemma_settings_commute(params: ThinkModel, first: Setting, second: Setting)
    requires
        !first.same_parameter(second),
    ensures
        params.with(first).with(second) == params.with(second).with(first),
        params.with(first).with(second).encoding() == params.with(second).with(first).encoding(),
{
}

} // verus!
