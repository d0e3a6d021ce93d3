use std::time::Duration;
use usi::{
    BestMoveParams, CheckmateParams, EngineCommand, Error, IdParams, InfoParams, OptionKind,
    OptionParams, ScoreKind,
};

fn words(items: &[&str]) -> Vec<String> {
    items.iter().map(|s| s.to_string()).collect()
}

#[test]
fn bestmove_with_ponder() {
    let cmd = EngineCommand::parse("bestmove 7g7f ponder 8c8d").unwrap();
    match cmd {
        EngineCommand::BestMove(BestMoveParams::MakeMove(ref m, Some(ref pm))) => {
            assert_eq!("7g7f", *m);
            assert_eq!("8c8d", *pm);
        }
        _ => unreachable!(),
    }
}

#[test]
fn bestmove_forms() {
    assert_eq!(
        EngineCommand::BestMove(BestMoveParams::MakeMove("5e5f".to_string(), None)),
        EngineCommand::parse("  bestmove 5e5f\n").unwrap()
    );
    assert_eq!(
        EngineCommand::BestMove(BestMoveParams::Resign),
        EngineCommand::parse("bestmove resign").unwrap()
    );
    assert_eq!(
        EngineCommand::BestMove(BestMoveParams::Win),
        EngineCommand::parse("bestmove win").unwrap()
    );
    assert_eq!(
        EngineCommand::BestMove(BestMoveParams::MakeMove(
            "7g7f".to_string(),
            Some("8c8d".to_string())
        )),
        EngineCommand::parse("bestmove\t7g7f\u{3000}ponder  8c8d and more").unwrap()
    );
    assert!(matches!(
        EngineCommand::parse("bestmove"),
        Err(Error::IllegalSyntax)
    ));
    assert!(matches!(
        EngineCommand::parse("bestmove 7g7f 8c8d"),
        Err(Error::IllegalSyntax)
    ));
    assert!(matches!(
        EngineCommand::parse("bestmove 7g7f ponder"),
        Err(Error::IllegalSyntax)
    ));
    assert!(matches!(
        EngineCommand::parse("bestmove 7g7f think 8c8d"),
        Err(Error::IllegalSyntax)
    ));
}

#[test]
fn acknowledgements() {
    assert_eq!(EngineCommand::UsiOk, EngineCommand::parse("usiok").unwrap());
    assert_eq!(EngineCommand::ReadyOk, EngineCommand::parse("readyok\n").unwrap());
    assert_eq!(EngineCommand::ReadyOk, EngineCommand::parse("   readyok").unwrap());
    assert!(matches!(
        EngineCommand::parse("usiokay"),
        Err(Error::IllegalSyntax)
    ));
    assert!(matches!(
        EngineCommand::parse("USIOK"),
        Err(Error::IllegalSyntax)
    ));
}

#[test]
fn line_without_a_word() {
    assert_eq!(EngineCommand::Unknown, EngineCommand::parse("").unwrap());
    assert_eq!(EngineCommand::Unknown, EngineCommand::parse(" \t\r\n").unwrap());
}

#[test]
fn unknown_leading_word() {
    assert!(matches!(
        EngineCommand::parse("hello world"),
        Err(Error::IllegalSyntax)
    ));
    assert!(matches!(
        EngineCommand::parse("go btime 1000"),
        Err(Error::IllegalSyntax)
    ));
}

#[test]
fn id_lines() {
    assert_eq!(
        EngineCommand::Id(IdParams::Name("Lesserkai 1.4.2".to_string())),
        EngineCommand::parse("id name   Lesserkai    1.4.2 \n").unwrap()
    );
    assert_eq!(
        EngineCommand::Id(IdParams::Author("Program Writer".to_string())),
        EngineCommand::parse("id author Program Writer").unwrap()
    );
    assert_eq!(
        EngineCommand::Id(IdParams::Name("".to_string())),
        EngineCommand::parse("id name").unwrap()
    );
    assert!(matches!(EngineCommand::parse("id"), Err(Error::IllegalSyntax)));
    assert!(matches!(
        EngineCommand::parse("id version 3"),
        Err(Error::IllegalSyntax)
    ));
}

#[test]
fn checkmate_lines() {
    assert_eq!(
        EngineCommand::Checkmate(CheckmateParams::Mate(words(&["G*8f", "9f9g", "8f8g"]))),
        EngineCommand::parse("checkmate G*8f 9f9g 8f8g").unwrap()
    );
    assert_eq!(
        EngineCommand::Checkmate(CheckmateParams::NotImplemented),
        EngineCommand::parse("checkmate notimplemented").unwrap()
    );
    assert_eq!(
        EngineCommand::Checkmate(CheckmateParams::Timeout),
        EngineCommand::parse("checkmate timeout").unwrap()
    );
    assert_eq!(
        EngineCommand::Checkmate(CheckmateParams::NoMate),
        EngineCommand::parse("checkmate nomate").unwrap()
    );
    assert!(matches!(
        EngineCommand::parse("checkmate"),
        Err(Error::IllegalSyntax)
    ));
}

fn option(name: &str, value: OptionKind) -> EngineCommand {
    EngineCommand::Option(OptionParams {
        name: name.to_string(),
        value,
    })
}

#[test]
fn option_lines() {
    assert_eq!(
        option("UseBook", OptionKind::Check { default: Some(true) }),
        EngineCommand::parse("option name UseBook type check default true").unwrap()
    );
    assert_eq!(
        option("UseBook", OptionKind::Check { default: Some(false) }),
        EngineCommand::parse("option name UseBook type check default false").unwrap()
    );
    assert_eq!(
        option("UseBook", OptionKind::Check { default: None }),
        EngineCommand::parse("option name UseBook type check").unwrap()
    );
    assert_eq!(
        option(
            "Selectivity",
            OptionKind::Spin {
                default: Some(2),
                min: Some(0),
                max: Some(4)
            }
        ),
        EngineCommand::parse("option name Selectivity type spin default 2 min 0 max 4").unwrap()
    );
    assert_eq!(
        option(
            "Depth",
            OptionKind::Spin {
                default: Some(-2147483648),
                min: None,
                max: Some(2147483647)
            }
        ),
        EngineCommand::parse("option type spin max +2147483647 default -2147483648 name Depth")
            .unwrap()
    );
    assert_eq!(
        option(
            "Style",
            OptionKind::Combo {
                default: Some("Normal".to_string()),
                vars: words(&["Solid", "Normal", "Risky"])
            }
        ),
        EngineCommand::parse(
            "option name Style type combo default Normal var Solid var Normal var Risky"
        )
        .unwrap()
    );
    assert_eq!(
        option("ResetLearning", OptionKind::Button { default: None }),
        EngineCommand::parse("option name ResetLearning type button").unwrap()
    );
    assert_eq!(
        option(
            "BookFile",
            OptionKind::String {
                default: Some("public.bin".to_string())
            }
        ),
        EngineCommand::parse("option name BookFile type string default public.bin").unwrap()
    );
    assert_eq!(
        option(
            "LearningFile",
            OptionKind::Filename {
                default: Some("<empty>".to_string())
            }
        ),
        EngineCommand::parse("option name LearningFile type filename default <empty>").unwrap()
    );
    assert_eq!(
        option("Second", OptionKind::Button { default: None }),
        EngineCommand::parse("option name First type check name Second type button").unwrap()
    );
}

#[test]
fn option_failures() {
    for line in [
        "option",
        "option type check",
        "option name UseBook",
        "option name UseBook type",
        "option name UseBook type slider",
        "option name UseBook type check default maybe",
        "option name UseBook type check size 3",
        "option name UseBook type check default",
    ] {
        assert!(
            matches!(EngineCommand::parse(line), Err(Error::IllegalSyntax)),
            "{}",
            line
        );
    }
    for line in [
        "option name Depth type spin default two",
        "option name Depth type spin min 0x10",
        "option name Depth type spin max 2147483648",
        "option name Depth type spin min -2147483649",
        "option name Depth type spin min - max 3",
        "option name Depth type spin min 1_000",
        "option name Depth type check min 1.5",
    ] {
        assert!(
            matches!(EngineCommand::parse(line), Err(Error::IllegalNumberFormat(_))),
            "{}",
            line
        );
    }
    assert!(matches!(
        EngineCommand::parse("option name Depth type spin min x size 3"),
        Err(Error::IllegalNumberFormat(_))
    ));
    assert!(matches!(
        EngineCommand::parse("option name Depth size 3 min x"),
        Err(Error::IllegalSyntax)
    ));
}

#[test]
fn info_lines() {
    assert_eq!(
        EngineCommand::Info(vec![]),
        EngineCommand::parse("info").unwrap()
    );
    assert_eq!(
        EngineCommand::Info(vec![
            InfoParams::Depth(2, None),
            InfoParams::Score(-1521, ScoreKind::CpExact),
            InfoParams::Nodes(2124),
            InfoParams::Time(Duration::from_millis(1242)),
            InfoParams::Pv(words(&["2g2f", "4c4d", "3g3f"])),
        ]),
        EngineCommand::parse("info depth 2 score cp -1521 nodes 2124 time 1242 pv 2g2f 4c4d 3g3f")
            .unwrap()
    );
    assert_eq!(
        EngineCommand::Info(vec![
            InfoParams::Depth(8, Some(12)),
            InfoParams::MultiPv(2),
            InfoParams::Nps(50000),
            InfoParams::HashFull(104),
            InfoParams::CurrMove("7g7f".to_string()),
        ]),
        EngineCommand::parse("info depth 8 seldepth 12 multipv 2 nps 50000 hashfull 104 currmove 7g7f")
            .unwrap()
    );
    assert_eq!(
        EngineCommand::Info(vec![InfoParams::Text("7g7f  (70%)".split_whitespace().collect::<Vec<&str>>().join(" "))]),
        EngineCommand::parse("info string 7g7f  (70%)").unwrap()
    );
    assert_eq!(
        EngineCommand::Info(vec![InfoParams::Text("".to_string())]),
        EngineCommand::parse("info string").unwrap()
    );
    assert_eq!(
        EngineCommand::Info(vec![InfoParams::Pv(vec![])]),
        EngineCommand::parse("info pv").unwrap()
    );
    assert_eq!(
        EngineCommand::Info(vec![InfoParams::Time(Duration::new(18446744073709551, 615_000_000))]),
        EngineCommand::parse("info time 18446744073709551615").unwrap()
    );
}

#[test]
fn info_scores() {
    let cases = [
        ("info score cp 10", 10, ScoreKind::CpExact),
        ("info score cp 10 lowerbound", 10, ScoreKind::CpLowerbound),
        ("info score cp -10 upperbound", -10, ScoreKind::CpUpperbound),
        ("info score mate 5", 5, ScoreKind::MateExact),
        ("info score mate -5 lowerbound", -5, ScoreKind::MateLowerbound),
        ("info score mate +5 upperbound", 5, ScoreKind::MateUpperbound),
        ("info score mate +", 1, ScoreKind::MateSignOnly),
        ("info score mate -", -1, ScoreKind::MateSignOnly),
    ];
    for (line, n, kind) in cases {
        assert_eq!(
            EngineCommand::Info(vec![InfoParams::Score(n, kind)]),
            EngineCommand::parse(line).unwrap(),
            "{}",
            line
        );
    }
    assert_eq!(
        EngineCommand::Info(vec![
            InfoParams::Score(3, ScoreKind::CpLowerbound),
            InfoParams::Depth(1, None)
        ]),
        EngineCommand::parse("info score cp 3 lowerbound depth 1").unwrap()
    );
}

#[test]
fn info_failures() {
    for line in [
        "info depth",
        "info seldepth 3",
        "info depth 3 seldepth",
        "info time",
        "info currmove",
        "info score",
        "info score cp",
        "info score centipawns 3",
        "info score mate + lowerbound",
        "info nodes 3 speed 4",
        "info lowerbound",
    ] {
        assert!(
            matches!(EngineCommand::parse(line), Err(Error::IllegalSyntax)),
            "{}",
            line
        );
    }
    for line in [
        "info depth three",
        "info depth 3 seldepth four",
        "info time -1",
        "info time 18446744073709551616",
        "info nodes 99999999999",
        "info score cp +",
        "info score mate x",
        "info multipv 1.0",
        "info nps ",
    ] {
        let expected_syntax = line == "info nps ";
        let r = EngineCommand::parse(line);
        if expected_syntax {
            assert!(matches!(r, Err(Error::IllegalSyntax)), "{}", line);
        } else {
            assert!(matches!(r, Err(Error::IllegalNumberFormat(_))), "{}", line);
        }
    }
    assert!(matches!(
        EngineCommand::parse("info depth x speed 3"),
        Err(Error::IllegalNumberFormat(_))
    ));
    assert!(matches!(
        EngineCommand::parse("info speed 3 depth x"),
        Err(Error::IllegalSyntax)
    ));
}

#[test]
fn numbers_are_read_not_handed_back() {
    assert_eq!(
        EngineCommand::Info(vec![InfoParams::Depth(7, None)]),
        EngineCommand::parse("info depth 007").unwrap()
    );
    assert_eq!(
        EngineCommand::Info(vec![InfoParams::Nodes(0)]),
        EngineCommand::parse("info nodes -0").unwrap()
    );
    assert_eq!(
        EngineCommand::Info(vec![InfoParams::Time(Duration::from_millis(15))]),
        EngineCommand::parse("info time +015").unwrap()
    );
}

#[test]
fn error_messages() {
    assert_eq!("illegal USI command syntax", Error::IllegalSyntax.message());
    assert_eq!(
        "the engine already started listening",
        Error::IllegalOperation.message()
    );
    assert_eq!(
        "An error occurred inside the external handler",
        Error::HandlerError("boom".to_string()).message()
    );
    let e = EngineCommand::parse("info depth x").unwrap_err();
    assert_eq!("illegal USI command syntax", e.message());
    let e = Error::EngineIo(std::io::Error::from(std::io::ErrorKind::BrokenPipe));
    assert_eq!(
        "IO error occurred when communicating with the engine",
        e.message()
    );
}
