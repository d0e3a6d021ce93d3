use std::time::Duration;
use usi::{GameOverKind, GuiCommand, MateParam, ThinkParams};

#[test]
fn to_string() {
    let cases = [
        ("gameover win", GuiCommand::GameOver(GameOverKind::Win)),
        ("gameover draw", GuiCommand::GameOver(GameOverKind::Draw)),
        ("gameover lose", GuiCommand::GameOver(GameOverKind::Lose)),
        (
            "go btime 60000 wtime 50000 byoyomi 10000",
            GuiCommand::Go(
                ThinkParams::new()
                    .btime(Duration::from_secs(60))
                    .wtime(Duration::from_secs(50))
                    .byoyomi(Duration::from_secs(10)),
            ),
        ),
        (
            "go btime 40000 wtime 50000 binc 10000 winc 10000",
            GuiCommand::Go(
                ThinkParams::new()
                    .btime(Duration::from_secs(40))
                    .wtime(Duration::from_secs(50))
                    .binc(Duration::from_secs(10))
                    .winc(Duration::from_secs(10)),
            ),
        ),
        ("go infinite", GuiCommand::Go(ThinkParams::new().infinite())),
        (
            "go mate 60000",
            GuiCommand::Go(ThinkParams::new().mate(MateParam::Timeout(Duration::from_secs(60)))),
        ),
        (
            "go mate infinite",
            GuiCommand::Go(ThinkParams::new().mate(MateParam::Infinite)),
        ),
        ("go ponder", GuiCommand::Go(ThinkParams::new().ponder())),
        ("isready", GuiCommand::IsReady),
        ("ponderhit", GuiCommand::Ponderhit),
        (
            "position sfen lnsgkgsn1/1r5b1/ppppppppp/9/9/9/PPPPPPPPP/1B5R1/LNSGKGSNL w - 1",
            GuiCommand::Position(
                "lnsgkgsn1/1r5b1/ppppppppp/9/9/9/PPPPPPPPP/1B5R1/LNSGKGSNL \
                 w - 1"
                    .to_string(),
            ),
        ),
        (
            "setoption name foo",
            GuiCommand::SetOption("foo".to_string(), None),
        ),
        (
            "setoption name foo value bar",
            GuiCommand::SetOption("foo".to_string(), Some("bar".to_string())),
        ),
        ("stop", GuiCommand::Stop),
        ("usi", GuiCommand::Usi),
        ("usinewgame", GuiCommand::UsiNewGame),
        ("quit", GuiCommand::Quit),
    ];

    for c in &cases {
        assert_eq!(c.0, c.1.to_string());
    }
}

#[test]
fn go_with_remaining_time_of_both_sides() {
    let params = ThinkParams::new()
        .btime(Duration::from_secs(1))
        .wtime(Duration::from_secs(2));
    assert_eq!("go btime 1000 wtime 2000", GuiCommand::Go(params).to_string());
}

#[test]
fn go_cuts_off_below_the_millisecond() {
    let params = ThinkParams::new().byoyomi(Duration::new(3, 999_999_999));
    assert_eq!("go byoyomi 3999", GuiCommand::Go(params).to_string());
    let params = ThinkParams::new().byoyomi(Duration::new(0, 999_999));
    assert_eq!("go byoyomi 0", GuiCommand::Go(params).to_string());
}

#[test]
fn go_takes_the_longest_duration() {
    let params = ThinkParams::new().btime(Duration::new(u64::MAX, 999_999_999));
    assert_eq!(
        "go btime 18446744073709551615999",
        GuiCommand::Go(params).to_string()
    );
}

#[test]
fn go_writes_fields_in_fixed_order() {
    let forward = ThinkParams::new()
        .ponder()
        .btime(Duration::from_millis(1))
        .wtime(Duration::from_millis(2))
        .byoyomi(Duration::from_millis(3))
        .binc(Duration::from_millis(4))
        .winc(Duration::from_millis(5))
        .infinite()
        .mate(MateParam::Infinite);
    let backward = ThinkParams::new()
        .mate(MateParam::Infinite)
        .infinite()
        .winc(Duration::from_millis(5))
        .binc(Duration::from_millis(4))
        .byoyomi(Duration::from_millis(3))
        .wtime(Duration::from_millis(2))
        .btime(Duration::from_millis(1))
        .ponder();
    let expected = "go ponder btime 1 wtime 2 byoyomi 3 binc 4 winc 5 infinite mate infinite";
    assert_eq!(expected, GuiCommand::Go(forward.clone()).to_string());
    assert_eq!(expected, GuiCommand::Go(backward.clone()).to_string());
    assert_eq!(forward, backward);
    let tokens: Vec<&str> = expected.split_whitespace().collect();
    assert_eq!(
        vec![
            "go", "ponder", "btime", "1", "wtime", "2", "byoyomi", "3", "binc", "4", "winc", "5",
            "infinite", "mate", "infinite"
        ],
        tokens
    );
}
