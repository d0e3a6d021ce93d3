use usi::{BestMoveParams, EngineCommand, EngineCommandReader, EngineOutput, Error};

#[test]
fn reader_it_works() {
    let buf = "\nusiok\n\n     readyok\n  bestmove 5e5f\n";

    let mut reader = EngineCommandReader::new(buf.as_bytes());

    let output = reader.next_command().expect("failed to read the output");

    if !matches!(*output.response(), Some(EngineCommand::UsiOk)) {
        unreachable!("unexpected {:?}", output.response());
    }
    assert_eq!("usiok\n", output.raw_str());

    let output = reader.next_command().expect("failed to read the output");
    if !matches!(*output.response(), Some(EngineCommand::ReadyOk)) {
        unreachable!("unexpected {:?}", output.response());
    }
    assert_eq!("     readyok\n", output.raw_str());

    let output = reader.next_command().expect("failed to read the output");
    if !matches!(
        *output.response(),
        Some(EngineCommand::BestMove(BestMoveParams::MakeMove(_, None)))
    ) {
        unreachable!("unexpected {:?}", output.response());
    }
    assert_eq!("  bestmove 5e5f\n", output.raw_str());
}

#[test]
fn reader_keeps_the_move_of_the_last_record() {
    let mut reader = EngineCommandReader::new("\nusiok\n\n    readyok\n  bestmove 5e5f\n".as_bytes());
    reader.next_command().unwrap();
    reader.next_command().unwrap();
    let output = reader.next_command().unwrap();
    assert_eq!(
        Some(EngineCommand::BestMove(BestMoveParams::MakeMove(
            "5e5f".to_string(),
            None
        ))),
        *output.response()
    );
}

#[test]
fn reader_skips_blank_lines() {
    let mut reader = EngineCommandReader::new("\n  \n\t\r\n\u{3000}\u{a0}\nreadyok\n".as_bytes());
    let output = reader.next_command().unwrap();
    assert_eq!(Some(EngineCommand::ReadyOk), *output.response());
    assert_eq!("readyok\n", output.raw_str());
    let output = reader.next_command().unwrap();
    assert_eq!(None, *output.response());
    assert_eq!("", output.raw_str());
}

#[test]
fn reader_end_of_stream_repeats() {
    let mut reader = EngineCommandReader::new("".as_bytes());
    for _ in 0..3 {
        let output = reader.next_command().unwrap();
        assert_eq!(None, *output.response());
        assert_eq!("", output.raw_str());
    }
    let mut reader = EngineCommandReader::new("usiok\n \n".as_bytes());
    assert_eq!(Some(EngineCommand::UsiOk), *reader.next_command().unwrap().response());
    for _ in 0..3 {
        let output = reader.next_command().unwrap();
        assert_eq!(None, *output.response());
        assert_eq!("", output.raw_str());
    }
}

#[test]
fn reader_takes_a_last_line_without_newline() {
    let mut reader = EngineCommandReader::new("usiok\nreadyok".as_bytes());
    assert_eq!("usiok\n", reader.next_command().unwrap().raw_str());
    let output = reader.next_command().unwrap();
    assert_eq!(Some(EngineCommand::ReadyOk), *output.response());
    assert_eq!("readyok", output.raw_str());
}

#[test]
fn reader_goes_on_after_a_failure() {
    let mut reader = EngineCommandReader::new("hello world\ninfo depth x\nusiok\n".as_bytes());
    assert!(matches!(reader.next_command(), Err(Error::IllegalSyntax)));
    assert!(matches!(
        reader.next_command(),
        Err(Error::IllegalNumberFormat(_))
    ));
    assert_eq!(Some(EngineCommand::UsiOk), *reader.next_command().unwrap().response());
}

#[test]
fn reader_reports_bytes_that_are_not_text() {
    let bytes: [u8; 9] = [0xff, 0xfe, b'\n', b'u', b's', b'i', b'o', b'k', b'\n'];
    let mut reader = EngineCommandReader::new(&bytes);
    match reader.next_command() {
        Err(Error::EngineIo(e)) => assert_eq!(std::io::ErrorKind::InvalidData, e.kind()),
        other => panic!("{:?}", other),
    }
    assert_eq!("usiok\n", reader.next_command().unwrap().raw_str());
}

#[test]
fn one_line_read_on_its_own() {
    let output = EngineOutput::from_line("").unwrap().unwrap();
    assert_eq!(None, *output.response());
    assert_eq!("", output.raw_str());

    assert!(EngineOutput::from_line("\n").is_none());
    assert!(EngineOutput::from_line(" \t\u{3000}\r\n").is_none());

    let output = EngineOutput::from_line("  bestmove 5e5f\n").unwrap().unwrap();
    assert_eq!(
        Some(EngineCommand::BestMove(BestMoveParams::MakeMove(
            "5e5f".to_string(),
            None
        ))),
        *output.response()
    );
    assert_eq!("  bestmove 5e5f\n", output.raw_str());

    let output = EngineOutput::from_line("readyok").unwrap().unwrap();
    assert_eq!(Some(EngineCommand::ReadyOk), *output.response());
    assert_eq!("readyok", output.raw_str());

    assert!(matches!(
        EngineOutput::from_line("hello\n"),
        Some(Err(Error::IllegalSyntax))
    ));
    assert!(matches!(
        EngineOutput::from_line("info depth x\n"),
        Some(Err(Error::IllegalNumberFormat(_)))
    ));
}

#[test]
fn reader_stamps_records_in_order() {
    let mut reader = EngineCommandReader::new("usiok\nreadyok\n".as_bytes());
    let first = reader.next_command().unwrap();
    let second = reader.next_command().unwrap();
    assert!(first.timestamp() <= second.timestamp());
}
