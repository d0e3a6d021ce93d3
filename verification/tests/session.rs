use usi::process::engine::{
    after_handler, await_ready, default_value, discover, discover_step, kill_outcome, listen_step,
    prepare_step,
};
use usi::{
    EngineCommand, EngineCommandReader, EngineInfo, EngineOutput, Error, GuiCommand, Handshake,
    Listening, OptionKind, Session,
};

fn record(line: &str) -> Result<EngineOutput, Error> {
    EngineCommandReader::new(line.as_bytes()).next_command()
}

fn broken_pipe() -> Error {
    Error::EngineIo(std::io::Error::from(std::io::ErrorKind::BrokenPipe))
}

#[test]
fn default_values() {
    assert_eq!("true", default_value(&OptionKind::Check { default: Some(true) }));
    assert_eq!("false", default_value(&OptionKind::Check { default: Some(false) }));
    assert_eq!("", default_value(&OptionKind::Check { default: None }));
    assert_eq!(
        "-2147483648",
        default_value(&OptionKind::Spin {
            default: Some(i32::MIN),
            min: Some(1),
            max: Some(2)
        })
    );
    assert_eq!(
        "0",
        default_value(&OptionKind::Spin {
            default: Some(0),
            min: None,
            max: None
        })
    );
    assert_eq!(
        "2147483647",
        default_value(&OptionKind::Spin {
            default: Some(i32::MAX),
            min: None,
            max: None
        })
    );
    assert_eq!(
        "",
        default_value(&OptionKind::Spin {
            default: None,
            min: Some(1),
            max: Some(2)
        })
    );
    assert_eq!(
        "Normal",
        default_value(&OptionKind::Combo {
            default: Some("Normal".to_string()),
            vars: vec!["Solid".to_string()]
        })
    );
    assert_eq!(
        "",
        default_value(&OptionKind::Combo {
            default: None,
            vars: vec!["Solid".to_string()]
        })
    );
    assert_eq!(
        "x",
        default_value(&OptionKind::Button {
            default: Some("x".to_string())
        })
    );
    assert_eq!(
        "book.bin",
        default_value(&OptionKind::String {
            default: Some("book.bin".to_string())
        })
    );
    assert_eq!(
        "a.txt",
        default_value(&OptionKind::Filename {
            default: Some("a.txt".to_string())
        })
    );
}

#[test]
fn discovery_collects_name_and_options() {
    let lines = "id name First\n\
                 id author Somebody\n\
                 option name UseBook type check default true\n\
                 garbage here\n\
                 option name Depth type spin default 3 min 1 max 9\n\
                 option name Reset type button\n\
                 id name Second Engine\n\
                 option name UseBook type check default false\n\
                 info depth 1\n\
                 usiok\n\
                 id name Too Late\n";
    let mut reader = EngineCommandReader::new(lines.as_bytes());
    let mut info = EngineInfo::new();
    let mut steps = 0;
    loop {
        steps += 1;
        match discover_step(&mut info, reader.next_command()).unwrap() {
            Handshake::Complete => break,
            Handshake::Pending => {}
        }
    }
    assert_eq!(10, steps);
    assert_eq!("Second Engine", info.name());
    let expected = vec![
        ("UseBook".to_string(), "false".to_string()),
        ("Depth".to_string(), "3".to_string()),
        ("Reset".to_string(), "".to_string()),
    ];
    assert_eq!(expected, *info.options());
    assert_eq!(Some(&"false".to_string()), info.option("UseBook"));
    assert_eq!(Some(&"".to_string()), info.option("Reset"));
    assert_eq!(None, info.option("usebook"));
    let copy = info.clone();
    assert_eq!("Second Engine", copy.name());
    assert_eq!(expected, *copy.options());
}

#[test]
fn discovery_starts_blank() {
    let info = EngineInfo::new();
    assert_eq!("", info.name());
    assert!(info.options().is_empty());
    let info = EngineInfo::default();
    assert_eq!("", info.name());
    assert!(info.options().is_empty());
}

#[test]
fn discovery_stops_on_other_failures() {
    let mut info = EngineInfo::new();
    assert!(matches!(
        discover_step(&mut info, Err(Error::IllegalSyntax)),
        Ok(Handshake::Pending)
    ));
    assert!(matches!(
        discover_step(&mut info, record("option name Depth type spin default x")),
        Ok(Handshake::Pending)
    ));
    assert!(matches!(
        discover_step(&mut info, Err(broken_pipe())),
        Err(Error::EngineIo(_))
    ));
    assert!(matches!(
        discover_step(&mut info, Err(Error::IllegalOperation)),
        Err(Error::IllegalOperation)
    ));
    assert!(matches!(
        discover_step(&mut info, record("")),
        Ok(Handshake::Pending)
    ));
    assert!(matches!(
        discover_step(&mut info, record("readyok\n")),
        Ok(Handshake::Pending)
    ));
    assert_eq!("", info.name());
    assert!(info.options().is_empty());
}

#[test]
fn readiness_waits_for_readyok() {
    assert!(matches!(
        prepare_step(record("readyok\n")),
        Ok(Handshake::Complete)
    ));
    assert!(matches!(
        prepare_step(record("usiok\n")),
        Ok(Handshake::Pending)
    ));
    assert!(matches!(prepare_step(record("")), Ok(Handshake::Pending)));
    assert!(matches!(
        prepare_step(record("what is this\n")),
        Ok(Handshake::Pending)
    ));
    assert!(matches!(
        prepare_step(record("info depth x\n")),
        Ok(Handshake::Pending)
    ));
    assert!(matches!(
        prepare_step(Err(Error::IllegalOperation)),
        Err(Error::IllegalOperation)
    ));
    assert!(matches!(
        prepare_step(Err(broken_pipe())),
        Err(Error::EngineIo(_))
    ));
}

#[test]
fn listener_passes_over_noise() {
    assert!(matches!(
        listen_step(record("not a command\n")),
        Listening::Skip
    ));
    let mut reader = EngineCommandReader::new("noise\nbestmove resign\n".as_bytes());
    let mut delivered = Vec::new();
    for _ in 0..3 {
        match listen_step(reader.next_command()) {
            Listening::Deliver(output) => delivered.push(output),
            Listening::Skip => {}
            Listening::Stop(e) => panic!("{:?}", e),
        }
    }
    assert_eq!(2, delivered.len());
    assert_eq!("bestmove resign\n", delivered[0].raw_str());
    assert_eq!(None, *delivered[1].response());
    assert_eq!("", delivered[1].raw_str());
}

#[test]
fn listener_stops_on_other_failures() {
    assert!(matches!(
        listen_step(Err(broken_pipe())),
        Listening::Stop(Error::EngineIo(_))
    ));
    assert!(matches!(
        listen_step(Err(Error::HandlerError("late".to_string()))),
        Listening::Stop(Error::HandlerError(_))
    ));
    assert!(matches!(
        listen_step(Err(Error::IllegalOperation)),
        Listening::Stop(Error::IllegalOperation)
    ));
    let bytes: [u8; 3] = [0xff, 0xfe, b'\n'];
    assert!(matches!(
        listen_step(EngineCommandReader::new(&bytes).next_command()),
        Listening::Stop(Error::EngineIo(_))
    ));
    match listen_step(record("usiok\n")) {
        Listening::Deliver(output) => {
            assert_eq!(Some(EngineCommand::UsiOk), *output.response())
        }
        _ => unreachable!(),
    }
}

#[test]
fn handler_failure_is_wrapped() {
    assert!(after_handler(Ok(())).is_ok());
    match after_handler(Err("no more".to_string())) {
        Err(Error::HandlerError(description)) => assert_eq!("no more", description),
        _ => unreachable!(),
    }
}

#[test]
fn kill_reports_the_first_failure() {
    assert!(kill_outcome(Ok(()), Ok(())).is_ok());
    assert!(matches!(
        kill_outcome(Err(broken_pipe()), Ok(())),
        Err(Error::EngineIo(_))
    ));
    assert!(matches!(
        kill_outcome(Ok(()), Err(Error::IllegalOperation)),
        Err(Error::IllegalOperation)
    ));
    assert!(matches!(
        kill_outcome(Err(broken_pipe()), Err(Error::IllegalOperation)),
        Err(Error::EngineIo(_))
    ));
}

#[test]
fn handshake_is_refused_after_listen() {
    let mut session = Session::new(EngineCommandReader::new("usiok\nreadyok\n".as_bytes()));
    assert_eq!(GuiCommand::Usi, session.get_info().unwrap());
    assert_eq!(GuiCommand::Usi, session.get_info().unwrap());
    let output = session.reader_mut().unwrap().next_command().unwrap();
    assert_eq!("usiok\n", output.raw_str());
    assert_eq!(GuiCommand::IsReady, session.prepare().unwrap());
    assert_eq!(GuiCommand::Quit, session.kill());

    let mut reader = session.listen().unwrap();
    assert_eq!("readyok\n", reader.next_command().unwrap().raw_str());

    assert!(matches!(session.get_info(), Err(Error::IllegalOperation)));
    assert!(matches!(session.prepare(), Err(Error::IllegalOperation)));
    assert!(matches!(session.reader_mut(), Err(Error::IllegalOperation)));
    assert!(matches!(session.listen(), Err(Error::IllegalOperation)));
    assert!(matches!(session.get_info(), Err(Error::IllegalOperation)));
    assert_eq!(GuiCommand::Quit, session.kill());
}

#[test]
fn discovery_over_the_bytes_at_hand() {
    let mut info = EngineInfo::new();
    let mut reader = EngineCommandReader::new(
        "id name Alpha\n\nnoise\noption name Hash type spin default 16\n".as_bytes(),
    );
    assert_eq!(Handshake::Pending, discover(&mut info, &mut reader).unwrap());
    assert_eq!("Alpha", info.name());
    assert_eq!(Some(&"16".to_string()), info.option("Hash"));
    assert_eq!(Handshake::Pending, discover(&mut info, &mut reader).unwrap());

    let mut reader =
        EngineCommandReader::new("option name Hash type spin default 32\nusiok\nid name Beta\n".as_bytes());
    assert_eq!(Handshake::Complete, discover(&mut info, &mut reader).unwrap());
    assert_eq!("Alpha", info.name());
    assert_eq!(Some(&"32".to_string()), info.option("Hash"));
    assert_eq!("id name Beta\n", reader.next_command().unwrap().raw_str());
}

#[test]
fn discovery_passes_over_a_number_that_cannot_be_read() {
    let mut info = EngineInfo::new();
    let mut reader = EngineCommandReader::new(
        "id name Alpha\noption name Hash type spin default many\nid name Beta\nusiok\n".as_bytes(),
    );
    assert_eq!(Handshake::Complete, discover(&mut info, &mut reader).unwrap());
    assert_eq!("Beta", info.name());
    assert!(info.options().is_empty());

    let bytes: [u8; 8] = [0xc3, 0x28, b'\n', b'u', b's', b'i', b'o', b'k'];
    let mut reader = EngineCommandReader::new(&bytes);
    assert!(matches!(
        discover(&mut info, &mut reader),
        Err(Error::EngineIo(_))
    ));
    assert_eq!(Handshake::Complete, discover(&mut info, &mut reader).unwrap());
}

#[test]
fn readiness_over_the_bytes_at_hand() {
    let mut reader = EngineCommandReader::new("info depth 1\nwhat\n\n".as_bytes());
    assert_eq!(Handshake::Pending, await_ready(&mut reader).unwrap());
    let mut reader = EngineCommandReader::new("usiok\nreadyok\nbestmove resign\n".as_bytes());
    assert_eq!(Handshake::Complete, await_ready(&mut reader).unwrap());
    assert_eq!("bestmove resign\n", reader.next_command().unwrap().raw_str());
    assert_eq!(Handshake::Pending, await_ready(&mut reader).unwrap());
    let mut reader = EngineCommandReader::new("info nodes 1e9\nreadyok\nusiok\n".as_bytes());
    assert_eq!(Handshake::Complete, await_ready(&mut reader).unwrap());
    assert_eq!("usiok\n", reader.next_command().unwrap().raw_str());
    let bytes: [u8; 11] = [0xc3, 0x28, b'\n', b'r', b'e', b'a', b'd', b'y', b'o', b'k', b'\n'];
    let mut reader = EngineCommandReader::new(&bytes);
    assert!(matches!(await_ready(&mut reader), Err(Error::EngineIo(_))));
    assert_eq!(Handshake::Complete, await_ready(&mut reader).unwrap());
}

#[test]
fn listener_passes_over_a_number_that_cannot_be_read() {
    assert!(matches!(
        listen_step(record("info depth x\n")),
        Listening::Skip
    ));
    assert!(matches!(
        listen_step(Err(Error::IllegalSyntax)),
        Listening::Skip
    ));
    let mut reader = EngineCommandReader::new(
        "option name H type spin default abc\nreadyok\n".as_bytes(),
    );
    let mut seen: Vec<EngineOutput> = Vec::new();
    let mut hook = |output: EngineOutput| -> Result<(), String> {
        seen.push(output);
        Ok(())
    };
    for _ in 0..2 {
        match listen_step(reader.next_command()) {
            Listening::Deliver(output) => after_handler(hook(output)).unwrap(),
            Listening::Skip => {}
            Listening::Stop(e) => panic!("{:?}", e),
        }
    }
    assert_eq!(1, seen.len());
    assert_eq!(Some(EngineCommand::ReadyOk), *seen[0].response());
    assert_eq!("readyok\n", seen[0].raw_str());
}
