use usi::{GuiCommand, GuiCommandWriter};

#[test]
fn writer_it_works() {
    let buf: Vec<u8> = Vec::new();
    let mut writer = GuiCommandWriter::new(buf);
    writer
        .send(&GuiCommand::Usi)
        .expect("failed to write to the buffer");
    writer
        .send(&GuiCommand::IsReady)
        .expect("failed to write to the buffer");
    writer
        .send(&GuiCommand::SetOption(
            "key".to_string(),
            Some("val".to_string()),
        ))
        .expect("failed to write to the buffer");
    assert_eq!(
        "usi\nisready\nsetoption name key value val\n",
        std::str::from_utf8(writer.get_ref()).unwrap()
    );
}

#[test]
fn setoption_with_a_value() {
    let command = GuiCommand::SetOption("key".to_string(), Some("val".to_string()));
    assert_eq!("setoption name key value val", command.to_string());
}

#[test]
fn writer_goes_on_after_given_bytes() {
    let mut writer = GuiCommandWriter::new(b"stop\n".to_vec());
    writer.send(&GuiCommand::Quit).unwrap();
    assert_eq!(b"stop\nquit\n".to_vec(), *writer.get_ref());
    assert_eq!(b"stop\nquit\n".to_vec(), writer.take());
    assert!(writer.get_ref().is_empty());
    writer.send(&GuiCommand::Position("駒".to_string())).unwrap();
    assert_eq!("position sfen 駒\n".as_bytes(), writer.get_ref().as_slice());
}
