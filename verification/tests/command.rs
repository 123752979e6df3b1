use brainfuck::command::Command;

#[test]
fn parse_bytes_to_known_commands() {
    let command_bytes = b"><+-.,[]";

    let expected = vec![
        Command::StepForward,
        Command::StepBackward,
        Command::Increment,
        Command::Decrement,
        Command::PrintOutput,
        Command::ReadInput,
        Command::BeginLoop,
        Command::EndLoop,
    ];
    let actual: Vec<Command> = command_bytes
        .iter()
        .flat_map(|&b| Command::try_from(b).ok())
        .collect();

    assert_eq!(actual, expected);
}

#[test]
fn ignore_non_command_bytes() {
    let command_bytes = b"><+-.,[]";

    for byte in 0..=255 {
        if command_bytes.contains(&byte) {
            continue;
        }

        assert!(
            Command::try_from(byte).is_err(),
            "non command byte {} ({}) was not ignored",
            byte as char,
            byte,
        );
    }
}

#[test]
fn unknown_byte_is_reported_as_unknown_command() {
    assert_eq!(Command::try_from(b'a'), Err("Unknown command"));
    assert_eq!(Command::try_from(b' '), Err("Unknown command"));
    assert_eq!(Command::try_from(0), Err("Unknown command"));
    assert_eq!(Command::try_from(255), Err("Unknown command"));
}

#[test]
fn each_command_byte_gives_its_own_command() {
    assert_eq!(Command::try_from(b'>'), Ok(Command::StepForward));
    assert_eq!(Command::try_from(b'<'), Ok(Command::StepBackward));
    assert_eq!(Command::try_from(b'+'), Ok(Command::Increment));
    assert_eq!(Command::try_from(b'-'), Ok(Command::Decrement));
    assert_eq!(Command::try_from(b'.'), Ok(Command::PrintOutput));
    assert_eq!(Command::try_from(b','), Ok(Command::ReadInput));
    assert_eq!(Command::try_from(b'['), Ok(Command::BeginLoop));
    assert_eq!(Command::try_from(b']'), Ok(Command::EndLoop));
}

#[test]
fn neighbours_of_command_bytes_are_no_commands() {
    for byte in [b'=', b'?', b'*', b'/', b';', b':', b'Z', b'\\', b'^', b'(', b')', b'{', b'}'] {
        assert!(Command::try_from(byte).is_err());
    }
}

#[test]
fn try_into_classifies_like_try_from() {
    let command: Result<Command, _> = b'+'.try_into();
    assert_eq!(command, Ok(Command::Increment));
    let command: Result<Command, &'static str> = b'x'.try_into();
    assert_eq!(command, Err("Unknown command"));
}
