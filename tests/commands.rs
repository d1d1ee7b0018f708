use encryptor::commands::{ArgumentError, Commands, CommandsConfig};

#[test]
fn test_encrypt_parse() {
    let expected = Commands::Encrypt;
    let actual_option = String::from("encrypt").parse();

    if let Ok(actual) = actual_option {
        assert_eq!(expected, actual);
    }
}

#[test]
fn test_decrypt_parse() {
    let expected = Commands::Decrypt;
    let actual_option = String::from("decrypt").parse();

    if let Ok(actual) = actual_option {
        assert_eq!(expected, actual);
    }
}

#[test]
fn test_gitclean_parse() {
    let expected = Commands::GitClean;
    let actual_option = String::from("gitclean").parse();

    if let Ok(actual) = actual_option {
        assert_eq!(expected, actual);
    }
}

#[test]
fn test_new_success() {
    let option = String::from("/path/to/file");
    let expected = CommandsConfig {
        command: Commands::Encrypt,
        option,
    };

    let actual_input = [
        String::from("/first/arg"),
        String::from("encrypt"),
        String::from("/path/to/file"),
    ];
    let actual_option = CommandsConfig::new(&actual_input);

    match actual_option {
        Ok(actual) => {
            assert_eq!(expected.command, actual.command);
            assert_eq!(expected.option, actual.option);
        }
        Err(_) => assert!(false),
    }
}

#[test]
fn parse_every_command_word() {
    assert_eq!("encrypt".parse::<Commands>(), Ok(Commands::Encrypt));
    assert_eq!("decrypt".parse::<Commands>(), Ok(Commands::Decrypt));
    assert_eq!("gitclean".parse::<Commands>(), Ok(Commands::GitClean));
}

#[test]
fn parse_rejects_other_words() {
    assert_eq!(CommandsConfig::parse_command("Encrypt"), Err(ArgumentError::InvalidCommand));
    assert_eq!(CommandsConfig::parse_command("encrypt "), Err(ArgumentError::InvalidCommand));
    assert_eq!(CommandsConfig::parse_command(""), Err(ArgumentError::InvalidCommand));
    assert_eq!(CommandsConfig::parse_command("git"), Err(ArgumentError::InvalidCommand));
}

#[test]
fn new_without_command_is_missing() {
    let only_program = [String::from("/first/arg")];
    assert_eq!(CommandsConfig::new(&only_program).err(), Some(ArgumentError::MissingCommand));
    let nothing: [String; 0] = [];
    assert_eq!(CommandsConfig::new(&nothing).err(), Some(ArgumentError::MissingCommand));
}

#[test]
fn new_with_unknown_command_is_invalid() {
    let args = [String::from("/first/arg"), String::from("shred"), String::from("/x")];
    assert_eq!(CommandsConfig::new(&args).err(), Some(ArgumentError::InvalidCommand));
}

#[test]
fn new_without_option_leaves_it_empty() {
    let args = [String::from("/first/arg"), String::from("gitclean")];
    let config = CommandsConfig::new(&args).unwrap();
    assert_eq!(config.command, Commands::GitClean);
    assert_eq!(config.option, "");
}
