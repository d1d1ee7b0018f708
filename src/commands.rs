//! The command and its option, read from the program's arguments.
use vstd::prelude::*;
use crate::text::same_text;

verus! {

/// What the program is asked to do.
#[derive(Debug, Clone, Copy, PartialEq, Eq, Structural)]
pub enum Commands {
    Encrypt,
    Decrypt,
    GitClean,
}

/// Why the arguments name no command.
#[derive(Debug, Clone, Copy, PartialEq, Eq, Structural)]
pub enum ArgumentError {
    /// No command was given.
    MissingCommand,
    /// The command is none of `encrypt`, `decrypt`, `gitclean`.
    InvalidCommand,
}

/// The command and its option (the target path, empty when none was given).
#[derive(Debug)]
pub struct CommandsConfig {
    pub command: Commands,
    pub option: String,
}

/// The command a word names.
pub open spec fn command_named(s: Seq<char>) -> Option<Commands> {
    if s == seq!['e', 'n', 'c', 'r', 'y', 'p', 't'] {
        Some(Commands::Encrypt)
    } else if s == seq!['d', 'e', 'c', 'r', 'y', 'p', 't'] {
        Some(Commands::Decrypt)
    } else if s == seq!['g', 'i', 't', 'c', 'l', 'e', 'a', 'n'] {
        Some(Commands::GitClean)
    } else {
        None
    }
}

/// Index of the command among the program's arguments.
pub const COMMAND_IDX: usize = 1;

/// Index of the command's option among the program's arguments.
pub const COMMAND_OPTIONS: usize = 2;

impl CommandsConfig {
    /// Reads the command from `args[1]` and its option from `args[2]`.
    pub fn new(args: &[String]) -> (r: Result<CommandsConfig, ArgumentError>)
        ensures
            args@.len() <= COMMAND_IDX ==> r == Err::<CommandsConfig, _>(
                ArgumentError::MissingCommand,
            ),
            args@.len() > COMMAND_IDX && command_named(args@[1]@) is None ==> r == Err::<
                CommandsConfig,
                _,
            >(ArgumentError::InvalidCommand),
            args@.len() > COMMAND_IDX && command_named(args@[1]@) is Some ==> {
                &&& r is Ok
                &&& r->Ok_0.command == command_named(args@[1]@)->Some_0
                &&& r->Ok_0.option@ == if args@.len() > COMMAND_OPTIONS {
                    args@[2]@
                } else {
                    Seq::empty()
                }
            },
    {
        if args.len() <= COMMAND_IDX {
            return Err(ArgumentError::MissingCommand);
        }
        let command = Self::parse_command(args[COMMAND_IDX].as_str())?;
        let option = if args.len() > COMMAND_OPTIONS {
            args[COMMAND_OPTIONS].clone()
        } else {
            String::new()
        };
        Ok(CommandsConfig { command, option })
    }

    /// The command a word names.
    pub fn parse_command(command: &str) -> (r: Result<Commands, ArgumentError>)
        ensures
            command_named(command@) is Some ==> r == Ok::<Commands, ArgumentError>(
                command_named(command@)->Some_0,
            ),
            command_named(command@) is None ==> r == Err::<Commands, ArgumentError>(
                ArgumentError::InvalidCommand,
            ),
    {
        proof {
            reveal_strlit("encrypt");
            reveal_strlit("decrypt");
            reveal_strlit("gitclean");
        }
        assert("encrypt"@ =~= seq!['e', 'n', 'c', 'r', 'y', 'p', 't']);
        assert("decrypt"@ =~= seq!['d', 'e', 'c', 'r', 'y', 'p', 't']);
        assert("gitclean"@ =~= seq!['g', 'i', 't', 'c', 'l', 'e', 'a', 'n']);
        if same_text(command, "encrypt") {
            Ok(Commands::Encrypt)
        } else if same_text(command, "decrypt") {
            Ok(Commands::Decrypt)
        } else if same_text(command, "gitclean") {
            Ok(Commands::GitClean)
        } else {
            Err(ArgumentError::InvalidCommand)
        }
    }
}

impl std::str::FromStr for Commands {
    type Err = ArgumentError;

    fn from_str(s: &str) -> (r: Result<Commands, ArgumentError>)
        ensures
            command_named(s@) is Some ==> r == Ok::<Commands, ArgumentError>(
                command_named(s@)->Some_0,
            ),
            command_named(s@) is None ==> r == Err::<Commands, ArgumentError>(
                ArgumentError::InvalidCommand,
            ),
    {
        CommandsConfig::parse_command(s)
    }
}

} // verus!
