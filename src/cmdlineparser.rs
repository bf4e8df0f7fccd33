//! What the command line asks for, once parsed.

use crate::urconfig::{UCommands, URConfig};
use vstd::prelude::*;

verus! {

/// The subcommands of the command line.
#[derive(Debug, Clone, Copy, PartialEq, Eq, Structural)]
pub enum Commands {
    Parse,
    Dry,
    Run,
}

/// The highest debug level; more `-d` flags than that count as this many.
pub const MAX_DEBUG_LEVEL: u8 = 4;

/// The command that a subcommand asks for; `Run` where none is given.
pub open spec fn command_of(c: Option<Commands>) -> UCommands {
    match c {
        Some(Commands::Parse) => UCommands::Parse,
        Some(Commands::Dry) => UCommands::Dry,
        _ => UCommands::Run,
    }
}

/// The settings that a parsed command line gives: the configuration file,
/// the number of `-d` flags capped at the highest debug level, and the
/// subcommand; no service configuration yet.
pub fn settings_from_args(configfile: String, debug: u8, command: Option<Commands>) -> (r: URConfig)
    ensures
        r.configfile == configfile,
        r.debug_level == (if debug <= MAX_DEBUG_LEVEL {
            debug
        } else {
            MAX_DEBUG_LEVEL
        }),
        r.command == command_of(command),
        r.serviceconf is None,
{
    let debug_level: u8 = if debug <= MAX_DEBUG_LEVEL {
        debug
    } else {
        MAX_DEBUG_LEVEL
    };
    let command = match command {
        Some(Commands::Parse) => UCommands::Parse,
        Some(Commands::Dry) => UCommands::Dry,
        _ => UCommands::Run,
    };
    URConfig { configfile, debug_level, command, serviceconf: None }
}

} // verus!
