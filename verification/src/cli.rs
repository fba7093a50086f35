use vstd::prelude::*;

verus! {

/// The command line of the PPC tool: a command, or one of the flags that ask
/// for the version or for help.  (Parsing the process arguments into it is
/// done by the program around the library.)
#[derive(Debug)]
pub struct Cli {
    /// Command
    pub command: Option<Commands>,
    /// Display version information (supports -v, -version, --version)
    pub version_flag: bool,
    /// Display help information (supports -h, --help)
    pub help_flag: bool,
}

/// Available commands.
#[derive(Debug)]
pub enum Commands {
    /// Display version information
    Version,
    /// Display help information
    Help,
    /// Display system information (calls sysinfo DLL)
    Sysinfo,
    /// Display framework status
    Status,
    /// Manage command mappings
    Command(CommandCommands),
    /// Load DLL
    Load {
        /// DLL name
        name: String,
        /// DLL path
        path: String,
    },
    /// Unload DLL
    Unload {
        /// DLL name
        name: String,
    },
    /// List loaded DLLs
    List,
}

/// Command management subcommands.
#[derive(Debug)]
pub enum CommandCommands {
    /// Add command mapping
    Add {
        /// Command name
        command: String,
        /// Action name
        action: String,
        /// Description
        description: String,
    },
    /// Remove command mapping
    Remove {
        /// Command name
        command: String,
    },
    /// List all command mappings
    List,
    /// Get command details
    Get {
        /// Command name
        command: String,
    },
}

impl Cli {
    /// The name of the command that the command line asks for.  The version
    /// flag wins over the help flag, and both win over a command.
    pub open spec fn command_name(&self) -> Option<Seq<char>> {
        if self.version_flag {
            Some("version"@)
        } else if self.help_flag {
            Some("help"@)
        } else {
            match self.command {
                Some(Commands::Version) => Some("version"@),
                Some(Commands::Help) => Some("help"@),
                Some(Commands::Sysinfo) => Some("sysinfo"@),
                Some(Commands::Status) => Some("status"@),
                Some(Commands::Command(_)) => Some("command"@),
                Some(Commands::Load { .. }) => Some("load"@),
                Some(Commands::Unload { .. }) => Some("unload"@),
                Some(Commands::List) => Some("list"@),
                None => None,
            }
        }
    }

    /// Get the name of the command to execute.
    pub fn get_command_name(&self) -> (r: Option<String>)
        ensures
            r matches Some(s) ==> self.command_name() == Some(s@),
            r is None <==> self.command_name() is None,
    {
        if self.version_flag {
            return Some(String::from_str("version"));
        }
        if self.help_flag {
            return Some(String::from_str("help"));
        }
        match &self.command {
            Some(Commands::Version) => Some(String::from_str("version")),
            Some(Commands::Help) => Some(String::from_str("help")),
            Some(Commands::Sysinfo) => Some(String::from_str("sysinfo")),
            Some(Commands::Status) => Some(String::from_str("status")),
            Some(Commands::Command(_)) => Some(String::from_str("command")),
            Some(Commands::Load { .. }) => Some(String::from_str("load")),
            Some(Commands::Unload { .. }) => Some(String::from_str("unload")),
            Some(Commands::List) => Some(String::from_str("list")),
            None => None,
        }
    }
}

} // verus!
