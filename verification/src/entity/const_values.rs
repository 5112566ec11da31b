//! Names and separators that the host grammar and the runner agree on.
use vstd::prelude::*;

verus! {

/// Environment variable that carries a host's password.
pub const CSUP_PASSWD_ENV: &'static str = "SUP_PASSWORD";

/// Environment variable that asks for `sudo`.
pub const CSUP_DO_SUDO_ENV: &'static str = "SUP_SUDO";

/// Stands between the host part of a host line and its password.
pub const PASS_SEPARATOR: &'static str = " | ";

/// Stands before the tube name of a host line.
pub const TUBE_NAME_SEPARATOR: &'static str = " > ";

/// Name of the script that is run on a host.
pub const MAIN_SCRIPT: &'static str = "_ssup_run";

/// Name of the file that holds the exported variables.
pub const VARS_FILE: &'static str = "_ssup_env";

/// Name of the file that holds the hashed password.
pub const HASHED_PASS: &'static str = "_ssup_pass";

/// Name of the file that holds the injected commands.
pub const INJECTED_COMMANDS_FILE: &'static str = "_ssup_commands";

/// Working directory on a host, relative to the home directory.
pub const SSUP_WORK_FOLDER: &'static str = ".local/ssup/run/";

/// Version of the manifest format.
pub const VERSION: &'static str = "0.5";

/// Marks a line that names a script to be read in.
pub const SOURCE_DIRECTIVE: &'static str = "#source://";

} // verus!
