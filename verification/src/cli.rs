//! The command line of the installation tool.

use crate::path::UnixPath;
use crate::pcrlock::{GcArgs, LockBootLoaderArgs, LockThinStubArgs};
use vstd::prelude::*;

verus! {

/// The default log level.
///
/// 2 corresponds to the level INFO.
pub const DEFAULT_LOG_LEVEL: usize = 2;

/// The arguments of the program.
#[derive(Debug)]
pub struct Cli {
    /// Silence all output.
    pub quiet: bool,
    /// Verbose mode (-v, -vv, etc.).
    pub verbose: u8,
    pub commands: Commands,
}

/// What the program is asked to do.
#[derive(Debug)]
pub enum Commands {
    Install(InstallCommand),
    LockBootLoader(LockBootLoaderCommand),
    LockThinStub(LockThinStubCommand),
    GcPcrlock(GcPcrlockCommand),
    LockSysexts(LockSysextsCommand),
}

#[derive(Debug)]
pub struct InstallCommand {
    /// System for lanzaboote binaries, e.g. defines the EFI fallback path.
    pub system: String,
    /// Systemd path.
    pub systemd: UnixPath,
    /// Systemd-boot loader config.
    pub systemd_boot_loader_config: UnixPath,
    /// Allow installing unsigned artifacts.
    pub allow_unsigned: bool,
    /// sbsign public key.
    pub public_key: Option<UnixPath>,
    /// sbsign private key.
    pub private_key: Option<UnixPath>,
    /// Configuration limit.
    pub configuration_limit: usize,
    /// Initial number of boot counting tries, zero disables boot counting.
    pub bootcounting_initial_tries: u32,
    pub pcrlock_directory: Option<UnixPath>,
    /// Private key for signing PCR 11 predictions.
    pub pcr_private_key: Option<UnixPath>,
    /// Public key for PCR 11 signature verification.
    pub pcr_public_key: Option<UnixPath>,
    /// EFI system partition mountpoint.
    pub esp: UnixPath,
    /// List of generation links.
    pub generations: Vec<UnixPath>,
}

#[derive(Debug)]
pub struct LockThinStubCommand {
    /// Systemd path.
    pub systemd: UnixPath,
    /// EFI system partition mountpoint.
    pub esp: UnixPath,
    /// Output .pcrlock file path.
    pub pcrlock: UnixPath,
    /// Installed thin stub on the ESP.
    pub stub: UnixPath,
}

#[derive(Debug)]
pub struct LockBootLoaderCommand {
    /// Systemd path.
    pub systemd: UnixPath,
    /// EFI system partition mountpoint.
    pub esp: UnixPath,
    /// Output .pcrlock file path.
    pub pcrlock: UnixPath,
}

#[derive(Debug)]
pub struct LockSysextsCommand {
    /// Systemd path.
    pub systemd: UnixPath,
    /// EFI system partition mountpoint.
    pub esp: UnixPath,
    /// Output .pcrlock file path.
    pub pcrlock: UnixPath,
}

#[derive(Debug)]
pub struct GcPcrlockCommand {
    /// Systemd path.
    pub systemd: UnixPath,
    /// Directory holding the .pcrlock variant files.
    pub pcrlock: UnixPath,
    /// PE hash of a variant to keep; may be given multiple times.
    pub keep: Vec<String>,
}

/// What to lock for system extensions.
#[derive(Debug)]
pub struct LockSysextsArgs {
    pub systemd: UnixPath,
    pub esp: UnixPath,
    pub pcrlock: UnixPath,
}

/// The task behind a command.
#[derive(Debug)]
pub enum Task {
    Install(InstallCommand),
    LockBootLoader(LockBootLoaderArgs),
    LockThinStub(LockThinStubArgs),
    LockSysexts(LockSysextsArgs),
    Gc(GcArgs),
}

/// How the program is to run.
#[derive(Debug)]
pub struct Launch {
    pub quiet: bool,
    pub verbosity: usize,
    pub task: Task,
}

impl Commands {
    /// Whether a task is the one behind this command, with the same arguments.
    pub open spec fn stands_for(self, task: Task) -> bool {
        match (self, task) {
            (Commands::Install(command), Task::Install(args)) => args == command,
            (Commands::LockBootLoader(command), Task::LockBootLoader(args)) => args.systemd
                == command.systemd && args.esp == command.esp && args.pcrlock == command.pcrlock,
            (Commands::LockThinStub(command), Task::LockThinStub(args)) => args.systemd
                == command.systemd && args.esp == command.esp && args.pcrlock == command.pcrlock
                && args.stub == command.stub,
            (Commands::LockSysexts(command), Task::LockSysexts(args)) => args.systemd
                == command.systemd && args.esp == command.esp && args.pcrlock == command.pcrlock,
            (Commands::GcPcrlock(command), Task::Gc(args)) => args.systemd == command.systemd
                && args.pcrlock == command.pcrlock && args.keep == command.keep,
            _ => false,
        }
    }

    /// The task behind this command.
    pub fn call(self) -> (task: Task)
        ensures
            self.stands_for(task),
    {
        match self {
            Commands::Install(args) => Task::Install(args),
            Commands::LockBootLoader(args) => Task::LockBootLoader(
                LockBootLoaderArgs {
                    systemd: args.systemd,
                    esp: args.esp,
                    pcrlock: args.pcrlock,
                },
            ),
            Commands::LockThinStub(args) => Task::LockThinStub(
                LockThinStubArgs {
                    systemd: args.systemd,
                    esp: args.esp,
                    pcrlock: args.pcrlock,
                    stub: args.stub,
                },
            ),
            Commands::LockSysexts(args) => Task::LockSysexts(
                LockSysextsArgs { systemd: args.systemd, esp: args.esp, pcrlock: args.pcrlock },
            ),
            Commands::GcPcrlock(args) => Task::Gc(
                GcArgs { systemd: args.systemd, pcrlock: args.pcrlock, keep: args.keep },
            ),
        }
    }
}

impl Cli {
    /// How the program is to run: every `-v` raises the log level by one.
    pub fn call(self) -> (launch: Launch)
        ensures
            launch.quiet == self.quiet,
            launch.verbosity == DEFAULT_LOG_LEVEL + self.verbose,
            self.commands.stands_for(launch.task),
    {
        Launch {
            quiet: self.quiet,
            verbosity: DEFAULT_LOG_LEVEL + self.verbose as usize,
            task: self.commands.call(),
        }
    }
}

/// How installed artifacts are signed.
#[derive(Debug, Clone, Copy, PartialEq, Eq, Structural)]
pub enum Signing {
    /// Not at all.
    Unsigned,
    /// With the given pair of keys.
    KeyPair,
}

/// How artifacts are signed, by whether that may be left out and by which keys
/// exist.
pub open spec fn signing_of(
    allow_unsigned: bool,
    public_key_exists: Option<bool>,
    private_key_exists: Option<bool>,
) -> Signing {
    if allow_unsigned && public_key_exists != Some(true) && private_key_exists != Some(true) {
        Signing::Unsigned
    } else {
        Signing::KeyPair
    }
}

/// How artifacts are signed. It has to be allowed explicitly to leave them
/// unsigned, and it happens only if neither key exists. A key whose existence
/// cannot be found out counts as missing.
pub fn install_signing(
    allow_unsigned: bool,
    public_key_exists: Option<bool>,
    private_key_exists: Option<bool>,
) -> (signing: Signing)
    ensures
        signing == Signing::Unsigned <==> allow_unsigned && public_key_exists != Some(true)
            && private_key_exists != Some(true),
        signing == signing_of(allow_unsigned, public_key_exists, private_key_exists),
{
    let no_public_key = match public_key_exists {
        Some(exists) => !exists,
        None => true,
    };
    let no_private_key = match private_key_exists {
        Some(exists) => !exists,
        None => true,
    };
    if allow_unsigned && no_public_key && no_private_key {
        Signing::Unsigned
    } else {
        Signing::KeyPair
    }
}

} // verus!
