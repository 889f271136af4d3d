//! The command line, as data.
//!
//! The CLI follows the `ufpm <domain> <action> [args]` shape (for example
//! `ufpm cache update` or `ufpm module add <name>`).
//!
//! Output conventions: command *data* is printed on stdout, all status output
//! (progress, warnings, prompts) goes to stderr so command output pipes
//! cleanly.

use vstd::prelude::*;

verus! {

/// A parsed command line.
#[derive(Clone, Debug)]
pub struct Args {
    /// Flags shared by every subcommand.
    pub global: GlobalArgs,
    /// The command to execute.
    pub command: Command,
}

/// Flags accepted by every `ufpm` subcommand.
#[derive(Clone, Debug)]
pub struct GlobalArgs {
    /// Path to the `FoundryVTT` root (the directory containing `Config/` and `Data/`).
    pub data_path: Option<String>,
    /// Assume "yes" for every confirmation prompt.
    pub yes: bool,
    /// Disable progress bars and spinners; print plain status lines instead.
    pub no_progress: bool,
    /// Increase verbosity (-v: steps, -vv: decisions, -vvv: HTTP traces).
    pub verbose: u8,
    /// Suppress all status output; only errors are printed.
    pub quiet: bool,
}

/// Top-level `ufpm` commands.
#[derive(Clone, Debug)]
pub enum Command {
    /// Manage the cached package index.
    Cache {
        /// The cache operation to perform.
        action: CacheAction,
    },
    /// Manage `FoundryVTT` modules.
    Module {
        /// The module operation to perform.
        action: PackageAction,
    },
    /// Manage `FoundryVTT` systems.
    System {
        /// The system operation to perform.
        action: PackageAction,
    },
    /// Diagnose the local setup: resolved paths, license and cache state.
    Doctor,
    /// Snapshot the installed packages to a manifest file.
    Export {
        /// Only export the packages enabled for this world.
        world: Option<String>,
        /// The manifest file to write.
        output: Option<String>,
    },
    /// Install packages from a manifest file.
    Import {
        /// The manifest file to read.
        path: Option<String>,
    },
    /// Generate a shell completion script on stdout.
    Completions {
        /// The shell to generate completions for.
        shell: Shell,
    },
}

/// The shells completion scripts can be generated for.
#[derive(Clone, Copy, Debug, Eq, PartialEq, Structural)]
pub enum Shell {
    /// Bourne Again shell.
    Bash,
    /// Elvish shell.
    Elvish,
    /// Friendly interactive shell.
    Fish,
    /// `PowerShell`.
    PowerShell,
    /// Z shell.
    Zsh,
}

/// Operations on the cached package index.
#[derive(Clone, Copy, Debug, Eq, PartialEq, Structural)]
pub enum CacheAction {
    /// Force-refresh the package indexes now.
    Update,
    /// Show the cache location, age and package counts.
    Info,
    /// Delete the cached indexes and any partial downloads.
    Clear,
}

/// Operations shared by `ufpm module` and `ufpm system`.
#[derive(Clone, Debug)]
pub enum PackageAction {
    /// List packages from the index.
    List {
        /// Only show installed packages.
        installed: bool,
        /// Only show protected packages owned by this license.
        owned: bool,
        /// Print at most this many rows.
        limit: Option<usize>,
    },
    /// Search packages by name, title or author.
    Search {
        /// Case-insensitive substring to search for.
        query: String,
        /// Only show installed packages.
        installed: bool,
        /// Only show protected packages owned by this license.
        owned: bool,
    },
    /// Show details for a single package.
    Info {
        /// The package slug (for example `dice-so-nice`).
        name: String,
    },
    /// Add one or more packages.
    Add {
        /// The package slugs to add.
        names: Vec<String>,
    },
    /// List installed packages that have updates available.
    Outdated {
        /// Exit with a non-zero status when updates are available.
        check: bool,
    },
    /// Update installed packages to their latest versions.
    Update {
        /// The package slugs to update; updates everything outdated when omitted.
        names: Vec<String>,
    },
    /// Remove one or more installed packages.
    Remove {
        /// The package slugs to remove.
        names: Vec<String>,
    },
    /// List installed packages that no world uses.
    Unused {
        /// Delete the unused packages after confirmation.
        prune: bool,
    },
}

} // verus!
