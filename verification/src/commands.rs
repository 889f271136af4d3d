//! The `ufpm` commands.
//!
//! This layer wires the parsed CLI arguments to the domain modules (`foundry`,
//! `api`, `index`, …) and owns what the user is told. What it says comes out
//! as lines and [`Message`]s; printing them is left to the caller.

pub mod cache;
pub mod doctor;
pub mod export;
pub mod import;
pub mod package;

use vstd::prelude::*;
use crate::cli::{CacheAction, Command, Shell};
use crate::foundry::PackageType;
use crate::ui::{Reporter, Verbosity};

verus! {

/// The exit code of a command.
#[derive(Clone, Copy, Debug, Eq, PartialEq, Structural)]
pub enum ExitCode {
    /// The command did what it was asked to.
    Success,
    /// It did not, or not all of it.
    Failure,
}

/// Something to tell the user on stderr.
#[derive(Clone, Debug)]
pub enum Message {
    /// A status line.
    Status(String),
    /// A warning.
    Warning(String),
    /// A description of the current step.
    Detail(String),
}

/// Something to tell the user, as text.
pub enum MessageView {
    /// A status line.
    Status(Seq<char>),
    /// A warning.
    Warning(Seq<char>),
    /// A description of the current step.
    Detail(Seq<char>),
}

impl View for Message {
    type V = MessageView;

    open spec fn view(&self) -> MessageView {
        match self {
            Message::Status(text) => MessageView::Status(text@),
            Message::Warning(text) => MessageView::Warning(text@),
            Message::Detail(text) => MessageView::Detail(text@),
        }
    }
}

/// The views of a list of messages.
pub open spec fn message_views(messages: Seq<Message>) -> Seq<MessageView> {
    messages.map_values(|message: Message| message@)
}

impl MessageView {
    /// The line a message comes to at a verbosity, if it is shown.
    pub open spec fn shown_at(self, level: Verbosity) -> Option<Seq<char>> {
        match self {
            MessageView::Status(text) => if level.rank() >= Verbosity::Normal.rank() {
                Some(text)
            } else {
                None
            },
            MessageView::Warning(text) => if level.rank() >= Verbosity::Normal.rank() {
                Some("warning: "@ + text)
            } else {
                None
            },
            MessageView::Detail(text) => if level.rank() >= Verbosity::Verbose.rank() {
                Some(text)
            } else {
                None
            },
        }
    }
}

impl Message {
    /// The line this message comes to, if it is shown.
    #[must_use]
    pub fn line(&self, reporter: &Reporter) -> (line: Option<String>)
        ensures
            match line {
                Some(text) => self@.shown_at(reporter.level()) == Some(text@),
                None => self@.shown_at(reporter.level()) is None,
            },
    {
        match self {
            Message::Status(text) => reporter.status(text.as_str()),
            Message::Warning(text) => reporter.warn(text.as_str()),
            Message::Detail(text) => reporter.detail(text.as_str()),
        }
    }
}

/// What a command line asks for.
#[derive(Debug)]
pub enum Operation {
    /// Print the diagnostic report.
    Doctor,
    /// Manage the cached package index.
    Cache(CacheAction),
    /// Query or manage packages of one type.
    Package(PackageType, package::Operation),
    /// Write a manifest file, for one world if it is given.
    Export {
        /// The world.
        world: Option<String>,
        /// The manifest file.
        output: String,
    },
    /// Install what a manifest file lists.
    Import {
        /// The manifest file.
        path: String,
    },
    /// Print a shell completion script.
    Completions(Shell),
}

/// Dispatches the parsed command line to the matching operation.
#[must_use]
pub fn run(command: Command) -> (operation: Operation)
    ensures
        match command {
            Command::Doctor => operation is Doctor,
            Command::Cache { action } => operation == Operation::Cache(action),
            Command::Module { action } => operation matches Operation::Package(kind, asked) && kind
                == PackageType::Module && package::asks_for(asked, action),
            Command::System { action } => operation matches Operation::Package(kind, asked) && kind
                == PackageType::System && package::asks_for(asked, action),
            Command::Export { world, output } => operation matches Operation::Export {
                world: scope,
                output: path,
            } && scope == world && path@ == (match output {
                Some(given) => given@,
                None => "ufpm.toml"@,
            }),
            Command::Import { path } => operation matches Operation::Import { path: file } && file@
                == (match path {
                Some(given) => given@,
                None => "ufpm.toml"@,
            }),
            Command::Completions { shell } => operation == Operation::Completions(shell),
        },
{
    match command {
        Command::Doctor => Operation::Doctor,
        Command::Cache { action } => Operation::Cache(action),
        Command::Module { action } => Operation::Package(PackageType::Module, package::run(action)),
        Command::System { action } => Operation::Package(PackageType::System, package::run(action)),
        Command::Export { world, output } => Operation::Export {
            world,
            output: match output {
                Some(given) => given,
                None => "ufpm.toml".to_owned(),
            },
        },
        Command::Import { path } => Operation::Import {
            path: match path {
                Some(given) => given,
                None => "ufpm.toml".to_owned(),
            },
        },
        Command::Completions { shell } => Operation::Completions(shell),
    }
}

/// Warnings and status lines are shown unless the output is quiet, step
/// descriptions only when it is verbose; and what is shown at one level is shown
/// at every higher one.
pub proof fn messages_are_shown_by_level(message: MessageView, level: Verbosity, higher: Verbosity)
    ensures
        message is Status || message is Warning ==> (message.shown_at(level) is Some <==> level
            !is Quiet),
        message is Detail ==> (message.shown_at(level) is Some <==> level !is Quiet && level
            !is Normal),
        level.rank() <= higher.rank() && message.shown_at(level) is Some ==> message.shown_at(higher)
            == message.shown_at(level),
        message.shown_at(level) matches Some(line) ==> match message {
            MessageView::Status(text) => line == text,
            MessageView::Detail(text) => line == text,
            MessageView::Warning(text) => line == "warning: "@ + text,
        },
{
}

} // verus!
