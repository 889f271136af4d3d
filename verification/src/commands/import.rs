//! `ufpm import`: install packages from a manifest file.

use vstd::prelude::*;
use crate::commands;
use crate::commands::{ExitCode, Message, MessageView};
use crate::manifest::ExportManifest;
use crate::text;

verus! {

/// The question asked before anything is installed.
pub const PROMPT: &'static str = "install listed packages?";

/// What the user is told when nothing is to be installed.
pub const ABORTED: &'static str = "aborted; nothing was installed";

/// The line about the contents of a manifest.
pub open spec fn contents_line(manifest: ExportManifest) -> Seq<char> {
    "manifest: "@ + text::decimal(manifest.systems@.len()) + " system(s), "@ + text::decimal(
        manifest.modules@.len(),
    ) + " module(s)"@
}

/// Tells what is about to be installed.
#[must_use]
pub fn announce(manifest: &ExportManifest) -> (messages: Vec<Message>)
    ensures
        commands::message_views(messages@) == match manifest.world {
            Some(world) => seq![
                MessageView::Status("importing packages for world '"@ + world@ + "'"@),
                MessageView::Status(contents_line(*manifest)),
            ],
            None => seq![MessageView::Status(contents_line(*manifest))],
        },
{
    let mut messages: Vec<Message> = Vec::new();
    if let Some(world) = &manifest.world {
        let mut line = "importing packages for world '".to_owned();
        line.append(world.as_str());
        line.append("'");
        messages.push(Message::Status(line));
    }
    let mut line = "manifest: ".to_owned();
    let systems = text::count_text(manifest.systems.len());
    line.append(systems.as_str());
    line.append(" system(s), ");
    let modules = text::count_text(manifest.modules.len());
    line.append(modules.as_str());
    line.append(" module(s)");
    messages.push(Message::Status(line));
    assert(commands::message_views(messages@) =~= match manifest.world {
        Some(world) => seq![
            MessageView::Status("importing packages for world '"@ + world@ + "'"@),
            MessageView::Status(contents_line(*manifest)),
        ],
        None => seq![MessageView::Status(contents_line(*manifest))],
    });
    messages
}

/// The exit code of an import: a success when both the systems and the modules
/// were installed.
#[must_use]
pub fn conclude(systems: ExitCode, modules: ExitCode) -> (code: ExitCode)
    ensures
        code == ExitCode::Success <==> systems == ExitCode::Success && modules == ExitCode::Success,
{
    match (systems, modules) {
        (ExitCode::Success, ExitCode::Success) => ExitCode::Success,
        _ => ExitCode::Failure,
    }
}

} // verus!
