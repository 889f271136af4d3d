//! `ufpm cache`: manage the cached package index.

use vstd::prelude::*;
use crate::commands::{Message, MessageView};
use crate::foundry::PackageType;
use crate::index::{self, Cache, Info, Snapshot, Source};
use crate::text;
use crate::ui;

verus! {

/// What the user is told about a refreshed index.
pub open spec fn refresh_text(kind: PackageType, snapshot: Snapshot, source: Source, now: u64) -> MessageView {
    match source {
        Source::StaleFallback { error } => MessageView::Warning(
            "refreshing the "@ + kind.api_text() + " index failed ("@ + error.text()
                + "); keeping "@ + ui::age_text(snapshot.age_at(now)) + " old data"@,
        ),
        _ => MessageView::Status(
            kind.api_text() + " index: "@ + text::decimal(snapshot.packages@.len()) + " packages, "@
                + text::decimal(snapshot.owned@.len()) + " owned"@,
        ),
    }
}

/// Reports the outcome of one index refresh.
///
/// # Errors
///
/// Propagates the refresh failure itself.
pub fn report_refresh(
    kind: PackageType,
    result: Result<(Snapshot, Source), index::Error>,
    now: u64,
) -> (message: Result<Message, index::Error>)
    ensures
        match result {
            Err(error) => message == Err::<Message, index::Error>(error),
            Ok((snapshot, source)) => message matches Ok(told) && told@ == refresh_text(
                kind,
                snapshot,
                source,
                now,
            ),
        },
{
    let (snapshot, source) = match result {
        Ok(served) => served,
        Err(error) => return Err(error),
    };
    match source {
        Source::StaleFallback { error } => {
            let mut line = "refreshing the ".to_owned();
            line.append(kind.api_name());
            line.append(" index failed (");
            let problem = error.message();
            line.append(problem.as_str());
            line.append("); keeping ");
            let age = ui::format_age(snapshot.age(now));
            line.append(age.as_str());
            line.append(" old data");
            Ok(Message::Warning(line))
        },
        _ => {
            let mut line = kind.api_name().to_owned();
            line.append(" index: ");
            let packages = text::count_text(snapshot.packages.len());
            line.append(packages.as_str());
            line.append(" packages, ");
            let owned = text::count_text(snapshot.owned.len());
            line.append(owned.as_str());
            line.append(" owned");
            Ok(Message::Status(line))
        },
    }
}

/// What there is to say about a cached index.
pub open spec fn state_text(info: Option<Info>) -> Seq<char> {
    match info {
        Some(info) => text::decimal(info.packages as nat) + " packages, "@ + text::decimal(
            info.owned as nat,
        ) + " owned, fetched "@ + ui::age_text(info.age) + " ago"@,
        None => "not cached"@,
    }
}

/// What there is to say about a cached index.
#[must_use]
pub fn state(info: &Option<Info>) -> (text: String)
    ensures
        text@ == state_text(*info),
{
    match info {
        Some(info) => {
            let mut line = text::count_text(info.packages);
            line.append(" packages, ");
            let owned = text::count_text(info.owned);
            line.append(owned.as_str());
            line.append(" owned, fetched ");
            let age = ui::format_age(info.age);
            line.append(age.as_str());
            line.append(" ago");
            line
        },
        None => "not cached".to_owned(),
    }
}

/// The line about the cached index of one package type.
pub open spec fn info_line(kind: PackageType, info: Option<Info>) -> Seq<char> {
    text::padded(kind.api_text(), 8) + "  "@ + state_text(info)
}

/// The line about the cached index of one package type.
fn describe(kind: PackageType, info: &Option<Info>) -> (line: String)
    ensures
        line@ == info_line(kind, *info),
{
    let mut line = text::pad_end(kind.api_name(), 8);
    line.append("  ");
    let state = state(info);
    line.append(state.as_str());
    line
}

/// The cache location and the summaries of the module and the system index.
#[must_use]
pub fn info(cache: &Cache, modules: &Option<Info>, systems: &Option<Info>) -> (lines: Vec<String>)
    ensures
        text::views(lines@) == seq![
            "location  "@ + cache.dir_text(),
            info_line(PackageType::Module, *modules),
            info_line(PackageType::System, *systems),
        ],
{
    let mut location = "location  ".to_owned();
    location.append(cache.dir());
    let lines = vec![
        location,
        describe(PackageType::Module, modules),
        describe(PackageType::System, systems),
    ];
    assert(text::views(lines@) =~= seq![
        "location  "@ + cache.dir_text(),
        info_line(PackageType::Module, *modules),
        info_line(PackageType::System, *systems),
    ]);
    lines
}

/// Accepts the outcome of deleting all cached data, and tells about it.
///
/// # Errors
///
/// Fails when the cache directory could not be removed.
pub fn clear(cache: &Cache, removed: Option<Result<(), String>>) -> (message: Result<
    Message,
    index::Error,
>)
    ensures
        match removed {
            Some(Err(reason)) => message matches Err(index::Error::Io { path, reason: given })
                && path@ == cache.dir_text() && given == reason,
            _ => message matches Ok(told) && told@ == MessageView::Status("cache cleared"@),
        },
{
    match cache.clear(removed) {
        Ok(()) => Ok(Message::Status("cache cleared".to_owned())),
        Err(error) => Err(error),
    }
}

/// A refresh that fell back to stale data is a warning, and any other one a
/// status line.
pub proof fn failed_refreshes_are_warned_about(
    kind: PackageType,
    snapshot: Snapshot,
    source: Source,
    now: u64,
)
    ensures
        refresh_text(kind, snapshot, source, now) is Warning <==> source is StaleFallback,
        refresh_text(kind, snapshot, source, now) is Status <==> source !is StaleFallback,
{
}

/// What is said about a cached index tells its packages, how many of them are
/// owned, and its age.
pub proof fn cached_indexes_are_summed_up(kind: PackageType, info: Info)
    ensures
        state_text(Some(info)) == text::decimal(info.packages as nat) + " packages, "@
            + text::decimal(info.owned as nat) + " owned, fetched "@ + ui::age_text(info.age)
            + " ago"@,
        state_text(None) == "not cached"@,
        kind.api_text().is_prefix_of(info_line(kind, Some(info))),
        state_text(Some(info)).is_suffix_of(info_line(kind, Some(info))),
{
    let line = info_line(kind, Some(info));
    let state = state_text(Some(info));
    text::padding_only_adds_spaces(kind.api_text(), 8);
    let padded = text::padded(kind.api_text(), 8);
    assert(line.take(kind.api_text().len() as int) =~= padded.take(kind.api_text().len() as int));
    assert(line.subrange(line.len() - state.len(), line.len() as int) =~= state);
}

} // verus!
