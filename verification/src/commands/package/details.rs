//! `info`: everything the index knows about one package.

use vstd::prelude::*;
use crate::api::types::{self, Package};
use crate::commands::package;
use crate::foundry::PackageType;
use crate::foundry::local::Installed;
use crate::foundry::version::Comparison;
use crate::index::Snapshot;
use crate::text;

verus! {

/// The line of a field, unless its value is empty.
pub open spec fn field(label: Seq<char>, value: Option<Seq<char>>) -> Seq<Seq<char>> {
    match value {
        Some(text) if text.len() > 0 => seq![text::padded(label, 14) + " "@ + text],
        _ => Seq::empty(),
    }
}

/// Adds the line of a field, unless its value is empty.
fn add_field(lines: &mut Vec<String>, label: &str, value: Option<&str>)
    ensures
        text::views(final(lines)@) == text::views(old(lines)@) + field(
            label@,
            match value {
                Some(text) => Some(text@),
                None => None,
            },
        ),
{
    let ghost start = text::views(lines@);
    assert(start + Seq::<Seq<char>>::empty() =~= start);
    if let Some(value) = value {
        if value.unicode_len() > 0 {
            let mut line = text::pad_end(label, 14);
            line.append(" ");
            line.append(value);
            let ghost added = line@;
            lines.push(line);
            assert(text::views(lines@) =~= start + seq![added]);
        }
    }
}

/// The text of an optional string.
fn optional_text(value: &Option<String>) -> (text: Option<&str>)
    ensures
        match text {
            Some(text) => types::optional(*value) == Some(text@),
            None => types::optional(*value) is None,
        },
{
    match value {
        Some(text) => Some(text.as_str()),
        None => None,
    }
}

/// How an installed package compares to the index, in words.
pub open spec fn status_text(status: Comparison) -> Seq<char> {
    match status {
        Comparison::Same => "up to date"@,
        Comparison::Newer => "update available"@,
        Comparison::Changed => "differs from the index"@,
    }
}

/// The installed version of a package, and how it compares to the index.
pub open spec fn installed_text(local: Installed, package: Package) -> Seq<char> {
    package::version_or_unknown(local.version) + " ("@ + status_text(package::status_of(local, package)) + ")"@
}

/// Who may download a package.
pub open spec fn access_text(package: Package, snapshot: Snapshot) -> Seq<char> {
    if !package.is_protected {
        "free"@
    } else if snapshot.owns(package.id) {
        "protected (owned)"@
    } else {
        "protected (purchase required)"@
    }
}

/// The detail block of a package.
pub open spec fn details(
    kind: PackageType,
    package: Package,
    local: Option<Installed>,
    snapshot: Snapshot,
) -> Seq<Seq<char>> {
    let first = field("name"@, Some(package.name@)) + field("title"@, Some(package.title@)) + field(
        "author"@,
        types::optional(package.author),
    ) + field("type"@, Some(kind.api_text())) + field("latest"@, Some(package.version.version@))
        + field(
        "installed"@,
        match local {
            Some(local) => Some(installed_text(local, package)),
            None => None,
        },
    ) + field("access"@, Some(access_text(package, snapshot)));
    let second = if package.systems@.len() == 0 {
        first
    } else {
        first + field("systems"@, Some(text::joined(text::views(package.systems@), ", "@)))
    };
    second + field("requires core"@, types::optional(package.version.required_core_version))
        + field("compatible"@, types::optional(package.version.compatible_core_version)) + field(
        "verified"@,
        types::optional(package.verified),
    ) + field("updated"@, types::optional(package.last_updated)) + field(
        "url"@,
        types::optional(package.url),
    ) + field("manifest"@, Some(package.version.manifest@)) + field(
        "notes"@,
        types::optional(package.version.notes),
    ) + field("description"@, types::optional(package.description))
}

/// The detail block for a single package.
///
/// # Errors
///
/// Returns a message when the index lists no such package.
pub fn info(kind: PackageType, name: &str, snapshot: &Snapshot, installed: &Vec<Installed>) -> (
block: Result<Vec<String>, String>)
    ensures
        match types::first_named(snapshot.packages@, name@) {
            None => block matches Err(problem) && problem@ == "the index lists no "@
                + kind.api_text() + " named `"@ + name@ + "`"@,
            Some(package) => block matches Ok(lines) && text::views(lines@) == details(
                kind,
                package,
                package::installed_as(installed@, name@),
                *snapshot,
            ),
        },
{
    let package = match types::find(&snapshot.packages, name) {
        Some(package) => package,
        None => {
            let mut problem = "the index lists no ".to_owned();
            problem.append(kind.api_name());
            problem.append(" named `");
            problem.append(name);
            problem.append("`");
            return Err(problem);
        },
    };
    let mut lines: Vec<String> = Vec::new();
    assert(text::views(lines@) =~= Seq::empty());
    add_field(&mut lines, "name", Some(package.name.as_str()));
    assert(text::views(lines@) =~= field("name"@, Some(package.name@)));
    add_field(&mut lines, "title", Some(package.title.as_str()));
    add_field(&mut lines, "author", optional_text(&package.author));
    add_field(&mut lines, "type", Some(kind.api_name()));
    add_field(&mut lines, "latest", Some(package.version.version.as_str()));
    let local = package::find_installed(installed, name);
    match local {
        Some(local) => {
            let mut value = package::known_version(&local.version);
            value.append(" (");
            value.append(
                match package::version_status(local, package) {
                    Comparison::Same => "up to date",
                    Comparison::Newer => "update available",
                    Comparison::Changed => "differs from the index",
                },
            );
            value.append(")");
            add_field(&mut lines, "installed", Some(value.as_str()));
        },
        None => add_field(&mut lines, "installed", None),
    }
    let access = if !package.is_protected {
        "free"
    } else if snapshot.is_owned(package.id) {
        "protected (owned)"
    } else {
        "protected (purchase required)"
    };
    add_field(&mut lines, "access", Some(access));
    if package.systems.len() > 0 {
        let systems = text::join(&package.systems, ", ");
        add_field(&mut lines, "systems", Some(systems.as_str()));
    }
    add_field(&mut lines, "requires core", optional_text(&package.version.required_core_version));
    add_field(&mut lines, "compatible", optional_text(&package.version.compatible_core_version));
    add_field(&mut lines, "verified", optional_text(&package.verified));
    add_field(&mut lines, "updated", optional_text(&package.last_updated));
    add_field(&mut lines, "url", optional_text(&package.url));
    add_field(&mut lines, "manifest", Some(package.version.manifest.as_str()));
    add_field(&mut lines, "notes", optional_text(&package.version.notes));
    add_field(&mut lines, "description", optional_text(&package.description));
    Ok(lines)
}

/// A field of a package: its label, and its value if there is one.
pub type Fact = (Seq<char>, Option<Seq<char>>);

/// The test for fields with a value that is not empty.
pub open spec fn is_known() -> spec_fn(Fact) -> bool {
    |fact: Fact| fact.1 matches Some(value) && value.len() > 0
}

/// The line of a field.
pub open spec fn fact_line() -> spec_fn(Fact) -> Seq<char> {
    |fact: Fact| text::padded(fact.0, 14) + " "@ + fact.1->0
}

/// The lines of the fields that are known.
pub open spec fn known_lines(facts: Seq<Fact>) -> Seq<Seq<char>> {
    facts.filter(is_known()).map_values(fact_line())
}

/// Everything that the index and the disk tell about a package.
pub open spec fn facts_of(
    kind: PackageType,
    package: Package,
    local: Option<Installed>,
    snapshot: Snapshot,
) -> Seq<Fact> {
    seq![
        ("name"@, Some(package.name@)),
        ("title"@, Some(package.title@)),
        ("author"@, types::optional(package.author)),
        ("type"@, Some(kind.api_text())),
        ("latest"@, Some(package.version.version@)),
        (
            "installed"@,
            match local {
                Some(local) => Some(installed_text(local, package)),
                None => None,
            },
        ),
        ("access"@, Some(access_text(package, snapshot))),
        (
            "systems"@,
            if package.systems@.len() > 0 {
                Some(text::joined(text::views(package.systems@), ", "@))
            } else {
                None
            },
        ),
        ("requires core"@, types::optional(package.version.required_core_version)),
        ("compatible"@, types::optional(package.version.compatible_core_version)),
        ("verified"@, types::optional(package.verified)),
        ("updated"@, types::optional(package.last_updated)),
        ("url"@, types::optional(package.url)),
        ("manifest"@, Some(package.version.manifest@)),
        ("notes"@, types::optional(package.version.notes)),
        ("description"@, types::optional(package.description)),
    ]
}

/// One more field adds its line, if its value is known.
proof fn fields_add_their_lines(facts: Seq<Fact>, count: int)
    requires
        0 <= count < facts.len(),
    ensures
        known_lines(facts.take(count + 1)) == known_lines(facts.take(count)) + field(
            facts[count].0,
            facts[count].1,
        ),
{
    reveal(Seq::filter);
    let init = facts.take(count);
    let fact = facts[count];
    assert(facts.take(count + 1).drop_last() =~= init);
    let kept = init.filter(is_known());
    if is_known()(fact) {
        assert(kept.push(fact).map_values(fact_line()) =~= kept.map_values(fact_line()) + field(
            fact.0,
            fact.1,
        ));
    } else {
        assert(kept.map_values(fact_line()) =~= kept.map_values(fact_line()) + field(
            fact.0,
            fact.1,
        ));
    }
}

/// The detail block has a line for every field with a value that is not empty,
/// in a fixed order, and for no other.
pub proof fn every_known_field_is_shown(
    kind: PackageType,
    package: Package,
    local: Option<Installed>,
    snapshot: Snapshot,
)
    ensures
        details(kind, package, local, snapshot) == known_lines(
            facts_of(kind, package, local, snapshot),
        ),
{
    reveal(Seq::filter);
    let facts = facts_of(kind, package, local, snapshot);
    assert(facts.take(0) =~= Seq::empty());
    assert(known_lines(facts.take(0)) =~= Seq::empty());
    fields_add_their_lines(facts, 0);
    fields_add_their_lines(facts, 1);
    fields_add_their_lines(facts, 2);
    fields_add_their_lines(facts, 3);
    fields_add_their_lines(facts, 4);
    fields_add_their_lines(facts, 5);
    fields_add_their_lines(facts, 6);
    fields_add_their_lines(facts, 7);
    fields_add_their_lines(facts, 8);
    fields_add_their_lines(facts, 9);
    fields_add_their_lines(facts, 10);
    fields_add_their_lines(facts, 11);
    fields_add_their_lines(facts, 12);
    fields_add_their_lines(facts, 13);
    fields_add_their_lines(facts, 14);
    fields_add_their_lines(facts, 15);
    assert(facts.take(16) =~= facts);
    assert(known_lines(facts) =~= details(kind, package, local, snapshot));
}

/// An installed package is told as up to date just when it declares the very
/// version of the index; a protected package is told as owned just when the
/// license owns it, and a free one as free.
pub proof fn details_tell_status_and_access(
    local: Installed,
    package: Package,
    snapshot: Snapshot,
)
    ensures
        installed_text(local, package) == package::version_or_unknown(local.version) + " ("@ + (
        match package::status_of(local, package) {
            Comparison::Same => "up to date"@,
            Comparison::Newer => "update available"@,
            Comparison::Changed => "differs from the index"@,
        }) + ")"@,
        access_text(package, snapshot) == "free"@ <==> !package.is_protected,
        package.is_protected ==> (access_text(package, snapshot) == "protected (owned)"@
            <==> snapshot.owned@.contains(package.id)),
{
    reveal_strlit("free");
    reveal_strlit("protected (owned)");
    reveal_strlit("protected (purchase required)");
    assert("free"@.len() == 4);
    assert("protected (owned)"@.len() == 17);
    assert("protected (purchase required)"@.len() > 17);
}

} // verus!
