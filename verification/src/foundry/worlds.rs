//! Scanning worlds to find which systems and modules are actually used.
//!
//! A world's *system* is declared in its `world.json`. Its enabled *modules*
//! live inside the world's `LevelDB` database (`worlds/<id>/data`) as a
//! settings document whose `key` is `core.moduleConfiguration` and whose
//! `value` is a JSON-encoded map of `module id → enabled`.
//!
//! What was found on disk comes in as plain values: the settings database as
//! the values of its records, read from a copy, because opening a `LevelDB`
//! mutates it. Worlds that cannot be inspected are reported as unreadable so
//! callers can treat their usage as *unknown* rather than *unused* — `--prune`
//! must never delete based on a guess.

use vstd::prelude::*;
use crate::foundry::Installation;
use crate::json::{self, Document, DocumentView, Member, MemberView};
use crate::text;

verus! {

/// What the worlds of an installation use.
#[derive(Debug)]
pub struct Usage {
    /// Ids of systems used by at least one world, each once.
    pub systems: Vec<String>,
    /// Ids of modules enabled in at least one world, each once.
    pub modules: Vec<String>,
    /// Worlds that could not be (fully) inspected, with the reason. While
    /// this is non-empty the usage data is incomplete: a package that looks
    /// unused may be used by one of these worlds.
    pub unreadable: Vec<(String, String)>,
    /// How many worlds were found.
    pub worlds: usize,
}

/// What the worlds of an installation use, as text.
#[verifier::ext_equal]
pub struct UsageView {
    /// Ids of systems used by at least one world.
    pub systems: Seq<Seq<char>>,
    /// Ids of modules enabled in at least one world.
    pub modules: Seq<Seq<char>>,
    /// Worlds that could not be (fully) inspected, with the reason.
    pub unreadable: Seq<(Seq<char>, Seq<char>)>,
    /// How many worlds were found.
    pub worlds: nat,
}

impl View for Usage {
    type V = UsageView;

    open spec fn view(&self) -> UsageView {
        UsageView {
            systems: text::views(self.systems@),
            modules: text::views(self.modules@),
            unreadable: text::pair_views(self.unreadable@),
            worlds: self.worlds as nat,
        }
    }
}

impl UsageView {
    /// The usage of no world at all.
    pub open spec fn none() -> UsageView {
        UsageView {
            systems: Seq::empty(),
            modules: Seq::empty(),
            unreadable: Seq::empty(),
            worlds: 0,
        }
    }
}

impl Default for Usage {
    fn default() -> (usage: Usage)
        ensures
            usage@ == UsageView::none(),
    {
        let usage = Usage {
            systems: Vec::new(),
            modules: Vec::new(),
            unreadable: Vec::new(),
            worlds: 0,
        };
        assert(usage@ =~= UsageView::none());
        usage
    }
}

/// Errors that can occur while scanning worlds.
#[derive(Clone, Debug)]
pub enum Error {
    /// The worlds directory exists but could not be listed.
    Unlistable {
        /// The directory that could not be listed.
        path: String,
        /// Why the listing failed.
        reason: String,
    },
    /// The requested world does not exist.
    WorldNotFound {
        /// The world id that was requested.
        id: String,
    },
}

impl Error {
    /// The text of this error.
    pub open spec fn text(self) -> Seq<char> {
        match self {
            Error::Unlistable { path, reason } => "could not list "@ + path@,
            Error::WorldNotFound { id } => "world '"@ + id@ + "' was not found"@,
        }
    }

    /// The texts of what caused this error, outermost first.
    pub open spec fn causes(self) -> Seq<Seq<char>> {
        match self {
            Error::Unlistable { path, reason } => seq![reason@],
            Error::WorldNotFound { id } => Seq::empty(),
        }
    }

    /// The text of this error.
    #[must_use]
    pub fn message(&self) -> (message: String)
        ensures
            message@ == self.text(),
    {
        match self {
            Error::Unlistable { path, .. } => {
                let mut message = "could not list ".to_owned();
                message.append(path.as_str());
                message
            },
            Error::WorldNotFound { id } => {
                let mut message = "world '".to_owned();
                message.append(id.as_str());
                message.append("' was not found");
                message
            },
        }
    }

    /// The texts of this error and of what caused it, outermost first.
    #[must_use]
    pub fn chain(&self) -> (chain: Vec<String>)
        ensures
            text::views(chain@) == seq![self.text()] + self.causes(),
    {
        let chain = match self {
            Error::Unlistable { reason, .. } => vec![self.message(), reason.clone()],
            Error::WorldNotFound { .. } => vec![self.message()],
        };
        assert(text::views(chain@) =~= seq![self.text()] + self.causes());
        chain
    }
}

// ---------------------------------------------------------------------------
// One world
// ---------------------------------------------------------------------------

/// What a world directory holds in place of its `world.json`.
#[derive(Clone, Debug)]
pub enum WorldFile {
    /// It could not be read, with the reason.
    Unreadable(String),
    /// It is not a world manifest, with the reason.
    Invalid(String),
    /// The system the world is built on, if it declares one.
    System(Option<String>),
}

/// What a world directory holds in place of its settings database.
#[derive(Clone, Debug)]
pub enum Settings {
    /// There is none: the world was never launched.
    Absent,
    /// No temporary directory could be made for the copy, with the reason.
    NoTemporaryDirectory(String),
    /// The database could not be copied, with the reason.
    NotCopied(String),
    /// The copy could not be opened, with the reason.
    NotOpened(String),
    /// The copy could not be iterated, with the reason.
    NotIterated(String),
    /// The values of its records.
    Records(Vec<Vec<u8>>),
}

/// An entry of the worlds directory.
#[derive(Clone, Debug)]
pub struct World {
    /// The name of the entry, which is the world id.
    pub id: String,
    /// Whether it is a directory.
    pub is_dir: bool,
    /// Whether it holds a file called `world.json`.
    pub has_manifest: bool,
    /// Its `world.json`.
    pub manifest: WorldFile,
    /// Its settings database.
    pub settings: Settings,
}

/// The system of a world, or why it is not known.
pub open spec fn system_of(manifest: WorldFile) -> Result<Option<String>, Seq<char>> {
    match manifest {
        WorldFile::Unreadable(error) => Err("world.json unreadable: "@ + error@),
        WorldFile::Invalid(error) => Err("world.json invalid: "@ + error@),
        WorldFile::System(system) => Ok(system),
    }
}

/// Reads the system id from a world's `world.json`.
///
/// # Errors
///
/// Returns a human-readable reason when the manifest could not be read or
/// parsed.
pub fn read_world_system(manifest: WorldFile) -> (system: Result<Option<String>, String>)
    ensures
        match system_of(manifest) {
            Ok(found) => system == Ok::<Option<String>, String>(found),
            Err(reason) => system matches Err(text) && text@ == reason,
        },
{
    match manifest {
        WorldFile::Unreadable(error) => {
            let mut reason = "world.json unreadable: ".to_owned();
            reason.append(error.as_str());
            Err(reason)
        },
        WorldFile::Invalid(error) => {
            let mut reason = "world.json invalid: ".to_owned();
            reason.append(error.as_str());
            Err(reason)
        },
        WorldFile::System(system) => Ok(system),
    }
}

/// The names of the members that are set to `true`.
pub open spec fn switched_on(members: Seq<(Seq<char>, MemberView)>) -> Seq<Seq<char>>
    decreases members.len(),
{
    if members.len() == 0 {
        Seq::empty()
    } else {
        let init = switched_on(members.drop_last());
        if members.last().1 == MemberView::Flag(true) {
            init.push(members.last().0)
        } else {
            init
        }
    }
}

/// A reason: what failed, and why.
fn reason_of(failed: &str, error: String) -> (reason: String)
    ensures
        reason@ == failed@ + error@,
{
    let mut reason = failed.to_owned();
    reason.append(error.as_str());
    reason
}

/// A module is enabled just when the configuration has a member of its name that
/// is the flag `true`, whatever the other members are.
pub proof fn enabled_modules_are_the_true_members(
    members: Seq<(Seq<char>, MemberView)>,
    module: Seq<char>,
)
    ensures
        switched_on(members).contains(module) <==> exists|i: int|
            0 <= i < members.len() && #[trigger] members[i] == (module, MemberView::Flag(true)),
    decreases members.len(),
{
    if members.len() > 0 {
        let init = members.drop_last();
        let last = members.last();
        let before = switched_on(init);
        let after = switched_on(members);
        enabled_modules_are_the_true_members(init, module);
        if before.contains(module) {
            let i = choose|i: int|
                0 <= i < init.len() && #[trigger] init[i] == (module, MemberView::Flag(true));
            assert(members[i] == init[i]);
            let k = choose|k: int| 0 <= k < before.len() && before[k] == module;
            assert(after[k] == module);
        }
        if last == (module, MemberView::Flag(true)) {
            assert(members[members.len() - 1] == last);
            assert(after[after.len() - 1] == module);
        }
        if after.contains(module) && !before.contains(module) {
            let k = choose|k: int| 0 <= k < after.len() && after[k] == module;
            assert(k < before.len() ==> before[k] == module);
        }
        if exists|i: int|
            0 <= i < members.len() && #[trigger] members[i] == (module, MemberView::Flag(true)) {
            let i = choose|i: int|
                0 <= i < members.len() && #[trigger] members[i] == (module, MemberView::Flag(true));
            if i < init.len() {
                assert(init[i] == members[i]);
            }
        }
    }
}

/// A document that was read, or why there is none.
pub open spec fn outcome(document: Result<Document, String>) -> Result<DocumentView, Seq<char>> {
    match document {
        Ok(document) => Ok(document@),
        Err(problem) => Err(problem@),
    }
}

/// The modules that a module configuration enables, or why they are not known:
/// a configuration has to be a JSON object.
pub open spec fn enabled_by(configuration: Result<DocumentView, Seq<char>>) -> Result<
    Seq<Seq<char>>,
    Seq<char>,
> {
    match configuration {
        Ok(DocumentView::Object(members)) => Ok(switched_on(members)),
        Ok(_) => Err("the module configuration is not a JSON object"@),
        Err(problem) => Err("could not parse the module configuration: "@ + problem),
    }
}

/// Whether a settings document is the module configuration.
pub open spec fn is_configuration(document: Result<DocumentView, Seq<char>>) -> bool {
    document matches Ok(document) && json::string_member(document, "key"@) == Some(
        "core.moduleConfiguration"@,
    )
}

/// The modules that a settings document enables, or why they are not known:
/// only the module configuration enables any, and its value has to be the text
/// of a JSON object.
pub open spec fn enabled_in_document(document: Result<DocumentView, Seq<char>>) -> Result<
    Seq<Seq<char>>,
    Seq<char>,
> {
    if is_configuration(document) {
        match json::string_member(document->Ok_0, "value"@) {
            Some(value) => enabled_by(json::reading(vstd::utf8::encode_utf8(value))),
            None => Err("the module configuration is not a string"@),
        }
    } else {
        Ok(Seq::empty())
    }
}

/// The modules that a list of settings records enables, each once, or why they
/// are not known: the first module configuration that cannot be understood.
pub open spec fn enabled_in(records: Seq<Vec<u8>>) -> Result<Seq<Seq<char>>, Seq<char>>
    decreases records.len(),
{
    if records.len() == 0 {
        Ok(Seq::empty())
    } else {
        match enabled_in(records.drop_last()) {
            Err(reason) => Err(reason),
            Ok(init) => match enabled_in_document(json::reading(records.last()@)) {
                Err(reason) => Err(reason),
                Ok(more) => Ok(text::merged(init, more)),
            },
        }
    }
}

/// The modules that a module configuration enables: those that it maps to
/// `true`.
///
/// # Errors
///
/// Returns a human-readable reason when the configuration is no JSON object.
pub fn enabled_modules(configuration: Result<Document, String>) -> (modules: Result<
    Vec<String>,
    String,
>)
    ensures
        match enabled_by(outcome(configuration)) {
            Ok(enabled) => modules matches Ok(found) && text::views(found@) == enabled,
            Err(reason) => modules matches Err(text) && text@ == reason,
        },
{
    let members = match configuration {
        Ok(Document::Object(members)) => members,
        Ok(_) => return Err("the module configuration is not a JSON object".to_owned()),
        Err(problem) => return Err(
            reason_of("could not parse the module configuration: ", problem),
        ),
    };
    let mut modules: Vec<String> = Vec::new();
    assert(text::views(modules@) =~= Seq::empty());
    let ghost all = json::member_views(members@);
    let ghost mut seen: int = 0;
    assert(all.take(0) =~= Seq::empty());
    for member in it: members
        invariant
            it.seq() == members@,
            all == json::member_views(members@),
            seen == it.index(),
            text::views(modules@) == switched_on(all.take(it.index() as int)),
    {
        proof {
            assert(all.take(seen + 1).drop_last() =~= all.take(seen));
            assert(all.take(seen + 1).last() == (member.0@, member.1@));
            seen = seen + 1;
        }
        let (name, value) = member;
        if let Member::Flag(true) = value {
            let ghost shorter = text::views(modules@);
            let ghost added = name@;
            modules.push(name);
            assert(text::views(modules@) =~= shorter.push(added));
        }
    }
    assert(all.take(seen) =~= all);
    Ok(modules)
}

/// The module configuration that a settings document holds as its value, if it
/// is the document for that.
///
/// # Errors
///
/// Returns a human-readable reason when the value is no string.
pub fn module_configuration(document: &Result<Document, String>) -> (configuration: Result<
    Option<String>,
    String,
>)
    ensures
        if is_configuration(outcome(*document)) {
            match json::string_member(outcome(*document)->Ok_0, "value"@) {
                Some(value) => configuration matches Ok(Some(text)) && text@ == value,
                None => configuration matches Err(reason) && reason@
                    == "the module configuration is not a string"@,
            }
        } else {
            configuration matches Ok(None)
        },
{
    let document = match document {
        Err(_) => return Ok(None),
        Ok(document) => document,
    };
    match json::string_of_member(document, "key") {
        Some(key) => if !text::same(key.as_str(), "core.moduleConfiguration") {
            return Ok(None);
        },
        None => return Ok(None),
    }
    match json::string_of_member(document, "value") {
        Some(value) => Ok(Some(value)),
        None => Err("the module configuration is not a string".to_owned()),
    }
}

/// The modules that one settings record enables.
fn modules_in_record(record: &Vec<u8>) -> (modules: Result<Vec<String>, String>)
    ensures
        match enabled_in_document(json::reading(record@)) {
            Ok(enabled) => modules matches Ok(found) && text::views(found@) == enabled,
            Err(reason) => modules matches Err(text) && text@ == reason,
        },
{
    let document = json::parse(record.as_slice());
    match module_configuration(&document) {
        Err(reason) => Err(reason),
        Ok(Some(configuration)) => enabled_modules(json::parse(configuration.as_str().as_bytes())),
        Ok(None) => {
            let modules: Vec<String> = Vec::new();
            assert(text::views(modules@) =~= Seq::empty());
            Ok(modules)
        },
    }
}

/// The modules enabled in a world, or why they are not known.
pub open spec fn modules_of(settings: Settings) -> Result<Seq<Seq<char>>, Seq<char>> {
    match settings {
        Settings::Absent => Ok(Seq::empty()),
        Settings::NoTemporaryDirectory(error) => Err("could not create a temp dir: "@ + error@),
        Settings::NotCopied(error) => Err("could not copy the world database: "@ + error@),
        Settings::NotOpened(error) => Err("could not open the world database: "@ + error@),
        Settings::NotIterated(error) => Err("could not iterate the world database: "@ + error@),
        Settings::Records(records) => enabled_in(records@),
    }
}

/// A module configuration that cannot be understood decides, whatever records
/// come after it.
proof fn first_reason_stays(records: Seq<Vec<u8>>, upto: int)
    requires
        0 <= upto <= records.len(),
        enabled_in(records.take(upto)) is Err,
    ensures
        enabled_in(records) == enabled_in(records.take(upto)),
    decreases records.len(),
{
    if upto == records.len() {
        assert(records.take(upto) =~= records);
    } else {
        let init = records.drop_last();
        assert(init.take(upto) =~= records.take(upto));
        first_reason_stays(init, upto);
    }
}

/// The modules of a world are known exactly when each of its module
/// configurations is the text of a JSON object, and then every module that one
/// of them enables is among them.
pub proof fn known_modules_were_all_understood(records: Seq<Vec<u8>>)
    ensures
        enabled_in(records) is Ok <==> (forall|at: int|
            0 <= at < records.len() ==> enabled_in_document(
                json::reading(#[trigger] records[at]@),
            ) is Ok),
        enabled_in(records) is Ok ==> forall|at: int, module: Seq<char>|
            0 <= at < records.len() && #[trigger] enabled_in_document(
                json::reading(records[at]@),
            )->Ok_0.contains(module) ==> #[trigger] enabled_in(records)->Ok_0.contains(module),
    decreases records.len(),
{
    if records.len() > 0 {
        let init = records.drop_last();
        let last = records.last();
        known_modules_were_all_understood(init);
        assert forall|at: int| 0 <= at < init.len() implies #[trigger] init[at] == records[at] by {}
        assert(records[records.len() - 1] == last);
        if enabled_in(records) is Ok {
            let before = enabled_in(init)->Ok_0;
            let more = enabled_in_document(json::reading(last@))->Ok_0;
            text::merging_adds_each_text_once(before, more);
            assert forall|at: int| 0 <= at < records.len() implies enabled_in_document(
                json::reading(#[trigger] records[at]@),
            ) is Ok by {
                if at < init.len() {
                    assert(init[at] == records[at]);
                }
            }
            assert forall|at: int, module: Seq<char>|
                0 <= at < records.len() && #[trigger] enabled_in_document(
                    json::reading(records[at]@),
                )->Ok_0.contains(module) implies #[trigger] enabled_in(records)->Ok_0.contains(
                module,
            ) by {
                if at < init.len() {
                    assert(init[at] == records[at]);
                    assert(before.contains(module));
                } else {
                    assert(more.contains(module));
                }
            }
        }
    }
}

/// Reads the enabled-module set from the records of a world's settings
/// database.
///
/// A world without a database (never launched) has no enabled modules.
///
/// # Errors
///
/// Returns a human-readable reason when the database exists but could not be
/// copied or read, or when it holds a module configuration that cannot be
/// understood: what such a world enables is unknown.
pub fn read_enabled_modules(settings: Settings) -> (modules: Result<Vec<String>, String>)
    ensures
        match modules_of(settings) {
            Ok(enabled) => modules matches Ok(found) && text::views(found@) == enabled,
            Err(reason) => modules matches Err(text) && text@ == reason,
        },
{
    let mut modules: Vec<String> = Vec::new();
    assert(text::views(modules@) =~= Seq::empty());
    let records = match settings {
        Settings::Absent => return Ok(modules),
        Settings::NoTemporaryDirectory(error) => return Err(
            reason_of("could not create a temp dir: ", error),
        ),
        Settings::NotCopied(error) => return Err(
            reason_of("could not copy the world database: ", error),
        ),
        Settings::NotOpened(error) => return Err(
            reason_of("could not open the world database: ", error),
        ),
        Settings::NotIterated(error) => return Err(
            reason_of("could not iterate the world database: ", error),
        ),
        Settings::Records(records) => records,
    };
    let mut i: usize = 0;
    assert(records@.take(0) =~= Seq::empty());
    while i < records.len()
        invariant
            modules_of(settings) == enabled_in(records@),
            0 <= i <= records@.len(),
            enabled_in(records@.take(i as int)) == Ok::<Seq<Seq<char>>, Seq<char>>(
                text::views(modules@),
            ),
        decreases records@.len() - i,
    {
        assert(records@.take(i + 1).drop_last() =~= records@.take(i as int));
        assert(records@.take(i + 1).last() == records@[i as int]);
        match modules_in_record(&records[i]) {
            Ok(more) => text::merge(&mut modules, more),
            Err(reason) => {
                proof {
                    first_reason_stays(records@, i + 1);
                }
                return Err(reason);
            },
        }
        i = i + 1;
    }
    assert(records@.take(i as int) =~= records@);
    Ok(modules)
}

// ---------------------------------------------------------------------------
// All worlds
// ---------------------------------------------------------------------------

/// Whether an entry of the worlds directory is a world: only directories with
/// a `world.json` are.
pub open spec fn is_world(world: World) -> bool {
    world.is_dir && world.has_manifest
}

/// The usage with one more world.
pub open spec fn with_world(usage: UsageView, world: World) -> UsageView {
    let counted = UsageView { worlds: usage.worlds + 1, ..usage };
    match system_of(world.manifest) {
        Err(reason) => UsageView {
            unreadable: usage.unreadable.push((world.id@, reason)),
            ..counted
        },
        Ok(system) => {
            let systems = match system {
                Some(system) => text::with_new(usage.systems, system@),
                None => usage.systems,
            };
            match modules_of(world.settings) {
                Err(reason) => UsageView {
                    systems,
                    unreadable: usage.unreadable.push((world.id@, reason)),
                    ..counted
                },
                Ok(modules) => UsageView {
                    systems,
                    modules: text::merged(usage.modules, modules),
                    ..counted
                },
            }
        },
    }
}

/// Adds what `world` uses to `usage`.
fn add_world(usage: &mut Usage, world: World)
    requires
        old(usage).worlds < usize::MAX,
    ensures
        final(usage)@ == with_world(old(usage)@, world),
{
    let ghost before = usage@;
    let World { id, is_dir: _, has_manifest: _, manifest, settings } = world;
    usage.worlds = usage.worlds + 1;
    match read_world_system(manifest) {
        Ok(system) => {
            if let Some(system) = system {
                text::add_new(&mut usage.systems, system);
            }
        },
        Err(reason) => {
            let ghost added = (id@, reason@);
            usage.unreadable.push((id, reason));
            assert(text::pair_views(usage.unreadable@) =~= before.unreadable.push(added));
            return;
        },
    }
    match read_enabled_modules(settings) {
        Ok(modules) => text::merge(&mut usage.modules, modules),
        Err(reason) => {
            let ghost added = (id@, reason@);
            usage.unreadable.push((id, reason));
            assert(text::pair_views(usage.unreadable@) =~= before.unreadable.push(added));
        },
    }
}

/// Makes sense of a single world, when there is one with a `world.json`, and
/// returns what it uses.
///
/// # Errors
///
/// Returns [`Error::WorldNotFound`] when there is no such world. Per-world
/// read problems (unreadable database, etc.) are recorded in
/// [`Usage::unreadable`] rather than returned as hard errors.
pub fn scan_world(world_id: &str, world: Option<World>) -> (result: Result<Usage, Error>)
    ensures
        match world {
            Some(world) if world.has_manifest => result matches Ok(usage) && usage@ == with_world(
                UsageView::none(),
                world,
            ),
            _ => result matches Err(Error::WorldNotFound { id }) && id@ == world_id@,
        },
{
    match world {
        Some(world) => {
            if !world.has_manifest {
                return Err(Error::WorldNotFound { id: world_id.to_owned() });
            }
            let mut usage: Usage = Default::default();
            add_world(&mut usage, world);
            Ok(usage)
        },
        None => Err(Error::WorldNotFound { id: world_id.to_owned() }),
    }
}

/// What listing the worlds directory gave.
#[derive(Clone, Debug)]
pub enum Listing {
    /// There is no such directory.
    Missing,
    /// It could not be listed, with the reason.
    Unlistable(String),
    /// Its entries.
    Entries(Vec<World>),
}

/// What the worlds among the entries use.
pub open spec fn usage_of(entries: Seq<World>) -> UsageView
    decreases entries.len(),
{
    if entries.len() == 0 {
        UsageView::none()
    } else {
        let init = usage_of(entries.drop_last());
        if is_world(entries.last()) {
            with_world(init, entries.last())
        } else {
            init
        }
    }
}

/// Makes sense of every world in the installation: the system it uses and the
/// modules it has enabled.
///
/// # Errors
///
/// Returns an [`Error`] only when the worlds directory could not be listed at
/// all; per-world problems land in [`Usage::unreadable`] instead.
pub fn scan_usage(installation: &Installation, listing: Listing) -> (result: Result<Usage, Error>)
    ensures
        match listing {
            Listing::Missing => result matches Ok(usage) && usage@ == UsageView::none(),
            Listing::Unlistable(reason) => result matches Err(
                Error::Unlistable { path, reason: given },
            ) && path@ == installation.worlds_text() && given == reason,
            Listing::Entries(entries) => result matches Ok(usage) && usage@ == usage_of(entries@),
        },
{
    let mut usage: Usage = Default::default();
    let entries = match listing {
        Listing::Missing => return Ok(usage),
        Listing::Unlistable(reason) => return Err(
            Error::Unlistable { path: installation.worlds_dir(), reason },
        ),
        Listing::Entries(entries) => entries,
    };
    let ghost all = entries@;
    let ghost mut seen: int = 0;
    assert(all.take(0) =~= Seq::empty());
    assert(all.len() <= usize::MAX) by {
        let length = entries.len();
    }
    for world in it: entries
        invariant
            it.seq() == all,
            all.len() <= usize::MAX,
            seen == it.index(),
            usage.worlds <= it.index(),
            usage@ == usage_of(all.take(it.index() as int)),
    {
        proof {
            assert(all.take(seen + 1).drop_last() =~= all.take(seen));
            assert(all.take(seen + 1).last() == world);
            seen = seen + 1;
        }
        if world.is_dir && world.has_manifest {
            add_world(&mut usage, world);
        }
    }
    assert(all.take(seen) =~= all);
    Ok(usage)
}

/// Usage data without unreadable worlds is complete: the system of every
/// world and every module enabled in it are listed. So a package that is not
/// listed then is not used.
pub proof fn complete_usage_misses_nothing(entries: Seq<World>, at: int)
    requires
        0 <= at < entries.len(),
        is_world(entries[at]),
        usage_of(entries).unreadable.len() == 0,
    ensures
        system_of(entries[at].manifest) is Ok,
        modules_of(entries[at].settings) is Ok,
        system_of(entries[at].manifest)->Ok_0 matches Some(system) ==> usage_of(
            entries,
        ).systems.contains(system@),
        forall|module: Seq<char>|
            modules_of(entries[at].settings)->Ok_0.contains(module) ==> #[trigger] usage_of(
                entries,
            ).modules.contains(module),
    decreases entries.len(),
{
    let init = entries.drop_last();
    let last = entries.last();
    let before = usage_of(init);
    let usage = usage_of(entries);
    if is_world(last) {
        if let Ok(modules) = modules_of(last.settings) {
            text::merging_adds_each_text_once(before.modules, modules);
        }
        if let Ok(Some(system)) = system_of(last.manifest) {
            text::merging_adds_each_text_once(before.systems, seq![system@]);
            assert(seq![system@].drop_last() =~= Seq::empty());
            assert(text::merged(before.systems, Seq::empty()) == before.systems);
            assert(text::merged(before.systems, seq![system@]) == text::with_new(
                before.systems,
                system@,
            ));
            assert(seq![system@][0] == system@);
        }
    }
    if at < entries.len() - 1 {
        assert(init[at] == entries[at]);
        complete_usage_misses_nothing(init, at);
    }
}

/// Usage data lists no system and no module twice, and counts the worlds.
pub proof fn usage_lists_each_package_once(entries: Seq<World>)
    ensures
        usage_of(entries).systems.no_duplicates(),
        usage_of(entries).modules.no_duplicates(),
        usage_of(entries).worlds == entries.filter(|world: World| is_world(world)).len(),
    decreases entries.len(),
{
    reveal(Seq::filter);
    if entries.len() > 0 {
        let init = entries.drop_last();
        let last = entries.last();
        let before = usage_of(init);
        usage_lists_each_package_once(init);
        if let Ok(modules) = modules_of(last.settings) {
            text::merging_adds_each_text_once(before.modules, modules);
        }
        if let Ok(Some(system)) = system_of(last.manifest) {
            text::merging_adds_each_text_once(before.systems, seq![system@]);
            assert(seq![system@].drop_last() =~= Seq::empty());
            assert(text::merged(before.systems, Seq::empty()) == before.systems);
        }
    }
}

/// Whether a document holds a text under a name: in the first member so called.
pub open spec fn holds_text(document: DocumentView, name: Seq<char>, text: Seq<char>) -> bool {
    document matches DocumentView::Object(members) && exists|i: int|
        0 <= i < members.len() && #[trigger] members[i] == (name, MemberView::Text(text))
            && forall|j: int| 0 <= j < i ==> (#[trigger] members[j]).0 != name
}

/// Whether a settings record is a module configuration with a text as its value.
pub open spec fn configures(record: Seq<u8>, value: Seq<char>) -> bool {
    json::reading(record) matches Ok(document) && holds_text(
        document,
        "key"@,
        "core.moduleConfiguration"@,
    ) && holds_text(document, "value"@, value)
}

/// Whether a settings record is a module configuration that sets a module to
/// `true`.
pub open spec fn enables(record: Seq<u8>, module: Seq<char>) -> bool {
    exists|value: Seq<char>| #[trigger]
        configures(record, value) && (json::reading(vstd::utf8::encode_utf8(value)) matches Ok(
            DocumentView::Object(members),
        ) && exists|i: int|
            0 <= i < members.len() && #[trigger] members[i] == (module, MemberView::Flag(true)))
}

/// Whether a settings record is no module configuration, or one whose value is
/// the text of a JSON object.
pub open spec fn is_understood(record: Seq<u8>) -> bool {
    (json::reading(record) matches Ok(document) && holds_text(
        document,
        "key"@,
        "core.moduleConfiguration"@,
    )) ==> exists|value: Seq<char>| #[trigger]
        configures(record, value) && (json::reading(vstd::utf8::encode_utf8(value)) matches Ok(
            DocumentView::Object(_),
        ))
}

/// Whether the modules of a world can be told: it has no database, or one that
/// was read and whose records are all understood.
pub open spec fn is_inspectable(settings: Settings) -> bool {
    match settings {
        Settings::Absent => true,
        Settings::Records(records) => forall|r: int|
            0 <= r < records@.len() ==> is_understood(#[trigger] records@[r]@),
        _ => false,
    }
}

/// Whether the database of a world enables a module.
pub open spec fn database_enables(settings: Settings, module: Seq<char>) -> bool {
    settings matches Settings::Records(records) && exists|r: int|
        0 <= r < records@.len() && enables(#[trigger] records@[r]@, module)
}

/// A text member is the text that a document holds under the name.
proof fn texts_are_found(document: DocumentView, name: Seq<char>, text: Seq<char>)
    ensures
        json::string_member(document, name) == Some(text) <==> holds_text(document, name, text),
{
    if let DocumentView::Object(members) = document {
        json::the_first_member_is_found(members, name, MemberView::Text(text));
    }
}

/// What a single record tells.
proof fn records_tell_their_modules(record: Seq<u8>, module: Seq<char>)
    ensures
        enabled_in_document(json::reading(record)) is Ok <==> is_understood(record),
        is_understood(record) ==> (enabled_in_document(json::reading(record))->Ok_0.contains(module)
            <==> enables(record, module)),
{
    let read = json::reading(record);
    if let Ok(document) = read {
        texts_are_found(document, "key"@, "core.moduleConfiguration"@);
        let found = json::string_member(document, "value"@);
        assert forall|value: Seq<char>| #[trigger] configures(record, value) implies found == Some(
            value,
        ) by {
            texts_are_found(document, "value"@, value);
        }
        if is_configuration(read) {
            if let Some(value) = found {
                texts_are_found(document, "value"@, value);
                assert(configures(record, value));
                if let Ok(DocumentView::Object(members)) = json::reading(
                    vstd::utf8::encode_utf8(value),
                ) {
                    enabled_modules_are_the_true_members(members, module);
                }
            }
        }
    }
}

/// The modules of a world are known just when it can be inspected, and are then
/// exactly those that a record of its database enables.
pub proof fn known_modules_are_the_enabled_ones(settings: Settings, module: Seq<char>)
    ensures
        modules_of(settings) is Ok <==> is_inspectable(settings),
        is_inspectable(settings) ==> (modules_of(settings)->Ok_0.contains(module)
            <==> database_enables(settings, module)),
{
    if let Settings::Records(records) = settings {
        records_add_up(records@, module);
    }
}

/// What a list of records tells.
proof fn records_add_up(records: Seq<Vec<u8>>, module: Seq<char>)
    ensures
        enabled_in(records) is Ok <==> forall|r: int|
            0 <= r < records.len() ==> is_understood(#[trigger] records[r]@),
        enabled_in(records) is Ok ==> (enabled_in(records)->Ok_0.contains(module) <==> exists|r: int|
            0 <= r < records.len() && enables(#[trigger] records[r]@, module)),
    decreases records.len(),
{
    if records.len() > 0 {
        let init = records.drop_last();
        let last = records.last();
        records_add_up(init, module);
        records_tell_their_modules(last@, module);
        assert(forall|r: int| 0 <= r < init.len() ==> #[trigger] init[r] == records[r]);
        assert(forall|r: int|
            0 <= r < records.len() ==> #[trigger] records[r] == if r < init.len() {
                init[r]
            } else {
                last
            });
        assert(records[records.len() - 1] == last);
        if enabled_in(init) is Ok && enabled_in_document(json::reading(last@)) is Ok {
            text::merging_adds_each_text_once(
                enabled_in(init)->Ok_0,
                enabled_in_document(json::reading(last@))->Ok_0,
            );
            let more = exists|r: int| 0 <= r < records.len() && enables(#[trigger] records[r]@, module);
            if exists|r: int| 0 <= r < init.len() && enables(#[trigger] init[r]@, module) {
                let r = choose|r: int| 0 <= r < init.len() && enables(#[trigger] init[r]@, module);
                assert(enables(records[r]@, module));
            }
            if more {
                let r = choose|r: int|
                    0 <= r < records.len() && enables(#[trigger] records[r]@, module);
                if r < init.len() {
                    assert(enables(init[r]@, module));
                }
            }
        }
    }
}

/// Usage data tells of every world directory what can be told: its system is
/// listed if its manifest names one, its modules are listed if its database can
/// be inspected, and it is listed as unreadable if one of the two cannot be
/// read. Nothing else is listed.
pub proof fn usage_is_what_the_worlds_use(entries: Seq<World>, id: Seq<char>)
    ensures
        usage_of(entries).systems.contains(id) <==> exists|w: int|
            #![trigger entries[w]]
            0 <= w < entries.len() && entries[w].is_dir && entries[w].has_manifest && (
            entries[w].manifest matches WorldFile::System(Some(system)) && system@ == id),
        usage_of(entries).modules.contains(id) <==> exists|w: int|
            #![trigger entries[w]]
            0 <= w < entries.len() && entries[w].is_dir && entries[w].has_manifest
                && entries[w].manifest is System && is_inspectable(entries[w].settings)
                && database_enables(entries[w].settings, id),
        (exists|u: int|
            0 <= u < usage_of(entries).unreadable.len() && (#[trigger] usage_of(
                entries,
            ).unreadable[u]).0 == id) <==> exists|w: int|
            #![trigger entries[w]]
            0 <= w < entries.len() && entries[w].is_dir && entries[w].has_manifest && entries[w].id@
                == id && !(entries[w].manifest is System && is_inspectable(entries[w].settings)),
    decreases entries.len(),
{
    if entries.len() > 0 {
        let init = entries.drop_last();
        let last = entries.last();
        let before = usage_of(init);
        let after = usage_of(entries);
        usage_is_what_the_worlds_use(init, id);
        known_modules_are_the_enabled_ones(last.settings, id);
        assert(forall|w: int| 0 <= w < init.len() ==> #[trigger] init[w] == entries[w]);
        assert(forall|w: int|
            0 <= w < entries.len() ==> #[trigger] entries[w] == if w < init.len() {
                init[w]
            } else {
                last
            });
        assert(entries[entries.len() - 1] == last);
        assert(after.unreadable.len() >= before.unreadable.len());
        assert(forall|u: int|
            0 <= u < before.unreadable.len() ==> before.unreadable[u] == #[trigger] after.unreadable[u]);
        if last.is_dir && last.has_manifest {
            if let Ok(modules) = modules_of(last.settings) {
                text::merging_adds_each_text_once(before.modules, modules);
            }
            if let WorldFile::System(Some(system)) = last.manifest {
                let one = seq![system@];
                text::merging_adds_each_text_once(before.systems, one);
                assert(one.drop_last() =~= Seq::empty());
                assert(text::merged(before.systems, Seq::empty()) == before.systems);
                assert(text::merged(before.systems, one) == text::with_new(before.systems, system@));
                assert(one[0] == system@);
                assert(one.contains(id) <==> id == system@);
            }
        }
        if exists|u: int| 0 <= u < before.unreadable.len() && (#[trigger] before.unreadable[u]).0 == id {
            let u = choose|u: int|
                0 <= u < before.unreadable.len() && (#[trigger] before.unreadable[u]).0 == id;
            assert(after.unreadable[u].0 == id);
        }
        if exists|u: int| 0 <= u < after.unreadable.len() && (#[trigger] after.unreadable[u]).0 == id {
            let u = choose|u: int|
                0 <= u < after.unreadable.len() && (#[trigger] after.unreadable[u]).0 == id;
            if u < before.unreadable.len() {
                assert(before.unreadable[u].0 == id);
            }
        }
        if after.unreadable.len() > before.unreadable.len() {
            assert(after.unreadable[before.unreadable.len() as int].0 == last.id@);
        }
    }
}

/// Scanning one world is scanning a directory that holds nothing else.
pub proof fn one_world_is_scanned_like_many(world: World)
    ensures
        with_world(UsageView::none(), world) == usage_of(
            seq![World { is_dir: true, has_manifest: true, ..world }],
        ),
{
    let one = World { is_dir: true, has_manifest: true, ..world };
    assert(seq![one].drop_last() =~= Seq::empty());
    assert(usage_of(Seq::<World>::empty()) == UsageView::none());
}

/// Every world directory is counted, and nothing else.
pub proof fn every_world_is_counted(entries: Seq<World>)
    ensures
        usage_of(entries).worlds == entries.filter(
            |world: World| world.is_dir && world.has_manifest,
        ).len(),
    decreases entries.len(),
{
    reveal(Seq::filter);
    if entries.len() > 0 {
        every_world_is_counted(entries.drop_last());
    }
}

/// The test for members that are the flag `true`.
pub open spec fn is_true() -> spec_fn((Seq<char>, MemberView)) -> bool {
    |member: (Seq<char>, MemberView)| member.1 == MemberView::Flag(true)
}

/// The name of a member, as a function.
pub open spec fn member_name() -> spec_fn((Seq<char>, MemberView)) -> Seq<char> {
    |member: (Seq<char>, MemberView)| member.0
}

/// The enabled modules are the names of all members that are the flag `true`, in
/// their order.
pub proof fn every_true_member_is_enabled(members: Seq<(Seq<char>, MemberView)>)
    ensures
        switched_on(members) == members.filter(is_true()).map_values(member_name()),
    decreases members.len(),
{
    reveal(Seq::filter);
    if members.len() == 0 {
        assert(switched_on(members) =~= members.filter(is_true()).map_values(member_name()));
    } else {
        let init = members.drop_last();
        let last = members.last();
        every_true_member_is_enabled(init);
        let kept = init.filter(is_true());
        assert(kept.push(last).map_values(member_name()) =~= kept.map_values(member_name()).push(
            last.0,
        ));
    }
}

/// Errors name what they are about, and only a failed listing has a cause.
pub proof fn errors_name_their_subject(error: Error)
    ensures
        error matches Error::Unlistable { path, reason } ==> text::contains_text(error.text(), path@)
            && error.causes() == seq![reason@],
        error matches Error::WorldNotFound { id } ==> text::contains_text(error.text(), id@)
            && error.causes().len() == 0,
{
    match error {
        Error::Unlistable { path, reason } => {
            text::texts_contain_their_middle("could not list "@, path@, Seq::empty());
        },
        Error::WorldNotFound { id } => {
            text::texts_contain_their_middle("world '"@, id@, "' was not found"@);
        },
    }
}

} // verus!
