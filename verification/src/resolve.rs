//! Recursive dependency resolution for installs and updates.
//!
//! `FoundryVTT` dependencies are unversioned (effectively `latest`) and live
//! in package **manifests**, not the index. Resolution therefore walks
//! manifests: hard requirements are installed automatically, recommendations
//! are gathered for one consolidated prompt, and a module's system requirement
//! (from the index `systems` field) is included when it is unambiguous.
//!
//! Resolution runs in two passes so a package can never end up in the
//! optional bucket when something hard-requires it: first the closure over
//! hard requirements from the requested packages, then the closure of the
//! recommendations collected along the way.
//!
//! The walk itself does no I/O. It is handed the replies of the package hosts
//! that are known so far and either finishes or names the one package whose
//! reply it needs next.

use std::collections::VecDeque;
use vstd::prelude::*;
use crate::api::types;
use crate::api::types::{DependencyRef, Key, Package, RemoteManifest};
use crate::foundry::PackageType;
use crate::foundry::local::VersionField;
use crate::index::Snapshot;
use crate::install::{self, Job, JobView};
use crate::text;

verus! {

/// The package indexes for both package types.
#[derive(Debug)]
pub struct Indexes {
    /// The module index.
    pub module: Snapshot,
    /// The system index.
    pub system: Snapshot,
}

impl Indexes {
    /// The snapshot for one package type.
    pub open spec fn of(&self, kind: PackageType) -> Snapshot {
        match kind {
            PackageType::Module => self.module,
            PackageType::System => self.system,
        }
    }

    /// The snapshot for one package type.
    #[must_use]
    pub fn get(&self, kind: PackageType) -> (snapshot: &Snapshot)
        ensures
            *snapshot == self.of(kind),
    {
        match kind {
            PackageType::Module => &self.module,
            PackageType::System => &self.system,
        }
    }
}

/// The ids of everything already installed, per package type.
#[derive(Debug)]
pub struct InstalledSets {
    /// Installed module ids.
    pub modules: Vec<String>,
    /// Installed system ids.
    pub systems: Vec<String>,
}

impl Default for InstalledSets {
    fn default() -> (sets: Self)
        ensures
            sets.modules@ == Seq::<String>::empty(),
            sets.systems@ == Seq::<String>::empty(),
    {
        InstalledSets { modules: Vec::new(), systems: Vec::new() }
    }
}

impl InstalledSets {
    /// Whether a package is installed.
    pub open spec fn has(&self, key: Key) -> bool {
        match key.0 {
            PackageType::Module => text::lists(self.modules@, key.1),
            PackageType::System => text::lists(self.systems@, key.1),
        }
    }

    /// Whether a package of the given type is installed.
    #[must_use]
    pub fn contains(&self, kind: PackageType, id: &str) -> (installed: bool)
        ensures
            installed == self.has((kind, id@)),
    {
        match kind {
            PackageType::Module => text::holds(&self.modules, id),
            PackageType::System => text::holds(&self.systems, id),
        }
    }
}

/// The outcome of dependency resolution: everything needed to run the
/// install, plus what went wrong along the way.
#[derive(Debug)]
pub struct Plan {
    /// Jobs for the explicitly requested packages.
    pub requested: Vec<Job>,
    /// Jobs for missing hard dependencies (installed automatically).
    pub required: Vec<Job>,
    /// Jobs for missing recommended packages (subject to one prompt).
    pub recommended: Vec<Job>,
    /// Dependency-level problems that were skipped (unknown packages,
    /// unowned protected dependencies, unreadable manifests).
    pub warnings: Vec<String>,
    /// Requested-package failures: `(name, reason)`.
    pub failures: Vec<(String, String)>,
}

impl Default for Plan {
    fn default() -> (plan: Self)
        ensures
            plan@ == PlanView::empty(),
    {
        let plan = Plan {
            requested: Vec::new(),
            required: Vec::new(),
            recommended: Vec::new(),
            warnings: Vec::new(),
            failures: Vec::new(),
        };
        assert(plan@ =~= PlanView::empty());
        plan
    }
}

/// A plan, as text.
#[verifier::ext_equal]
pub struct PlanView {
    /// Jobs for the explicitly requested packages.
    pub requested: Seq<JobView>,
    /// Jobs for missing hard dependencies.
    pub required: Seq<JobView>,
    /// Jobs for missing recommended packages.
    pub recommended: Seq<JobView>,
    /// Dependency-level problems that were skipped.
    pub warnings: Seq<Seq<char>>,
    /// Requested-package failures.
    pub failures: Seq<(Seq<char>, Seq<char>)>,
}

impl PlanView {
    /// The plan with nothing in it.
    pub open spec fn empty() -> PlanView {
        PlanView {
            requested: Seq::empty(),
            required: Seq::empty(),
            recommended: Seq::empty(),
            warnings: Seq::empty(),
            failures: Seq::empty(),
        }
    }

    /// Every job of the plan.
    pub open spec fn jobs(self) -> Seq<JobView> {
        self.requested + self.required + self.recommended
    }
}

impl View for Plan {
    type V = PlanView;

    open spec fn view(&self) -> PlanView {
        PlanView {
            requested: install::job_views(self.requested@),
            required: install::job_views(self.required@),
            recommended: install::job_views(self.recommended@),
            warnings: text::views(self.warnings@),
            failures: text::pair_views(self.failures@),
        }
    }
}

/// What the package hosts answered about one package.
#[derive(Debug)]
pub struct Reply {
    /// The package type asked about.
    pub kind: PackageType,
    /// The package asked about.
    pub name: String,
    /// The package manifest, or why it could not be fetched.
    pub manifest: Result<RemoteManifest, String>,
    /// The signed download URL of a protected package, or why it was refused.
    /// Free packages take their URL from the manifest instead.
    pub download: Result<String, String>,
}

impl Reply {
    /// The package the reply is about.
    pub open spec fn key(&self) -> Key {
        (self.kind, self.name@)
    }
}

/// The first reply about a package.
pub open spec fn reply_for(replies: Seq<Reply>, key: Key) -> Option<Reply>
    decreases replies.len(),
{
    if replies.len() == 0 {
        None
    } else if replies[0].key() == key {
        Some(replies[0])
    } else {
        reply_for(replies.drop_first(), key)
    }
}

/// Finds the first reply about a package.
fn find_reply<'a>(replies: &'a Vec<Reply>, kind: PackageType, name: &str) -> (found: Option<
    &'a Reply,
>)
    ensures
        match found {
            Some(reply) => reply_for(replies@, (kind, name@)) == Some(*reply),
            None => reply_for(replies@, (kind, name@)) is None,
        },
{
    let mut i: usize = 0;
    assert(replies@.skip(0) =~= replies@);
    while i < replies.len()
        invariant
            0 <= i <= replies@.len(),
            reply_for(replies@, (kind, name@)) == reply_for(replies@.skip(i as int), (kind, name@)),
        decreases replies@.len() - i,
    {
        assert(replies@.skip(i as int)[0] == replies@[i as int]);
        assert(replies@.skip(i as int).drop_first() =~= replies@.skip(i + 1));
        if replies[i].kind == kind && text::same(replies[i].name.as_str(), name) {
            return Some(&replies[i]);
        }
        i = i + 1;
    }
    None
}

/// One resolved node: its installable job and outgoing dependency edges.
#[derive(Debug)]
pub struct Node {
    /// The installable job for this package.
    pub job: Job,
    /// Hard dependencies.
    pub needs: Vec<DependencyRef>,
    /// Recommended companions.
    pub suggests: Vec<DependencyRef>,
}

/// A node, as text.
pub struct NodeView {
    /// The installable job for this package.
    pub job: JobView,
    /// Hard dependencies.
    pub needs: Seq<Key>,
    /// Recommended companions.
    pub suggests: Seq<Key>,
}

impl View for Node {
    type V = NodeView;

    open spec fn view(&self) -> NodeView {
        NodeView { job: self.job@, needs: types::keys(self.needs@), suggests: types::keys(self.suggests@) }
    }
}

/// The package behind a name, if the index lists it and this license may
/// install it; otherwise the reason why not.
pub open spec fn installable(indexes: Indexes, key: Key) -> Result<Package, Seq<char>> {
    let snapshot = indexes.of(key.0);
    match types::first_named(snapshot.packages@, key.1) {
        None => Err("not found in the index"@),
        Some(package) => if package.is_protected && !snapshot.owns(package.id) {
            Err("protected; purchase required"@)
        } else {
            Ok(package)
        },
    }
}

/// The edges a reply contributes: those of its manifest, when it was read.
pub open spec fn edges(reply: Reply) -> (Seq<Key>, Seq<Key>) {
    match reply.manifest {
        Ok(manifest) => (types::keys(manifest.needs@), types::keys(manifest.suggests@)),
        Err(_) => (Seq::empty(), Seq::empty()),
    }
}

/// The job for an installable package, given the hosts' reply.
pub open spec fn resolved_job(kind: PackageType, package: Package, reply: Reply) -> Result<
    JobView,
    Seq<char>,
> {
    if package.is_protected {
        match reply.download {
            Err(error) => Err("protected download authorization failed: "@ + error@),
            Ok(url) => Ok(
                JobView {
                    kind,
                    name: package.name@,
                    version: package.version.version@,
                    download_url: url@,
                    protected: true,
                },
            ),
        }
    } else {
        match reply.manifest {
            Err(error) => Err("manifest fetch failed: "@ + error@),
            Ok(manifest) => free_job(kind, package, manifest),
        }
    }
}

/// The job for a free package, given its manifest.
pub open spec fn free_job(kind: PackageType, package: Package, manifest: RemoteManifest) -> Result<
    JobView,
    Seq<char>,
> {
    match manifest.download {
        None => Err("the manifest declares no download URL"@),
        Some(url) => match manifest.id_text() {
            Some(id) if id != package.name@ => Err(
                "the manifest belongs to `"@ + id + "`, not `"@ + package.name@ + "`"@,
            ),
            _ => Ok(
                JobView {
                    kind,
                    name: package.name@,
                    version: match manifest.version_text() {
                        Some(version) => version,
                        None => package.version.version@,
                    },
                    download_url: url@,
                    protected: false,
                },
            ),
        },
    }
}

/// The node of a package, given the hosts' reply.
pub open spec fn node_of(indexes: Indexes, key: Key, reply: Reply) -> Result<NodeView, Seq<char>> {
    match installable(indexes, key) {
        Err(reason) => Err(reason),
        Ok(package) => match resolved_job(key.0, package, reply) {
            Err(reason) => Err(reason),
            Ok(job) => Ok(NodeView { job, needs: edges(reply).0, suggests: edges(reply).1 }),
        },
    }
}

/// Looks a package up in the index and checks that this license may install
/// it.
///
/// # Errors
///
/// Returns a human-readable reason when the package is unknown or protected
/// and not purchased.
pub fn locate<'a>(indexes: &'a Indexes, kind: PackageType, name: &str) -> (located: Result<
    &'a Package,
    String,
>)
    ensures
        match located {
            Ok(package) => installable(*indexes, (kind, name@)) == Ok::<Package, Seq<char>>(
                *package,
            ),
            Err(reason) => installable(*indexes, (kind, name@)) == Err::<Package, Seq<char>>(
                reason@,
            ),
        },
{
    let snapshot = indexes.get(kind);
    match types::find(&snapshot.packages, name) {
        None => Err("not found in the index".to_owned()),
        Some(package) => {
            if package.is_protected && !snapshot.is_owned(package.id) {
                Err("protected; purchase required".to_owned())
            } else {
                Ok(package)
            }
        },
    }
}

/// Builds the job for a free package from its manifest.
///
/// # Errors
///
/// Returns a human-readable reason when the manifest declares no download URL
/// or belongs to a different package.
pub fn job_from_manifest(
    kind: PackageType,
    package: &Package,
    manifest: &RemoteManifest,
) -> (resolved: Result<Job, String>)
    ensures
        match resolved {
            Ok(job) => free_job(kind, *package, *manifest) == Ok::<JobView, Seq<char>>(job@),
            Err(reason) => free_job(kind, *package, *manifest) == Err::<JobView, Seq<char>>(
                reason@,
            ),
        },
{
    let download_url = match &manifest.download {
        None => return Err("the manifest declares no download URL".to_owned()),
        Some(url) => url.clone(),
    };
    if let Some(id) = manifest.id() {
        if !text::same(id.as_str(), package.name.as_str()) {
            let mut reason = "the manifest belongs to `".to_owned();
            reason.append(id.as_str());
            reason.append("`, not `");
            reason.append(package.name.as_str());
            reason.append("`");
            return Err(reason);
        }
    }
    let version = match manifest.version() {
        Some(version) => version,
        None => package.version.version.clone(),
    };
    Ok(Job { kind, name: package.name.clone(), version, download_url, protected: false })
}

/// Copies a list of dependencies.
fn copy_edges(edges: &Vec<DependencyRef>) -> (copy: Vec<DependencyRef>)
    ensures
        types::keys(copy@) == types::keys(edges@),
{
    let mut copy: Vec<DependencyRef> = Vec::new();
    let mut i: usize = 0;
    while i < edges.len()
        invariant
            0 <= i <= edges@.len(),
            types::keys(copy@) == types::keys(edges@).take(i as int),
        decreases edges@.len() - i,
    {
        let ghost shorter = copy@;
        copy.push(edges[i].duplicate());
        assert(types::keys(copy@) =~= types::keys(shorter).push(edges@[i as int].key()));
        assert(types::keys(copy@) =~= types::keys(edges@).take(i + 1));
        i = i + 1;
    }
    assert(types::keys(edges@).take(i as int) =~= types::keys(edges@));
    copy
}

/// Resolves one package into a node: its download job plus dependency edges.
///
/// Free packages get both from their manifest; protected packages get a
/// signed URL from the auth endpoint and a best-effort manifest read for
/// dependencies (protected manifests are usually public even when the
/// download is not).
///
/// # Errors
///
/// Returns a human-readable reason when the package cannot be installed.
pub fn resolve_node(indexes: &Indexes, kind: PackageType, name: &str, reply: &Reply) -> (node: Result<
    Node,
    String,
>)
    ensures
        match node {
            Ok(resolved) => node_of(*indexes, (kind, name@), *reply) == Ok::<NodeView, Seq<char>>(
                resolved@,
            ),
            Err(reason) => node_of(*indexes, (kind, name@), *reply) == Err::<NodeView, Seq<char>>(
                reason@,
            ),
        },
{
    let package = match locate(indexes, kind, name) {
        Ok(package) => package,
        Err(reason) => return Err(reason),
    };
    let job = if package.is_protected {
        match &reply.download {
            Err(error) => {
                let mut reason = "protected download authorization failed: ".to_owned();
                reason.append(error.as_str());
                return Err(reason);
            },
            Ok(url) => Job {
                kind,
                name: package.name.clone(),
                version: package.version.version.clone(),
                download_url: url.clone(),
                protected: true,
            },
        }
    } else {
        match &reply.manifest {
            Err(error) => {
                let mut reason = "manifest fetch failed: ".to_owned();
                reason.append(error.as_str());
                return Err(reason);
            },
            Ok(manifest) => match job_from_manifest(kind, package, manifest) {
                Ok(job) => job,
                Err(reason) => return Err(reason),
            },
        }
    };
    let (needs, suggests) = match &reply.manifest {
        Ok(manifest) => (copy_edges(&manifest.needs), copy_edges(&manifest.suggests)),
        Err(_) => {
            let none: Vec<DependencyRef> = Vec::new();
            let neither: Vec<DependencyRef> = Vec::new();
            assert(types::keys(none@) =~= Seq::empty());
            assert(types::keys(neither@) =~= Seq::empty());
            (none, neither)
        },
    };
    Ok(Node { job, needs, suggests })
}

// ---------------------------------------------------------------------------
// The walk
// ---------------------------------------------------------------------------

/// Everything a walk depends on.
pub struct Setting {
    /// The package indexes.
    pub indexes: Indexes,
    /// What is already installed.
    pub installed: InstalledSets,
    /// The replies known so far.
    pub replies: Seq<Reply>,
    /// Whether recommendations are followed.
    pub include_recommends: bool,
}

impl Setting {
    /// What is known about a package: its node or the reason why it cannot be
    /// installed, or nothing while the hosts' reply is outstanding.
    pub open spec fn outcome(self, key: Key) -> Option<Result<NodeView, Seq<char>>> {
        match installable(self.indexes, key) {
            Err(reason) => Some(Err(reason)),
            Ok(_) => match reply_for(self.replies, key) {
                None => None,
                Some(reply) => Some(node_of(self.indexes, key, reply)),
            },
        }
    }

    /// Whether a package is known to be installable, and with which node.
    pub open spec fn node(self, key: Key) -> Option<NodeView> {
        match self.outcome(key) {
            Some(Ok(node)) => Some(node),
            _ => None,
        }
    }
}

/// The two passes of a resolution.
#[derive(Clone, Copy, Debug, Eq, PartialEq, Structural)]
pub enum Pass {
    /// The requested packages and the closure of their hard requirements.
    Hard,
    /// The recommendations and the closure of *their* hard requirements.
    Optional,
}

/// A package waiting to be visited.
#[derive(Debug)]
pub struct Item {
    /// The package type.
    pub kind: PackageType,
    /// The package name.
    pub name: String,
    /// Whether it was requested explicitly.
    pub requested: bool,
}

/// A waiting package, as text.
pub struct ItemView {
    /// The package.
    pub key: Key,
    /// Whether it was requested explicitly.
    pub requested: bool,
}

impl View for Item {
    type V = ItemView;

    open spec fn view(&self) -> ItemView {
        ItemView { key: (self.kind, self.name@), requested: self.requested }
    }
}

/// The state of a walk.
#[derive(Debug)]
struct Walk {
    /// The packages still to be visited, in order.
    queue: VecDeque<Item>,
    /// The packages visited so far.
    visited: Vec<DependencyRef>,
    /// The recommendations collected so far.
    suggestions: Vec<DependencyRef>,
    /// The plan so far.
    plan: Plan,
}

/// The state of a walk, as text.
#[verifier::ext_equal]
pub struct WalkView {
    /// The packages still to be visited, in order.
    pub queue: Seq<ItemView>,
    /// The packages visited so far.
    pub visited: Seq<Key>,
    /// The recommendations collected so far.
    pub suggestions: Seq<Key>,
    /// The plan so far.
    pub plan: PlanView,
}

/// The views of a list of waiting packages.
pub open spec fn item_views(items: Seq<Item>) -> Seq<ItemView> {
    items.map_values(|item: Item| item@)
}

impl View for Walk {
    type V = WalkView;

    closed spec fn view(&self) -> WalkView {
        WalkView {
            queue: item_views(self.queue@),
            visited: types::keys(self.visited@),
            suggestions: types::keys(self.suggestions@),
            plan: self.plan@,
        }
    }
}

/// Whether a package is waiting.
pub open spec fn queued(queue: Seq<ItemView>, key: Key) -> bool {
    exists|i: int| 0 <= i < queue.len() && (#[trigger] queue[i]).key == key
}

/// The hard requirements that are neither installed nor visited yet.
pub open spec fn missing(installed: InstalledSets, visited: Seq<Key>, needs: Seq<Key>) -> Seq<
    ItemView,
>
    decreases needs.len(),
{
    if needs.len() == 0 {
        Seq::empty()
    } else {
        let init = missing(installed, visited, needs.drop_last());
        if installed.has(needs.last()) || visited.contains(needs.last()) {
            init
        } else {
            init.push(ItemView { key: needs.last(), requested: false })
        }
    }
}

/// The systems a module is listed for.
pub open spec fn systems_of(indexes: Indexes, name: Seq<char>) -> Seq<Seq<char>> {
    match types::first_named(indexes.module.packages@, name) {
        Some(package) => text::views(package.systems@),
        None => Seq::empty(),
    }
}

/// Whether a system is installed or on its way.
pub open spec fn covered(
    installed: InstalledSets,
    visited: Seq<Key>,
    queue: Seq<ItemView>,
    system: Seq<char>,
) -> bool {
    let key = (PackageType::System, system);
    installed.has(key) || visited.contains(key) || queued(queue, key)
}

/// Whether a system requirement is met: it is empty, or one of the systems is
/// installed or on its way.
pub open spec fn satisfied(
    installed: InstalledSets,
    visited: Seq<Key>,
    queue: Seq<ItemView>,
    systems: Seq<Seq<char>>,
) -> bool {
    systems.len() == 0 || exists|i: int|
        0 <= i < systems.len() && covered(installed, visited, queue, #[trigger] systems[i])
}

/// The warning about a requirement that several systems could meet.
pub open spec fn ambiguous_warning(name: Seq<char>, systems: Seq<Seq<char>>) -> Seq<char> {
    "`"@ + name + "` requires one of the systems ["@ + text::joined(systems, ", "@)
        + "], none of which is installed"@
}

/// The walk after a node's missing hard dependencies, including its
/// unambiguous system requirement, have been queued.
pub open spec fn with_requirements(setting: Setting, walk: WalkView, node: NodeView) -> WalkView {
    let queue = walk.queue + missing(setting.installed, walk.visited, node.needs);
    let direct = WalkView { queue, ..walk };
    let systems = systems_of(setting.indexes, node.job.name);
    if node.job.kind != PackageType::Module || satisfied(
        setting.installed,
        walk.visited,
        queue,
        systems,
    ) {
        direct
    } else if systems.len() == 1 {
        WalkView {
            queue: queue.push(
                ItemView { key: (PackageType::System, systems[0]), requested: false },
            ),
            ..walk
        }
    } else {
        WalkView {
            plan: PlanView {
                warnings: walk.plan.warnings.push(ambiguous_warning(node.job.name, systems)),
                ..walk.plan
            },
            ..direct
        }
    }
}

/// The plan after a package could not be resolved.
pub open spec fn blamed(pass: Pass, item: ItemView, reason: Seq<char>, plan: PlanView) -> PlanView {
    match pass {
        Pass::Hard => if item.requested {
            PlanView { failures: plan.failures.push((item.key.1, reason)), ..plan }
        } else {
            PlanView {
                warnings: plan.warnings.push(
                    "skipping dependency `"@ + item.key.1 + "`: "@ + reason,
                ),
                ..plan
            }
        },
        Pass::Optional => PlanView {
            warnings: plan.warnings.push(
                "skipping recommended `"@ + item.key.1 + "`: "@ + reason,
            ),
            ..plan
        },
    }
}

/// The plan after a package was resolved.
pub open spec fn filed(pass: Pass, item: ItemView, job: JobView, plan: PlanView) -> PlanView {
    match pass {
        Pass::Hard => if item.requested {
            PlanView { requested: plan.requested.push(job), ..plan }
        } else {
            PlanView { required: plan.required.push(job), ..plan }
        },
        Pass::Optional => PlanView { recommended: plan.recommended.push(job), ..plan },
    }
}

/// The walk after its first waiting package has been visited, or nothing
/// while the reply about that package is outstanding.
pub open spec fn step(setting: Setting, pass: Pass, walk: WalkView) -> Option<WalkView> {
    let item = walk.queue[0];
    let rest = WalkView { queue: walk.queue.drop_first(), ..walk };
    if walk.visited.contains(item.key) {
        Some(rest)
    } else {
        let seen = WalkView { visited: walk.visited.push(item.key), ..rest };
        match setting.outcome(item.key) {
            None => None,
            Some(Err(reason)) => Some(
                WalkView { plan: blamed(pass, item, reason, walk.plan), ..seen },
            ),
            Some(Ok(node)) => {
                let wider = with_requirements(setting, seen, node);
                Some(
                    WalkView {
                        suggestions: if pass is Hard && setting.include_recommends {
                            walk.suggestions + node.suggests
                        } else {
                            walk.suggestions
                        },
                        plan: filed(pass, item, node.job, wider.plan),
                        ..wider
                    },
                )
            },
        }
    }
}

/// How many replies are about packages that have not been visited.
pub open spec fn unused_replies(replies: Seq<Reply>, visited: Seq<Key>) -> nat
    decreases replies.len(),
{
    if replies.len() == 0 {
        0
    } else {
        unused_replies(replies.drop_first(), visited) + if visited.contains(replies[0].key()) {
            0nat
        } else {
            1nat
        }
    }
}

/// Visiting a package uses up the replies about it, and no others.
proof fn visiting_uses_replies(replies: Seq<Reply>, visited: Seq<Key>, key: Key)
    requires
        !visited.contains(key),
    ensures
        unused_replies(replies, visited.push(key)) <= unused_replies(replies, visited),
        reply_for(replies, key) is Some ==> unused_replies(replies, visited.push(key))
            < unused_replies(replies, visited),
    decreases replies.len(),
{
    if replies.len() > 0 {
        visiting_uses_replies(replies.drop_first(), visited, key);
        let longer = visited.push(key);
        let first = replies[0].key();
        assert(longer.contains(first) == (visited.contains(first) || first == key)) by {
            if visited.contains(first) {
                let i = choose|i: int| 0 <= i < visited.len() && visited[i] == first;
                assert(longer[i] == first);
            }
            if first == key {
                assert(longer[visited.len() as int] == first);
            }
        }
    }
}

/// How a run of the walk ends.
pub enum RunView {
    /// The reply about this package is outstanding.
    Ask(Key),
    /// Nothing is waiting any more.
    Done(WalkView),
}

/// The walk until nothing is waiting or a reply is missing.
pub open spec fn run(setting: Setting, pass: Pass, walk: WalkView) -> RunView
    decreases unused_replies(setting.replies, walk.visited), walk.queue.len(),
    via run_terminates
{
    if walk.queue.len() == 0 {
        RunView::Done(walk)
    } else {
        match step(setting, pass, walk) {
            None => RunView::Ask(walk.queue[0].key),
            Some(next) => run(setting, pass, next),
        }
    }
}

/// Each step uses up a reply or shortens the queue.
proof fn steps_shrink(setting: Setting, pass: Pass, walk: WalkView)
    requires
        walk.queue.len() > 0,
        step(setting, pass, walk) is Some,
    ensures
        ({
            let next = step(setting, pass, walk)->0;
            let used = unused_replies(setting.replies, next.visited);
            let unused = unused_replies(setting.replies, walk.visited);
            used < unused || (used == unused && next.queue.len() < walk.queue.len())
        }),
{
    let key = walk.queue[0].key;
    if !walk.visited.contains(key) {
        visiting_uses_replies(setting.replies, walk.visited, key);
    }
}

#[via_fn]
proof fn run_terminates(setting: Setting, pass: Pass, walk: WalkView) {
    if walk.queue.len() > 0 && step(setting, pass, walk) is Some {
        steps_shrink(setting, pass, walk);
    }
}

/// A walk that has just begun: the requested packages are waiting.
pub open spec fn beginning(kind: PackageType, names: Seq<Seq<char>>) -> WalkView {
    WalkView {
        queue: names.map_values(|name: Seq<char>| ItemView { key: (kind, name), requested: true }),
        visited: Seq::empty(),
        suggestions: Seq::empty(),
        plan: PlanView::empty(),
    }
}

/// The second pass after the first: the recommendations that are not
/// installed are waiting.
pub open spec fn continued(installed: InstalledSets, walk: WalkView) -> WalkView {
    WalkView {
        queue: missing(installed, Seq::empty(), walk.suggestions),
        suggestions: Seq::empty(),
        ..walk
    }
}

/// How a resolution ends.
pub enum OutcomeView {
    /// The reply about this package is outstanding.
    Ask(Key),
    /// The full plan.
    Ready(PlanView),
}

/// The result of resolving the named packages.
pub open spec fn resolution(setting: Setting, kind: PackageType, names: Seq<Seq<char>>) -> OutcomeView {
    match run(setting, Pass::Hard, beginning(kind, names)) {
        RunView::Ask(key) => OutcomeView::Ask(key),
        RunView::Done(first) => match run(
            setting,
            Pass::Optional,
            continued(setting.installed, first),
        ) {
            RunView::Ask(key) => OutcomeView::Ask(key),
            RunView::Done(second) => OutcomeView::Ready(second.plan),
        },
    }
}

/// Whether a list of packages holds one.
fn has_visited(visited: &Vec<DependencyRef>, kind: PackageType, name: &str) -> (found: bool)
    ensures
        found == types::keys(visited@).contains((kind, name@)),
{
    let mut i: usize = 0;
    while i < visited.len()
        invariant
            0 <= i <= visited@.len(),
            forall|j: int| 0 <= j < i ==> #[trigger] types::keys(visited@)[j] != (kind, name@),
        decreases visited@.len() - i,
    {
        assert(types::keys(visited@)[i as int] == visited@[i as int].key());
        if visited[i].kind == kind && text::same(visited[i].id.as_str(), name) {
            return true;
        }
        i = i + 1;
    }
    false
}

/// Whether a package is waiting.
fn is_queued(queue: &VecDeque<Item>, kind: PackageType, name: &str) -> (found: bool)
    ensures
        found == queued(item_views(queue@), (kind, name@)),
{
    let mut i: usize = 0;
    while i < queue.len()
        invariant
            0 <= i <= queue@.len(),
            forall|j: int| 0 <= j < i ==> (#[trigger] item_views(queue@)[j]).key != (kind, name@),
        decreases queue@.len() - i,
    {
        assert(item_views(queue@)[i as int] == queue@[i as int]@);
        if queue[i].kind == kind && text::same(queue[i].name.as_str(), name) {
            return true;
        }
        i = i + 1;
    }
    false
}

/// Queues those of `needs` that are neither installed nor visited.
fn enqueue_missing(
    installed: &InstalledSets,
    visited: &Vec<DependencyRef>,
    needs: &Vec<DependencyRef>,
    queue: &mut VecDeque<Item>,
)
    ensures
        item_views(final(queue)@) == item_views(old(queue)@) + missing(
            *installed,
            types::keys(visited@),
            types::keys(needs@),
        ),
{
    let mut i: usize = 0;
    let ghost all = types::keys(needs@);
    let ghost start = item_views(queue@);
    assert(all.take(0) =~= Seq::empty());
    assert(start + Seq::<ItemView>::empty() =~= start);
    while i < needs.len()
        invariant
            all == types::keys(needs@),
            0 <= i <= needs@.len(),
            item_views(queue@) == start + missing(*installed, types::keys(visited@), all.take(i as int)),
        decreases needs@.len() - i,
    {
        let ghost waiting = item_views(queue@);
        assert(all.take(i + 1).drop_last() =~= all.take(i as int));
        assert(all.take(i + 1).last() == needs@[i as int].key());
        let kind = needs[i].kind;
        if !installed.contains(kind, needs[i].id.as_str()) && !has_visited(
            visited,
            kind,
            needs[i].id.as_str(),
        ) {
            let item = Item { kind, name: needs[i].id.clone(), requested: false };
            let ghost added = item@;
            queue.push_back(item);
            assert(item_views(queue@) =~= waiting.push(added));
            assert(waiting.push(added) =~= start + missing(
                *installed,
                types::keys(visited@),
                all.take(i as int),
            ).push(added));
        }
        i = i + 1;
    }
    assert(all.take(i as int) =~= all);
}

/// Whether one of `systems` is installed or on its way, or there is none.
fn system_is_satisfied(
    installed: &InstalledSets,
    visited: &Vec<DependencyRef>,
    queue: &VecDeque<Item>,
    systems: &Vec<String>,
) -> (met: bool)
    ensures
        met == satisfied(*installed, types::keys(visited@), item_views(queue@), text::views(systems@)),
{
    let mut i: usize = 0;
    while i < systems.len()
        invariant
            0 <= i <= systems@.len(),
            forall|j: int|
                0 <= j < i ==> !covered(
                    *installed,
                    types::keys(visited@),
                    item_views(queue@),
                    #[trigger] text::views(systems@)[j],
                ),
        decreases systems@.len() - i,
    {
        assert(text::views(systems@)[i as int] == systems@[i as int]@);
        let system = systems[i].as_str();
        if installed.contains(PackageType::System, system) || has_visited(
            visited,
            PackageType::System,
            system,
        ) || is_queued(queue, PackageType::System, system) {
            return true;
        }
        i = i + 1;
    }
    systems.len() == 0
}

/// Queues a node's missing hard dependencies, including its (unambiguous)
/// system requirement.
///
/// The index `systems` field is a module's system requirement. With a single
/// entry it is unambiguous and treated as a hard dependency; with several, any
/// one of them satisfies it, so it is only reported.
fn enqueue_requirements(
    node: &Node,
    indexes: &Indexes,
    installed: &InstalledSets,
    walk: &mut Walk,
    Ghost(setting): Ghost<Setting>,
)
    requires
        setting.indexes == *indexes,
        setting.installed == *installed,
    ensures
        final(walk)@ == with_requirements(setting, old(walk)@, node@),
{
    let ghost start = walk@;
    enqueue_missing(installed, &walk.visited, &node.needs, &mut walk.queue);
    let ghost direct = walk@;
    assert(direct =~= WalkView {
        queue: start.queue + missing(setting.installed, start.visited, node@.needs),
        ..start
    });
    if node.job.kind == PackageType::Module {
        if let Some(package) = types::find(&indexes.module.packages, node.job.name.as_str()) {
            if system_is_satisfied(installed, &walk.visited, &walk.queue, &package.systems) {
                return;
            }
            if package.systems.len() == 1 {
                let only = Item {
                    kind: PackageType::System,
                    name: package.systems[0].clone(),
                    requested: false,
                };
                let ghost added = only@;
                walk.queue.push_back(only);
                assert(walk@.queue =~= direct.queue.push(added));
                assert(walk@ =~= with_requirements(setting, start, node@));
            } else {
                let mut warning = "`".to_owned();
                warning.append(node.job.name.as_str());
                warning.append("` requires one of the systems [");
                let names = text::join(&package.systems, ", ");
                warning.append(names.as_str());
                warning.append("], none of which is installed");
                let ghost added = warning@;
                walk.plan.warnings.push(warning);
                assert(walk@.plan.warnings =~= direct.plan.warnings.push(added));
                assert(walk@ =~= with_requirements(setting, start, node@));
            }
        }
    }
}

/// A package whose reply the resolution waits for.
#[derive(Debug)]
pub struct Question {
    /// The package type.
    pub kind: PackageType,
    /// The package name.
    pub name: String,
}

impl Question {
    /// The package asked about.
    pub open spec fn key(&self) -> Key {
        (self.kind, self.name@)
    }
}

/// Visits the first waiting package, or returns it when the reply about it is
/// outstanding.
fn advance(
    indexes: &Indexes,
    installed: &InstalledSets,
    replies: &Vec<Reply>,
    include_recommends: bool,
    pass: Pass,
    walk: &mut Walk,
) -> (question: Option<Question>)
    requires
        old(walk)@.queue.len() > 0,
    ensures
        ({
            let setting = Setting {
                indexes: *indexes,
                installed: *installed,
                replies: replies@,
                include_recommends,
            };
            match question {
                None => step(setting, pass, old(walk)@) == Some(final(walk)@),
                Some(asked) => step(setting, pass, old(walk)@) is None && asked.key() == old(
                    walk,
                )@.queue[0].key && installable(*indexes, asked.key()) is Ok,
            }
        }),
{
    let ghost setting = Setting {
        indexes: *indexes,
        installed: *installed,
        replies: replies@,
        include_recommends,
    };
    let ghost start = walk@;
    let item = match walk.queue.pop_front() {
        Some(item) => item,
        None => return None,
    };
    assert(item@ == start.queue[0]);
    assert(walk@.queue =~= start.queue.drop_first());
    assert(walk@ =~= WalkView { queue: start.queue.drop_first(), ..start });
    if has_visited(&walk.visited, item.kind, item.name.as_str()) {
        return None;
    }
    let ghost key = item@.key;
    let resolved = match locate(indexes, item.kind, item.name.as_str()) {
        Err(reason) => Err(reason),
        Ok(_) => match find_reply(replies, item.kind, item.name.as_str()) {
            None => return Some(Question { kind: item.kind, name: item.name }),
            Some(reply) => resolve_node(indexes, item.kind, item.name.as_str(), reply),
        },
    };
    let visited = DependencyRef { kind: item.kind, id: item.name.clone() };
    walk.visited.push(visited);
    let ghost seen = walk@;
    assert(seen.visited =~= start.visited.push(key));
    assert(seen =~= WalkView {
        visited: start.visited.push(key),
        queue: start.queue.drop_first(),
        ..start
    });
    match resolved {
        Err(reason) => {
            match pass {
                Pass::Hard => {
                    if item.requested {
                        let ghost added = (item.name@, reason@);
                        walk.plan.failures.push((item.name, reason));
                        assert(walk@.plan.failures =~= seen.plan.failures.push(added));
                    } else {
                        let mut warning = "skipping dependency `".to_owned();
                        warning.append(item.name.as_str());
                        warning.append("`: ");
                        warning.append(reason.as_str());
                        let ghost added = warning@;
                        walk.plan.warnings.push(warning);
                        assert(walk@.plan.warnings =~= seen.plan.warnings.push(added));
                    }
                },
                Pass::Optional => {
                    let mut warning = "skipping recommended `".to_owned();
                    warning.append(item.name.as_str());
                    warning.append("`: ");
                    warning.append(reason.as_str());
                    let ghost added = warning@;
                    walk.plan.warnings.push(warning);
                    assert(walk@.plan.warnings =~= seen.plan.warnings.push(added));
                },
            }
            assert(Some(walk@) =~= step(setting, pass, start));
        },
        Ok(node) => {
            enqueue_requirements(&node, indexes, installed, walk, Ghost(setting));
            let ghost wider = walk@;
            if pass == Pass::Hard && include_recommends {
                add_suggestions(&node.suggests, &mut walk.suggestions);
            }
            let ghost suggested = walk@;
            let ghost job = node.job@;
            match pass {
                Pass::Hard => {
                    if item.requested {
                        walk.plan.requested.push(node.job);
                        assert(walk@.plan.requested =~= wider.plan.requested.push(job));
                    } else {
                        walk.plan.required.push(node.job);
                        assert(walk@.plan.required =~= wider.plan.required.push(job));
                    }
                },
                Pass::Optional => {
                    walk.plan.recommended.push(node.job);
                    assert(walk@.plan.recommended =~= wider.plan.recommended.push(job));
                },
            }
            assert(Some(walk@) =~= step(setting, pass, start));
        },
    }
    None
}

/// Appends a copy of `more` to the recommendations.
fn add_suggestions(more: &Vec<DependencyRef>, suggestions: &mut Vec<DependencyRef>)
    ensures
        types::keys(final(suggestions)@) == types::keys(old(suggestions)@) + types::keys(more@),
{
    let ghost start = types::keys(suggestions@);
    let mut i: usize = 0;
    assert(start + types::keys(more@).take(0) =~= start);
    while i < more.len()
        invariant
            0 <= i <= more@.len(),
            types::keys(suggestions@) == start + types::keys(more@).take(i as int),
        decreases more@.len() - i,
    {
        let ghost shorter = suggestions@;
        suggestions.push(more[i].duplicate());
        assert(types::keys(suggestions@) =~= types::keys(shorter).push(more@[i as int].key()));
        assert(types::keys(suggestions@) =~= start + types::keys(more@).take(i + 1));
        i = i + 1;
    }
    assert(types::keys(more@).take(i as int) =~= types::keys(more@));
}

/// Visits waiting packages until none is left or a reply is missing.
fn walk_on(
    indexes: &Indexes,
    installed: &InstalledSets,
    replies: &Vec<Reply>,
    include_recommends: bool,
    pass: Pass,
    walk: &mut Walk,
) -> (question: Option<Question>)
    ensures
        ({
            let setting = Setting {
                indexes: *indexes,
                installed: *installed,
                replies: replies@,
                include_recommends,
            };
            match question {
                None => run(setting, pass, old(walk)@) == RunView::Done(final(walk)@),
                Some(asked) => run(setting, pass, old(walk)@) == RunView::Ask(asked.key())
                    && installable(*indexes, asked.key()) is Ok,
            }
        }),
{
    let ghost setting = Setting {
        indexes: *indexes,
        installed: *installed,
        replies: replies@,
        include_recommends,
    };
    let ghost start = walk@;
    while walk.queue.len() > 0
        invariant
            setting == (Setting {
                indexes: *indexes,
                installed: *installed,
                replies: replies@,
                include_recommends,
            }),
            start == old(walk)@,
            run(setting, pass, walk@) == run(setting, pass, start),
        decreases unused_replies(setting.replies, walk@.visited), walk@.queue.len(),
    {
        let ghost earlier = walk@;
        proof {
            if step(setting, pass, earlier) is Some {
                steps_shrink(setting, pass, earlier);
            }
        }
        let question = advance(indexes, installed, replies, include_recommends, pass, walk);
        if question.is_some() {
            return question;
        }
    }
    None
}

/// How a resolution ends.
#[derive(Debug)]
pub enum Outcome {
    /// The reply about this package is outstanding: add it and resolve again.
    Ask(Question),
    /// The full plan.
    Ready(Plan),
}

/// Resolves the requested packages of `kind` into a full installation plan,
/// as far as the replies allow.
///
/// Already-installed dependencies are left untouched; unknown or
/// uninstallable dependencies become warnings (a missing dependency should
/// not block the package itself, matching Foundry's lenient model).
pub fn plan(
    indexes: &Indexes,
    installed: &InstalledSets,
    kind: PackageType,
    requested: &[&Package],
    include_recommends: bool,
    replies: &Vec<Reply>,
) -> (outcome: Outcome)
    ensures
        ({
            let setting = Setting {
                indexes: *indexes,
                installed: *installed,
                replies: replies@,
                include_recommends,
            };
            let names = requested@.map_values(|package: &Package| package.name@);
            match outcome {
                Outcome::Ready(plan) => resolution(setting, kind, names) == OutcomeView::Ready(
                    plan@,
                ),
                Outcome::Ask(asked) => resolution(setting, kind, names) == OutcomeView::Ask(
                    asked.key(),
                ) && installable(*indexes, asked.key()) is Ok,
            }
        }),
{
    let ghost names = requested@.map_values(|package: &Package| package.name@);
    let mut queue: VecDeque<Item> = VecDeque::new();
    let mut i: usize = 0;
    assert(item_views(queue@) =~= beginning(kind, names.take(0)).queue);
    while i < requested.len()
        invariant
            names == requested@.map_values(|package: &Package| package.name@),
            0 <= i <= requested@.len(),
            item_views(queue@) == beginning(kind, names.take(i as int)).queue,
        decreases requested@.len() - i,
    {
        let ghost shorter = item_views(queue@);
        let item = Item { kind, name: requested[i].name.clone(), requested: true };
        let ghost added = item@;
        queue.push_back(item);
        assert(item_views(queue@) =~= shorter.push(added));
        assert(shorter.push(added) =~= beginning(kind, names.take(i + 1)).queue);
        i = i + 1;
    }
    assert(names.take(i as int) =~= names);
    let plan: Plan = Default::default();
    let mut walk = Walk { queue, visited: Vec::new(), suggestions: Vec::new(), plan };
    assert(walk@ =~= beginning(kind, names));
    match walk_on(indexes, installed, replies, include_recommends, Pass::Hard, &mut walk) {
        Some(question) => return Outcome::Ask(question),
        None => {},
    }
    let ghost first = walk@;
    let Walk { queue: _, visited, suggestions, plan } = walk;
    let mut queue: VecDeque<Item> = VecDeque::new();
    let nothing: Vec<DependencyRef> = Vec::new();
    assert(types::keys(nothing@) =~= Seq::empty());
    enqueue_missing(installed, &nothing, &suggestions, &mut queue);
    let mut walk = Walk { queue, visited, suggestions: Vec::new(), plan };
    assert(walk@.queue =~= missing(*installed, Seq::empty(), first.suggestions));
    assert(walk@ =~= continued(*installed, first));
    match walk_on(indexes, installed, replies, include_recommends, Pass::Optional, &mut walk) {
        Some(question) => Outcome::Ask(question),
        None => Outcome::Ready(walk.plan),
    }
}

// ---------------------------------------------------------------------------
// What every resolution keeps
// ---------------------------------------------------------------------------

/// The package a job installs.
pub open spec fn job_key(job: JobView) -> Key {
    (job.kind, job.name)
}

/// Whether one of the jobs installs a package.
pub open spec fn installs(jobs: Seq<JobView>, key: Key) -> bool {
    exists|i: int| 0 <= i < jobs.len() && job_key(#[trigger] jobs[i]) == key
}

/// Whether no two jobs install the same package.
pub open spec fn distinct(jobs: Seq<JobView>) -> bool {
    forall|i: int, j: int|
        0 <= i < j < jobs.len() ==> job_key(#[trigger] jobs[i]) != job_key(#[trigger] jobs[j])
}

/// A node's job installs the package the node stands for.
proof fn node_bears_its_key(setting: Setting, key: Key)
    ensures
        setting.node(key) matches Some(node) ==> job_key(node.job) == key,
{
    types::first_named_is_listed(setting.indexes.of(key.0).packages@, key.1);
}

/// What [`missing`] lists.
proof fn missing_is_exact(installed: InstalledSets, visited: Seq<Key>, needs: Seq<Key>)
    ensures
        forall|i: int|
            0 <= i < needs.len() ==> installed.has(#[trigger] needs[i]) || visited.contains(needs[i])
                || queued(missing(installed, visited, needs), needs[i]),
        forall|i: int|
            0 <= i < missing(installed, visited, needs).len() ==> {
                let item = #[trigger] missing(installed, visited, needs)[i];
                !item.requested && !installed.has(item.key)
            },
    decreases needs.len(),
{
    if needs.len() > 0 {
        let init = needs.drop_last();
        missing_is_exact(installed, visited, init);
        let shorter = missing(installed, visited, init);
        let all = missing(installed, visited, needs);
        assert forall|i: int| 0 <= i < needs.len() implies installed.has(#[trigger] needs[i])
            || visited.contains(needs[i]) || queued(all, needs[i]) by {
            if i < init.len() {
                assert(init[i] == needs[i]);
                if queued(shorter, needs[i]) {
                    let k = choose|k: int| 0 <= k < shorter.len() && (#[trigger] shorter[k]).key == needs[i];
                    assert(all[k].key == needs[i]);
                }
            } else if !installed.has(needs[i]) && !visited.contains(needs[i]) {
                assert(all[all.len() - 1].key == needs[i]);
            }
        }
        assert forall|i: int| 0 <= i < all.len() implies !(#[trigger] all[i]).requested
            && !installed.has(all[i].key) by {
            if i < shorter.len() {
                assert(all[i] == shorter[i]);
            }
        }
    }
}

/// What queueing a node's requirements changes, and what it leaves alone.
proof fn requirements_only_append(setting: Setting, walk: WalkView, node: NodeView)
    ensures
        ({
            let wider = with_requirements(setting, walk, node);
            &&& wider.visited == walk.visited
            &&& wider.suggestions == walk.suggestions
            &&& wider.plan.requested == walk.plan.requested
            &&& wider.plan.required == walk.plan.required
            &&& wider.plan.recommended == walk.plan.recommended
            &&& wider.plan.failures == walk.plan.failures
            &&& wider.queue.len() >= walk.queue.len()
            &&& forall|i: int| 0 <= i < walk.queue.len() ==> #[trigger] wider.queue[i] == walk.queue[i]
            &&& forall|i: int|
                walk.queue.len() <= i < wider.queue.len() ==> !(#[trigger] wider.queue[i]).requested
                    && !setting.installed.has(wider.queue[i].key)
            &&& forall|i: int|
                0 <= i < node.needs.len() ==> setting.installed.has(#[trigger] node.needs[i])
                    || walk.visited.contains(node.needs[i]) || queued(wider.queue, node.needs[i])
        }),
{
    let wider = with_requirements(setting, walk, node);
    let extra = missing(setting.installed, walk.visited, node.needs);
    missing_is_exact(setting.installed, walk.visited, node.needs);
    let queue = walk.queue + extra;
    let systems = systems_of(setting.indexes, node.job.name);
    assert forall|i: int| walk.queue.len() <= i < wider.queue.len() implies !(
    #[trigger] wider.queue[i]).requested && !setting.installed.has(wider.queue[i].key) by {
        if i < queue.len() {
            assert(wider.queue[i] == extra[i - walk.queue.len()]);
        } else {
            assert(!covered(setting.installed, walk.visited, queue, systems[0]));
        }
    }
    assert forall|i: int| 0 <= i < node.needs.len() implies setting.installed.has(
        #[trigger] node.needs[i],
    ) || walk.visited.contains(node.needs[i]) || queued(wider.queue, node.needs[i]) by {
        if queued(extra, node.needs[i]) {
            let k = choose|k: int| 0 <= k < extra.len() && (#[trigger] extra[k]).key == node.needs[i];
            assert(wider.queue[walk.queue.len() + k] == extra[k]);
        }
    }
}

/// The bookkeeping of a walk: every visited package is visited once and
/// known; the jobs are exactly those of the installable visited packages, one
/// each.
pub open spec fn accounted(setting: Setting, walk: WalkView) -> bool {
    &&& walk.visited.no_duplicates()
    &&& distinct(walk.plan.jobs())
    &&& forall|i: int|
        0 <= i < walk.visited.len() ==> (#[trigger] setting.outcome(walk.visited[i])) is Some
    &&& forall|i: int|
        0 <= i < walk.visited.len() ==> (setting.node(#[trigger] walk.visited[i]) is Some ==> installs(
            walk.plan.jobs(),
            walk.visited[i],
        ))
    &&& forall|i: int|
        0 <= i < walk.plan.jobs().len() ==> {
            let job = #[trigger] walk.plan.jobs()[i];
            walk.visited.contains(job_key(job)) && setting.node(job_key(job)) is Some
                && setting.node(job_key(job))->0.job == job
        }
}

/// Nothing but an explicit request touches an installed package.
pub open spec fn leaves_installed_alone(setting: Setting, walk: WalkView) -> bool {
    &&& forall|i: int|
        0 <= i < walk.queue.len() ==> ((#[trigger] walk.queue[i]).requested
            || !setting.installed.has(walk.queue[i].key))
    &&& forall|i: int|
        0 <= i < walk.plan.required.len() ==> !setting.installed.has(
            job_key(#[trigger] walk.plan.required[i]),
        )
    &&& forall|i: int|
        0 <= i < walk.plan.recommended.len() ==> !setting.installed.has(
            job_key(#[trigger] walk.plan.recommended[i]),
        )
}

/// Every hard requirement of an installable visited package is installed,
/// visited or waiting.
pub open spec fn follows_requirements(setting: Setting, walk: WalkView) -> bool {
    forall|i: int, j: int|
        #![trigger walk.visited[i], setting.node(walk.visited[i])->0.needs[j]]
        0 <= i < walk.visited.len() && setting.node(walk.visited[i]) is Some && 0 <= j
            < setting.node(walk.visited[i])->0.needs.len() ==> {
            let need = setting.node(walk.visited[i])->0.needs[j];
            setting.installed.has(need) || walk.visited.contains(need) || queued(walk.queue, need)
        }
}

/// A visited package stays visited.
proof fn visiting_adds(visited: Seq<Key>, key: Key, other: Key)
    ensures
        visited.push(key).contains(other) == (visited.contains(other) || other == key),
{
    let longer = visited.push(key);
    if visited.contains(other) {
        let i = choose|i: int| 0 <= i < visited.len() && visited[i] == other;
        assert(longer[i] == other);
    }
    if other == key {
        assert(longer[visited.len() as int] == other);
    }
}

/// A waiting package is the first one or waits behind it.
proof fn waiting_behind(queue: Seq<ItemView>, key: Key)
    requires
        queued(queue, key),
    ensures
        queue.len() > 0,
        queue[0].key == key || queued(queue.drop_first(), key),
{
    let i = choose|i: int| 0 <= i < queue.len() && (#[trigger] queue[i]).key == key;
    if i > 0 {
        assert(queue.drop_first()[i - 1].key == key);
    }
}

/// The jobs after one more was filed.
proof fn filing_adds(pass: Pass, item: ItemView, job: JobView, plan: PlanView)
    requires
        distinct(plan.jobs()),
        !installs(plan.jobs(), job_key(job)),
    ensures
        ({
            let next = filed(pass, item, job, plan);
            &&& distinct(next.jobs())
            &&& forall|i: int|
                0 <= i < next.jobs().len() ==> (#[trigger] next.jobs()[i]) == job || plan.jobs().contains(
                    next.jobs()[i],
                )
            &&& installs(next.jobs(), job_key(job))
            &&& forall|key: Key| installs(plan.jobs(), key) ==> installs(next.jobs(), key)
        }),
{
    let next = filed(pass, item, job, plan);
    let old_jobs = plan.jobs();
    let new_jobs = next.jobs();
    let at: int = match pass {
        Pass::Hard => if item.requested {
            plan.requested.len() as int
        } else {
            (plan.requested.len() + plan.required.len()) as int
        },
        Pass::Optional => old_jobs.len() as int,
    };
    assert(new_jobs =~= old_jobs.insert(at, job));
    assert forall|i: int, j: int| 0 <= i < j < new_jobs.len() implies job_key(
        #[trigger] new_jobs[i],
    ) != job_key(#[trigger] new_jobs[j]) by {
        let a = if i < at {
            i
        } else {
            i - 1
        };
        let b = if j < at {
            j
        } else {
            j - 1
        };
        if i == at {
            assert(new_jobs[j] == old_jobs[b]);
        } else if j == at {
            assert(new_jobs[i] == old_jobs[a]);
        } else {
            assert(new_jobs[i] == old_jobs[a] && new_jobs[j] == old_jobs[b]);
        }
    }
    assert forall|i: int| 0 <= i < new_jobs.len() implies (#[trigger] new_jobs[i]) == job
        || old_jobs.contains(new_jobs[i]) by {
        if i < at {
            assert(new_jobs[i] == old_jobs[i]);
        } else if i > at {
            assert(new_jobs[i] == old_jobs[i - 1]);
        }
    }
    assert(job_key(new_jobs[at]) == job_key(job));
    assert forall|key: Key| installs(old_jobs, key) implies installs(new_jobs, key) by {
        let i = choose|i: int| 0 <= i < old_jobs.len() && job_key(#[trigger] old_jobs[i]) == key;
        if i < at {
            assert(new_jobs[i] == old_jobs[i]);
        } else {
            assert(new_jobs[i + 1] == old_jobs[i]);
        }
    }
}

/// A step keeps the books.
proof fn step_keeps_accounts(setting: Setting, pass: Pass, walk: WalkView)
    requires
        walk.queue.len() > 0,
        step(setting, pass, walk) is Some,
        accounted(setting, walk),
    ensures
        accounted(setting, step(setting, pass, walk)->0),
{
    let next = step(setting, pass, walk)->0;
    let item = walk.queue[0];
    let key = item.key;
    if !walk.visited.contains(key) {
        let seen = WalkView {
            visited: walk.visited.push(key),
            queue: walk.queue.drop_first(),
            ..walk
        };
        assert(next.visited =~= walk.visited.push(key)) by {
            if let Some(node) = setting.node(key) {
                requirements_only_append(setting, seen, node);
            }
        }
        assert(next.visited.no_duplicates()) by {
            assert forall|i: int, j: int|
                0 <= i < next.visited.len() && 0 <= j < next.visited.len() && i
                    != j implies next.visited[i] != next.visited[j] by {
                if i == walk.visited.len() {
                    assert(next.visited[j] == walk.visited[j]);
                } else if j == walk.visited.len() {
                    assert(next.visited[i] == walk.visited[i]);
                }
            }
        }
        assert(!installs(walk.plan.jobs(), key)) by {
            if installs(walk.plan.jobs(), key) {
                let i = choose|i: int|
                    0 <= i < walk.plan.jobs().len() && job_key(#[trigger] walk.plan.jobs()[i]) == key;
                assert(walk.visited.contains(job_key(walk.plan.jobs()[i])));
            }
        }
        if let Some(node) = setting.node(key) {
            node_bears_its_key(setting, key);
            requirements_only_append(setting, seen, node);
            let wider = with_requirements(setting, seen, node);
            assert(wider.plan.jobs() =~= walk.plan.jobs());
            filing_adds(pass, item, node.job, wider.plan);
            assert forall|i: int| 0 <= i < next.plan.jobs().len() implies ({
                let job = #[trigger] next.plan.jobs()[i];
                next.visited.contains(job_key(job)) && setting.node(job_key(job)) is Some
                    && setting.node(job_key(job))->0.job == job
            }) by {
                let job = next.plan.jobs()[i];
                if job == node.job {
                    visiting_adds(walk.visited, key, key);
                } else {
                    let k = choose|k: int| 0 <= k < walk.plan.jobs().len() && walk.plan.jobs()[k] == job;
                    assert(walk.plan.jobs()[k] == job);
                    visiting_adds(walk.visited, key, job_key(job));
                }
            }
        } else {
            assert(next.plan.jobs() =~= walk.plan.jobs());
            assert forall|i: int| 0 <= i < next.plan.jobs().len() implies ({
                let job = #[trigger] next.plan.jobs()[i];
                next.visited.contains(job_key(job)) && setting.node(job_key(job)) is Some
                    && setting.node(job_key(job))->0.job == job
            }) by {
                assert(walk.plan.jobs()[i] == next.plan.jobs()[i]);
                visiting_adds(walk.visited, key, job_key(walk.plan.jobs()[i]));
            }
        }
        assert forall|i: int| 0 <= i < next.visited.len() implies (#[trigger] setting.outcome(
            next.visited[i],
        )) is Some by {
            if i < walk.visited.len() {
                assert(next.visited[i] == walk.visited[i]);
                assert(setting.outcome(walk.visited[i]) is Some);
            }
        }
        assert forall|i: int| 0 <= i < next.visited.len() implies (setting.node(
            #[trigger] next.visited[i],
        ) is Some ==> installs(next.plan.jobs(), next.visited[i])) by {
            if i < walk.visited.len() {
                assert(next.visited[i] == walk.visited[i]);
            }
        }
    }
}

/// A step leaves installed packages alone.
proof fn step_leaves_installed_alone(setting: Setting, pass: Pass, walk: WalkView)
    requires
        walk.queue.len() > 0,
        step(setting, pass, walk) is Some,
        leaves_installed_alone(setting, walk),
        pass is Optional ==> !walk.queue[0].requested,
    ensures
        leaves_installed_alone(setting, step(setting, pass, walk)->0),
{
    let next = step(setting, pass, walk)->0;
    let item = walk.queue[0];
    let key = item.key;
    let rest = walk.queue.drop_first();
    assert forall|i: int| 0 <= i < rest.len() implies ((#[trigger] rest[i]).requested
        || !setting.installed.has(rest[i].key)) by {
        assert(rest[i] == walk.queue[i + 1]);
    }
    if !walk.visited.contains(key) {
        let seen = WalkView { visited: walk.visited.push(key), queue: rest, ..walk };
        if let Some(node) = setting.node(key) {
            node_bears_its_key(setting, key);
            requirements_only_append(setting, seen, node);
            let wider = with_requirements(setting, seen, node);
            assert(next.queue == wider.queue);
            assert forall|i: int| 0 <= i < next.queue.len() implies ((#[trigger] next.queue[i]).requested
                || !setting.installed.has(next.queue[i].key)) by {
                if i < rest.len() {
                    assert(wider.queue[i] == rest[i]);
                }
            }
            assert(walk.queue[0] == item);
        }
    }
}

/// A step keeps following requirements.
proof fn step_follows_requirements(setting: Setting, pass: Pass, walk: WalkView)
    requires
        walk.queue.len() > 0,
        step(setting, pass, walk) is Some,
        follows_requirements(setting, walk),
    ensures
        follows_requirements(setting, step(setting, pass, walk)->0),
{
    let next = step(setting, pass, walk)->0;
    let item = walk.queue[0];
    let key = item.key;
    let rest = walk.queue.drop_first();
    let seen = WalkView { visited: walk.visited.push(key), queue: rest, ..walk };
    if !walk.visited.contains(key) {
        if let Some(node) = setting.node(key) {
            requirements_only_append(setting, seen, node);
        }
        assert(next.visited =~= walk.visited.push(key));
    }
    assert forall|i: int, j: int|
        #![trigger next.visited[i], setting.node(next.visited[i])->0.needs[j]]
        0 <= i < next.visited.len() && setting.node(next.visited[i]) is Some && 0 <= j
            < setting.node(next.visited[i])->0.needs.len() implies ({
        let need = setting.node(next.visited[i])->0.needs[j];
        setting.installed.has(need) || next.visited.contains(need) || queued(next.queue, need)
    }) by {
        let node = setting.node(next.visited[i])->0;
        let need = node.needs[j];
        if i < walk.visited.len() {
            assert(next.visited[i] == walk.visited[i]);
            assert(setting.installed.has(need) || walk.visited.contains(need) || queued(
                walk.queue,
                need,
            ));
            if walk.visited.contains(need) && !walk.visited.contains(key) {
                visiting_adds(walk.visited, key, need);
            }
            if queued(walk.queue, need) && need != key {
                waiting_behind(walk.queue, need);
                let k = choose|k: int| 0 <= k < rest.len() && (#[trigger] rest[k]).key == need;
                assert(next.queue[k].key == need);
            }
            if need == key && !walk.visited.contains(key) {
                visiting_adds(walk.visited, key, need);
            }
        } else {
            assert(next.visited[i] == key);
            if seen.visited.contains(need) {
                assert(next.visited.contains(need));
            }
        }
    }
}

/// Whether the system requirement of a module is taken care of: one of the
/// systems is installed, visited or waiting, or there are several and the plan
/// warns about them.
pub open spec fn meets_systems(setting: Setting, walk: WalkView, name: Seq<char>) -> bool {
    let systems = systems_of(setting.indexes, name);
    ||| systems.len() == 0
    ||| exists|s: int|
        0 <= s < systems.len() && covered(
            setting.installed,
            walk.visited,
            walk.queue,
            #[trigger] systems[s],
        )
    ||| systems.len() > 1 && walk.plan.warnings.contains(ambiguous_warning(name, systems))
}

/// The system requirement of every installable visited module is taken care of.
pub open spec fn follows_systems(setting: Setting, walk: WalkView) -> bool {
    forall|i: int|
        0 <= i < walk.visited.len() && (#[trigger] walk.visited[i]).0 == PackageType::Module
            && setting.node(walk.visited[i]) is Some ==> meets_systems(
            setting,
            walk,
            walk.visited[i].1,
        )
}

/// A system requirement that is taken care of stays so.
proof fn systems_stay_met(setting: Setting, before: WalkView, after: WalkView, name: Seq<char>)
    requires
        meets_systems(setting, before, name),
        forall|key: Key| #[trigger] before.visited.contains(key) ==> after.visited.contains(key),
        forall|key: Key| #[trigger]
            queued(before.queue, key) ==> after.visited.contains(key) || queued(after.queue, key),
        forall|warning: Seq<char>| #[trigger]
            before.plan.warnings.contains(warning) ==> after.plan.warnings.contains(warning),
    ensures
        meets_systems(setting, after, name),
{
    let systems = systems_of(setting.indexes, name);
    if exists|s: int|
        0 <= s < systems.len() && covered(
            setting.installed,
            before.visited,
            before.queue,
            #[trigger] systems[s],
        ) {
        let s = choose|s: int|
            0 <= s < systems.len() && covered(
                setting.installed,
                before.visited,
                before.queue,
                #[trigger] systems[s],
            );
        let key = (PackageType::System, systems[s]);
        assert(before.visited.contains(key) ==> after.visited.contains(key));
        assert(queued(before.queue, key) ==> after.visited.contains(key) || queued(after.queue, key));
        assert(covered(setting.installed, after.visited, after.queue, systems[s]));
    }
}

/// Queueing the requirements of a module takes care of its system requirement.
proof fn requirements_meet_systems(setting: Setting, walk: WalkView, node: NodeView)
    requires
        node.job.kind == PackageType::Module,
    ensures
        meets_systems(setting, with_requirements(setting, walk, node), node.job.name),
{
    let wider = with_requirements(setting, walk, node);
    let systems = systems_of(setting.indexes, node.job.name);
    let queue = walk.queue + missing(setting.installed, walk.visited, node.needs);
    if systems.len() > 0 && !satisfied(setting.installed, walk.visited, queue, systems) {
        if systems.len() == 1 {
            let last = wider.queue.len() - 1;
            assert(wider.queue[last].key == (PackageType::System, systems[0]));
            assert(covered(setting.installed, wider.visited, wider.queue, systems[0]));
        } else {
            let warnings = wider.plan.warnings;
            assert(warnings[warnings.len() - 1] == ambiguous_warning(node.job.name, systems));
        }
    }
}

/// A step keeps taking care of system requirements.
proof fn step_follows_systems(setting: Setting, pass: Pass, walk: WalkView)
    requires
        walk.queue.len() > 0,
        step(setting, pass, walk) is Some,
        follows_systems(setting, walk),
    ensures
        follows_systems(setting, step(setting, pass, walk)->0),
{
    let next = step(setting, pass, walk)->0;
    let item = walk.queue[0];
    let key = item.key;
    let rest = walk.queue.drop_first();
    let seen = WalkView { visited: walk.visited.push(key), queue: rest, ..walk };
    step_frames(setting, pass, walk);
    if !walk.visited.contains(key) {
        if let Some(node) = setting.node(key) {
            requirements_only_append(setting, seen, node);
            node_bears_its_key(setting, key);
        }
        assert(next.visited =~= walk.visited.push(key));
        visiting_adds(walk.visited, key, key);
    }
    assert(next.visited.contains(key));
    growing_keeps(walk.plan.warnings, next.plan.warnings);
    assert forall|other: Key| #[trigger] queued(walk.queue, other) implies next.visited.contains(other)
        || queued(next.queue, other) by {
        waiting_behind(walk.queue, other);
        if other != key {
            let k = choose|k: int| 0 <= k < rest.len() && (#[trigger] rest[k]).key == other;
            assert(next.queue[k].key == other);
        }
    }
    assert forall|i: int|
        0 <= i < next.visited.len() && (#[trigger] next.visited[i]).0 == PackageType::Module
            && setting.node(next.visited[i]) is Some implies meets_systems(
        setting,
        next,
        next.visited[i].1,
    ) by {
        if i < walk.visited.len() {
            assert(next.visited[i] == walk.visited[i]);
            systems_stay_met(setting, walk, next, walk.visited[i].1);
        } else {
            let node = setting.node(key)->0;
            let wider = with_requirements(setting, seen, node);
            requirements_meet_systems(setting, seen, node);
            assert(next.visited == wider.visited && next.queue == wider.queue);
            assert(next.plan.warnings == wider.plan.warnings);
            systems_stay_met(setting, wider, next, key.1);
        }
    }
}

/// Whether the plan tells why a package cannot be installed.
pub open spec fn reported(plan: PlanView, key: Key, reason: Seq<char>) -> bool {
    ||| plan.failures.contains((key.1, reason))
    ||| plan.warnings.contains("skipping dependency `"@ + key.1 + "`: "@ + reason)
    ||| plan.warnings.contains("skipping recommended `"@ + key.1 + "`: "@ + reason)
}

/// Every visited package that cannot be installed is reported.
pub open spec fn reports_failures(setting: Setting, walk: WalkView) -> bool {
    forall|i: int|
        0 <= i < walk.visited.len() ==> (setting.outcome(#[trigger] walk.visited[i]) matches Some(
            Err(reason),
        ) ==> reported(walk.plan, walk.visited[i], reason))
}

/// A list that grows at its end keeps its members.
proof fn growing_keeps<T>(shorter: Seq<T>, longer: Seq<T>)
    requires
        shorter.len() <= longer.len(),
        forall|i: int| 0 <= i < shorter.len() ==> shorter[i] == #[trigger] longer[i],
    ensures
        forall|member: T| #[trigger] shorter.contains(member) ==> longer.contains(member),
{
    assert forall|member: T| #[trigger] shorter.contains(member) implies longer.contains(member) by {
        let i = choose|i: int| 0 <= i < shorter.len() && shorter[i] == member;
        assert(longer[i] == member);
    }
}

/// A step keeps reporting failures.
proof fn step_reports_failures(setting: Setting, pass: Pass, walk: WalkView)
    requires
        walk.queue.len() > 0,
        step(setting, pass, walk) is Some,
        reports_failures(setting, walk),
    ensures
        reports_failures(setting, step(setting, pass, walk)->0),
{
    let next = step(setting, pass, walk)->0;
    let item = walk.queue[0];
    let key = item.key;
    if !walk.visited.contains(key) {
        let seen = WalkView {
            visited: walk.visited.push(key),
            queue: walk.queue.drop_first(),
            ..walk
        };
        if let Some(node) = setting.node(key) {
            requirements_only_append(setting, seen, node);
        }
        assert(next.visited =~= walk.visited.push(key));
        growing_keeps(walk.plan.failures, next.plan.failures);
        growing_keeps(walk.plan.warnings, next.plan.warnings);
        assert forall|i: int| 0 <= i < next.visited.len() implies (setting.outcome(
            #[trigger] next.visited[i],
        ) matches Some(Err(reason)) ==> reported(next.plan, next.visited[i], reason)) by {
            if i < walk.visited.len() {
                assert(next.visited[i] == walk.visited[i]);
            } else if let Some(Err(reason)) = setting.outcome(key) {
                let failures = next.plan.failures;
                let warnings = next.plan.warnings;
                match pass {
                    Pass::Hard => if item.requested {
                        assert(failures[failures.len() - 1] == (key.1, reason));
                    } else {
                        assert(warnings[warnings.len() - 1] == "skipping dependency `"@ + key.1
                            + "`: "@ + reason);
                    },
                    Pass::Optional => {
                        assert(warnings[warnings.len() - 1] == "skipping recommended `"@ + key.1
                            + "`: "@ + reason);
                    },
                }
            }
        }
    }
}

/// Whether everything waiting is a mere dependency.
pub open spec fn nothing_requested(queue: Seq<ItemView>) -> bool {
    forall|i: int| 0 <= i < queue.len() ==> !(#[trigger] queue[i]).requested
}

/// What a step of either pass leaves alone.
proof fn step_frames(setting: Setting, pass: Pass, walk: WalkView)
    requires
        walk.queue.len() > 0,
        step(setting, pass, walk) is Some,
    ensures
        ({
            let next = step(setting, pass, walk)->0;
            &&& forall|key: Key| #[trigger] walk.visited.contains(key) ==> next.visited.contains(key)
            &&& pass is Hard ==> next.plan.recommended == walk.plan.recommended
            &&& pass is Optional ==> next.plan.requested == walk.plan.requested
                && next.plan.required == walk.plan.required && next.plan.failures
                == walk.plan.failures
            &&& pass is Optional && nothing_requested(walk.queue) ==> nothing_requested(next.queue)
            &&& !setting.include_recommends && walk.suggestions.len() == 0 ==> next.suggestions.len()
                == 0
            &&& pass is Optional ==> forall|i: int|
                0 <= i < next.plan.recommended.len() ==> walk.plan.recommended.contains(
                    #[trigger] next.plan.recommended[i],
                ) || !walk.visited.contains(job_key(next.plan.recommended[i]))
        }),
{
    let next = step(setting, pass, walk)->0;
    let item = walk.queue[0];
    let key = item.key;
    let rest = walk.queue.drop_first();
    assert(nothing_requested(walk.queue) ==> nothing_requested(rest)) by {
        assert forall|i: int| 0 <= i < rest.len() implies rest[i] == #[trigger] walk.queue[i + 1] by {}
    }
    if !walk.visited.contains(key) {
        let seen = WalkView { visited: walk.visited.push(key), queue: rest, ..walk };
        if let Some(node) = setting.node(key) {
            requirements_only_append(setting, seen, node);
            node_bears_its_key(setting, key);
            let wider = with_requirements(setting, seen, node);
            if nothing_requested(rest) {
                assert forall|i: int| 0 <= i < wider.queue.len() implies !(
                #[trigger] wider.queue[i]).requested by {
                    if i < rest.len() {
                        assert(wider.queue[i] == rest[i]);
                    }
                }
            }
        }
        assert(next.visited =~= walk.visited.push(key));
        growing_keeps(walk.visited, next.visited);
    }
    let before = walk.plan.recommended;
    let after = next.plan.recommended;
    assert forall|i: int| pass is Optional && 0 <= i < after.len() implies before.contains(
        #[trigger] after[i],
    ) || !walk.visited.contains(job_key(after[i])) by {
        if i < before.len() {
            assert(after[i] == before[i]);
        }
    }
}

/// All that every walk keeps.
pub open spec fn sound(setting: Setting, walk: WalkView) -> bool {
    &&& accounted(setting, walk)
    &&& leaves_installed_alone(setting, walk)
    &&& follows_requirements(setting, walk)
    &&& follows_systems(setting, walk)
    &&& reports_failures(setting, walk)
}

/// A finished run is sound, and keeps what its pass must not touch.
proof fn run_is_sound(setting: Setting, pass: Pass, walk: WalkView, origin: Seq<Key>)
    requires
        sound(setting, walk),
        pass is Optional ==> nothing_requested(walk.queue),
        forall|key: Key| #[trigger] origin.contains(key) ==> walk.visited.contains(key),
        forall|i: int|
            0 <= i < walk.plan.recommended.len() ==> !origin.contains(
                job_key(#[trigger] walk.plan.recommended[i]),
            ),
    ensures
        run(setting, pass, walk) matches RunView::Done(end) ==> {
            &&& sound(setting, end)
            &&& end.queue.len() == 0
            &&& pass is Hard ==> end.plan.recommended == walk.plan.recommended
            &&& pass is Optional ==> end.plan.requested == walk.plan.requested && end.plan.required
                == walk.plan.required && end.plan.failures == walk.plan.failures
            &&& !setting.include_recommends && walk.suggestions.len() == 0 ==> end.suggestions.len()
                == 0
            &&& pass is Optional ==> forall|i: int|
                0 <= i < end.plan.recommended.len() ==> !origin.contains(
                    job_key(#[trigger] end.plan.recommended[i]),
                )
        },
    decreases unused_replies(setting.replies, walk.visited), walk.queue.len(),
{
    if walk.queue.len() > 0 && step(setting, pass, walk) is Some {
        let next = step(setting, pass, walk)->0;
        steps_shrink(setting, pass, walk);
        assert(pass is Optional ==> !walk.queue[0].requested);
        step_keeps_accounts(setting, pass, walk);
        step_leaves_installed_alone(setting, pass, walk);
        step_follows_requirements(setting, pass, walk);
        step_follows_systems(setting, pass, walk);
        step_reports_failures(setting, pass, walk);
        step_frames(setting, pass, walk);
        assert forall|i: int| 0 <= i < next.plan.recommended.len() implies !origin.contains(
            job_key(#[trigger] next.plan.recommended[i]),
        ) by {
            let before = walk.plan.recommended;
            let job = next.plan.recommended[i];
            if pass is Hard {
                assert(before[i] == job);
            } else if before.contains(job) {
                let k = choose|k: int| 0 <= k < before.len() && before[k] == job;
                assert(before[k] == job);
            }
        }
        run_is_sound(setting, pass, next, origin);
    }
}

/// The walk after the first pass, when both passes ran to their ends.
proof fn passes_are_sound(setting: Setting, kind: PackageType, names: Seq<Seq<char>>) -> (ends: (
    WalkView,
    WalkView,
))
    requires
        resolution(setting, kind, names) is Ready,
    ensures
        run(setting, Pass::Hard, beginning(kind, names)) == RunView::Done(ends.0),
        run(setting, Pass::Optional, continued(setting.installed, ends.0)) == RunView::Done(ends.1),
        resolution(setting, kind, names) == OutcomeView::Ready(ends.1.plan),
        sound(setting, ends.0),
        sound(setting, ends.1),
        ends.0.queue.len() == 0,
        ends.1.queue.len() == 0,
        ends.0.plan.recommended.len() == 0,
        ends.1.plan.requested == ends.0.plan.requested,
        ends.1.plan.required == ends.0.plan.required,
        ends.1.plan.failures == ends.0.plan.failures,
        forall|i: int|
            0 <= i < ends.1.plan.recommended.len() ==> !ends.0.visited.contains(
                job_key(#[trigger] ends.1.plan.recommended[i]),
            ),
        !setting.include_recommends ==> ends.1.plan.recommended.len() == 0,
{
    let start = beginning(kind, names);
    assert(start.plan.jobs() =~= Seq::<JobView>::empty());
    assert(sound(setting, start));
    run_is_sound(setting, Pass::Hard, start, Seq::empty());
    let first = run(setting, Pass::Hard, start)->Done_0;
    let again = continued(setting.installed, first);
    missing_is_exact(setting.installed, Seq::empty(), first.suggestions);
    assert(first.plan.recommended =~= Seq::<JobView>::empty());
    assert(follows_requirements(setting, again)) by {
        assert forall|i: int, j: int|
            #![trigger again.visited[i], setting.node(again.visited[i])->0.needs[j]]
            0 <= i < again.visited.len() && setting.node(again.visited[i]) is Some && 0 <= j
                < setting.node(again.visited[i])->0.needs.len() implies ({
            let need = setting.node(again.visited[i])->0.needs[j];
            setting.installed.has(need) || again.visited.contains(need) || queued(again.queue, need)
        }) by {
            let need = setting.node(first.visited[i])->0.needs[j];
            assert(!queued(first.queue, need));
        }
    }
    assert(follows_systems(setting, again)) by {
        assert forall|i: int|
            0 <= i < again.visited.len() && (#[trigger] again.visited[i]).0 == PackageType::Module
                && setting.node(again.visited[i]) is Some implies meets_systems(
            setting,
            again,
            again.visited[i].1,
        ) by {
            assert(first.visited[i] == again.visited[i]);
            systems_stay_met(setting, first, again, again.visited[i].1);
        }
    }
    run_is_sound(setting, Pass::Optional, again, first.visited);
    let second = run(setting, Pass::Optional, again)->Done_0;
    (first, second)
}

/// No package appears twice in a plan, in whichever role.
pub proof fn plans_install_each_package_once(
    setting: Setting,
    kind: PackageType,
    names: Seq<Seq<char>>,
)
    ensures
        resolution(setting, kind, names) matches OutcomeView::Ready(plan) ==> distinct(plan.jobs()),
{
    if resolution(setting, kind, names) is Ready {
        passes_are_sound(setting, kind, names);
    }
}

/// A package that is installed already is neither required nor recommended by
/// a plan: only an explicit request touches it.
pub proof fn plans_leave_installed_packages_alone(
    setting: Setting,
    kind: PackageType,
    names: Seq<Seq<char>>,
)
    ensures
        resolution(setting, kind, names) matches OutcomeView::Ready(plan) ==> {
            &&& forall|i: int|
                0 <= i < plan.required.len() ==> !setting.installed.has(
                    job_key(#[trigger] plan.required[i]),
                )
            &&& forall|i: int|
                0 <= i < plan.recommended.len() ==> !setting.installed.has(
                    job_key(#[trigger] plan.recommended[i]),
                )
        },
{
    if resolution(setting, kind, names) is Ready {
        passes_are_sound(setting, kind, names);
    }
}

/// A plan is closed under hard requirements: whatever a planned package needs
/// is installed, planned too, or reported as impossible to install.
pub proof fn plans_are_closed(
    setting: Setting,
    kind: PackageType,
    names: Seq<Seq<char>>,
    key: Key,
    need: Key,
)
    requires
        resolution(setting, kind, names) matches OutcomeView::Ready(plan) && installs(
            plan.jobs(),
            key,
        ),
        setting.node(key) matches Some(node) && node.needs.contains(need),
    ensures
        resolution(setting, kind, names) matches OutcomeView::Ready(plan) && {
            ||| setting.installed.has(need)
            ||| installs(plan.jobs(), need)
            ||| setting.outcome(need) matches Some(Err(reason)) && reported(plan, need, reason)
        },
{
    let (_, end) = passes_are_sound(setting, kind, names);
    let jobs = end.plan.jobs();
    let at = choose|i: int| 0 <= i < jobs.len() && job_key(#[trigger] jobs[i]) == key;
    assert(end.visited.contains(job_key(jobs[at])));
    let i = choose|i: int| 0 <= i < end.visited.len() && end.visited[i] == key;
    let needs = setting.node(key)->0.needs;
    let j = choose|j: int| 0 <= j < needs.len() && needs[j] == need;
    assert(setting.node(end.visited[i])->0.needs[j] == need);
    assert(!queued(end.queue, need));
    if !setting.installed.has(need) {
        assert(end.visited.contains(need));
        let k = choose|k: int| 0 <= k < end.visited.len() && end.visited[k] == need;
        assert(setting.outcome(end.visited[k]) is Some);
        assert(setting.node(end.visited[k]) is Some ==> installs(jobs, need));
    }
}

/// A plan takes care of the systems that its modules are listed for, whether or
/// not their manifests require anything. Where the index lists one system for a
/// module, that is installed, planned too, or reported as impossible to install.
/// Where it lists several, this holds of one of them, or the plan warns that none
/// is installed.
pub proof fn plans_meet_system_requirements(
    setting: Setting,
    kind: PackageType,
    names: Seq<Seq<char>>,
    name: Seq<char>,
    at: int,
)
    requires
        resolution(setting, kind, names) matches OutcomeView::Ready(plan) && installs(
            plan.jobs(),
            (PackageType::Module, name),
        ),
        0 <= at < setting.indexes.module.packages@.len(),
        setting.indexes.module.packages@[at].name@ == name,
        forall|i: int| 0 <= i < at ==> (#[trigger] setting.indexes.module.packages@[i]).name@ != name,
        setting.indexes.module.packages@[at].systems@.len() > 0,
    ensures
        resolution(setting, kind, names) matches OutcomeView::Ready(plan) && {
            let systems = text::views(setting.indexes.module.packages@[at].systems@);
            ||| exists|s: int|
                #![trigger systems[s]]
                0 <= s < systems.len() && {
                    let system = (PackageType::System, systems[s]);
                    ||| text::lists(setting.installed.systems@, systems[s])
                    ||| installs(plan.jobs(), system)
                    ||| setting.outcome(system) matches Some(Err(reason)) && reported(
                        plan,
                        system,
                        reason,
                    )
                }
            ||| systems.len() > 1 && plan.warnings.contains(
                "`"@ + name + "` requires one of the systems ["@ + text::joined(systems, ", "@)
                    + "], none of which is installed"@,
            )
        },
{
    let (_, end) = passes_are_sound(setting, kind, names);
    let plan = end.plan;
    let jobs = plan.jobs();
    let key = (PackageType::Module, name);
    let j = choose|i: int| 0 <= i < jobs.len() && job_key(#[trigger] jobs[i]) == key;
    assert(end.visited.contains(job_key(jobs[j])));
    let v = choose|i: int| 0 <= i < end.visited.len() && end.visited[i] == key;
    assert(end.visited[v].0 == PackageType::Module);
    types::the_first_of_a_name_is_found(setting.indexes.module.packages@, name, at);
    let systems = text::views(setting.indexes.module.packages@[at].systems@);
    assert(systems_of(setting.indexes, name) == systems);
    assert(meets_systems(setting, end, name));
    if exists|s: int|
        0 <= s < systems.len() && covered(
            setting.installed,
            end.visited,
            end.queue,
            #[trigger] systems[s],
        ) {
        let s = choose|s: int|
            0 <= s < systems.len() && covered(
                setting.installed,
                end.visited,
                end.queue,
                #[trigger] systems[s],
            );
        let system = (PackageType::System, systems[s]);
        assert(!queued(end.queue, system));
        if !setting.installed.has(system) {
            let k = choose|k: int| 0 <= k < end.visited.len() && end.visited[k] == system;
            assert(setting.outcome(end.visited[k]) is Some);
            assert(setting.node(end.visited[k]) is Some ==> installs(jobs, system));
        }
    }
}

/// A requirement beats a recommendation: what a requested or required package
/// needs is never left among the recommended packages, which may be declined.
pub proof fn requirements_beat_recommendations(
    setting: Setting,
    kind: PackageType,
    names: Seq<Seq<char>>,
    key: Key,
    need: Key,
)
    requires
        resolution(setting, kind, names) matches OutcomeView::Ready(plan) && (installs(
            plan.requested,
            key,
        ) || installs(plan.required, key)),
        setting.node(key) matches Some(node) && node.needs.contains(need),
    ensures
        resolution(setting, kind, names) matches OutcomeView::Ready(plan) && !installs(
            plan.recommended,
            need,
        ),
{
    let (first, end) = passes_are_sound(setting, kind, names);
    let jobs = first.plan.jobs();
    assert(installs(jobs, key)) by {
        if installs(end.plan.requested, key) {
            let requested = end.plan.requested;
            let i = choose|i: int| 0 <= i < requested.len() && job_key(#[trigger] requested[i]) == key;
            assert(jobs[i] == requested[i]);
        } else {
            let required = end.plan.required;
            let i = choose|i: int| 0 <= i < required.len() && job_key(#[trigger] required[i]) == key;
            assert(jobs[end.plan.requested.len() + i] == required[i]);
        }
    }
    let at = choose|i: int| 0 <= i < jobs.len() && job_key(#[trigger] jobs[i]) == key;
    assert(first.visited.contains(job_key(jobs[at])));
    let i = choose|i: int| 0 <= i < first.visited.len() && first.visited[i] == key;
    let needs = setting.node(key)->0.needs;
    let j = choose|j: int| 0 <= j < needs.len() && needs[j] == need;
    assert(setting.node(first.visited[i])->0.needs[j] == need);
    assert(!queued(first.queue, need));
    if installs(end.plan.recommended, need) {
        let recommended = end.plan.recommended;
        let r = choose|r: int|
            0 <= r < recommended.len() && job_key(#[trigger] recommended[r]) == need;
        assert(!setting.installed.has(job_key(recommended[r])));
    }
}

/// Without recommendations switched on, nothing is recommended.
pub proof fn recommendations_can_be_switched_off(
    setting: Setting,
    kind: PackageType,
    names: Seq<Seq<char>>,
)
    requires
        !setting.include_recommends,
    ensures
        resolution(setting, kind, names) matches OutcomeView::Ready(plan) ==> plan.recommended.len()
            == 0,
{
    if resolution(setting, kind, names) is Ready {
        passes_are_sound(setting, kind, names);
    }
}

/// Whether a plan answers a request: with a job of that name, or with the
/// reason why there is none.
pub open spec fn answered(plan: PlanView, kind: PackageType, name: Seq<char>) -> bool {
    ||| installs(plan.requested, (kind, name))
    ||| exists|i: int| 0 <= i < plan.failures.len() && (#[trigger] plan.failures[i]).0 == name
}

/// What the first pass keeps of the requests: they wait in front of their
/// dependencies, and each is waiting or answered.
pub open spec fn serves(kind: PackageType, names: Seq<Seq<char>>, walk: WalkView) -> bool {
    &&& forall|i: int, j: int|
        0 <= i < j < walk.queue.len() && (#[trigger] walk.queue[j]).requested ==> (
        #[trigger] walk.queue[i]).requested
    &&& forall|i: int|
        0 <= i < walk.queue.len() && (#[trigger] walk.queue[i]).requested ==> walk.queue[i].key.0
            == kind && names.contains(walk.queue[i].key.1)
    &&& walk.queue.len() > 0 && walk.queue[0].requested ==> forall|i: int|
        0 <= i < walk.visited.len() ==> (#[trigger] walk.visited[i]).0 == kind && answered(
            walk.plan,
            kind,
            walk.visited[i].1,
        )
    &&& forall|n: int|
        0 <= n < names.len() ==> answered(walk.plan, kind, #[trigger] names[n]) || exists|i: int|
            0 <= i < walk.queue.len() && (#[trigger] walk.queue[i]).requested && walk.queue[i].key.1
                == names[n]
    &&& forall|i: int|
        0 <= i < walk.plan.requested.len() ==> (#[trigger] walk.plan.requested[i]).kind == kind
            && names.contains(walk.plan.requested[i].name)
    &&& forall|i: int|
        0 <= i < walk.plan.failures.len() ==> names.contains((#[trigger] walk.plan.failures[i]).0)
}

/// A plan that grows keeps its answers.
proof fn answers_stay(before: PlanView, after: PlanView, kind: PackageType)
    requires
        before.requested.len() <= after.requested.len(),
        forall|i: int|
            0 <= i < before.requested.len() ==> before.requested[i] == #[trigger] after.requested[i],
        before.failures.len() <= after.failures.len(),
        forall|i: int|
            0 <= i < before.failures.len() ==> before.failures[i] == #[trigger] after.failures[i],
    ensures
        forall|name: Seq<char>| #[trigger] answered(before, kind, name) ==> answered(after, kind, name),
{
    assert forall|name: Seq<char>| #[trigger] answered(before, kind, name) implies answered(
        after,
        kind,
        name,
    ) by {
        if installs(before.requested, (kind, name)) {
            let i = choose|i: int|
                0 <= i < before.requested.len() && job_key(#[trigger] before.requested[i]) == (
                    kind,
                    name,
                );
            assert(after.requested[i] == before.requested[i]);
        } else {
            let i = choose|i: int|
                0 <= i < before.failures.len() && (#[trigger] before.failures[i]).0 == name;
            assert(after.failures[i] == before.failures[i]);
        }
    }
}

/// A step of the first pass keeps serving the requests.
proof fn step_serves(setting: Setting, kind: PackageType, names: Seq<Seq<char>>, walk: WalkView)
    requires
        walk.queue.len() > 0,
        step(setting, Pass::Hard, walk) is Some,
        serves(kind, names, walk),
    ensures
        serves(kind, names, step(setting, Pass::Hard, walk)->0),
{
    let next = step(setting, Pass::Hard, walk)->0;
    let item = walk.queue[0];
    let key = item.key;
    let rest = walk.queue.drop_first();
    let seen = WalkView { visited: walk.visited.push(key), queue: rest, ..walk };
    if !walk.visited.contains(key) {
        if let Some(node) = setting.node(key) {
            requirements_only_append(setting, seen, node);
            node_bears_its_key(setting, key);
        }
        assert(next.visited =~= walk.visited.push(key));
    }
    assert(next.queue.len() >= rest.len());
    assert(forall|i: int| 0 <= i < rest.len() ==> #[trigger] next.queue[i] == walk.queue[i + 1]);
    assert(forall|i: int| rest.len() <= i < next.queue.len() ==> !(#[trigger] next.queue[i]).requested);
    answers_stay(walk.plan, next.plan, kind);
    if item.requested {
        assert(answered(next.plan, kind, key.1)) by {
            if walk.visited.contains(key) {
                let i = choose|i: int| 0 <= i < walk.visited.len() && walk.visited[i] == key;
                assert(walk.visited[i].0 == kind);
            } else {
                match setting.outcome(key) {
                    Some(Ok(node)) => {
                        let requested = next.plan.requested;
                        assert(job_key(requested[requested.len() - 1]) == key);
                    },
                    _ => {
                        let failures = next.plan.failures;
                        assert(failures[failures.len() - 1].0 == key.1);
                    },
                }
            }
        }
    } else if next.queue.len() > 0 && next.queue[0].requested {
        assert(walk.queue[1].requested);
        assert(walk.queue[0].requested);
    }
    assert forall|i: int, j: int|
        0 <= i < j < next.queue.len() && (#[trigger] next.queue[j]).requested implies (
    #[trigger] next.queue[i]).requested by {
        assert(next.queue[j] == walk.queue[j + 1]);
        assert(next.queue[i] == walk.queue[i + 1]);
    }
    assert forall|n: int| 0 <= n < names.len() implies answered(next.plan, kind, #[trigger] names[n])
        || exists|i: int|
        0 <= i < next.queue.len() && (#[trigger] next.queue[i]).requested && next.queue[i].key.1
            == names[n] by {
        if !answered(walk.plan, kind, names[n]) {
            let i = choose|i: int|
                0 <= i < walk.queue.len() && (#[trigger] walk.queue[i]).requested
                    && walk.queue[i].key.1 == names[n];
            if i > 0 {
                assert(next.queue[i - 1] == walk.queue[i]);
            }
        }
    }
    if next.queue.len() > 0 && next.queue[0].requested {
        assert forall|i: int| 0 <= i < next.visited.len() implies (#[trigger] next.visited[i]).0
            == kind && answered(next.plan, kind, next.visited[i].1) by {
            if i < walk.visited.len() {
                assert(next.visited[i] == walk.visited[i]);
            }
        }
    }
}

/// A finished first pass has served the requests.
proof fn run_serves(setting: Setting, kind: PackageType, names: Seq<Seq<char>>, walk: WalkView)
    requires
        serves(kind, names, walk),
    ensures
        run(setting, Pass::Hard, walk) matches RunView::Done(end) ==> serves(kind, names, end)
            && end.queue.len() == 0,
    decreases unused_replies(setting.replies, walk.visited), walk.queue.len(),
{
    if walk.queue.len() > 0 && step(setting, Pass::Hard, walk) is Some {
        steps_shrink(setting, Pass::Hard, walk);
        step_serves(setting, kind, names, walk);
        run_serves(setting, kind, names, step(setting, Pass::Hard, walk)->0);
    }
}

/// What the first pass keeps of the failures: each is that of a visited
/// package which cannot be resolved, and none is listed twice.
pub open spec fn blames(setting: Setting, kind: PackageType, walk: WalkView) -> bool {
    let failures = walk.plan.failures;
    &&& forall|i: int|
        0 <= i < failures.len() ==> walk.visited.contains((kind, (#[trigger] failures[i]).0))
            && setting.outcome((kind, failures[i].0)) == Some(
            Err::<NodeView, Seq<char>>(failures[i].1),
        )
    &&& forall|i: int, j: int|
        0 <= i < j < failures.len() ==> (#[trigger] failures[i]).0 != (#[trigger] failures[j]).0
}

/// A step of the first pass blames a requested package at most once, and only
/// one that cannot be resolved.
proof fn step_blames(setting: Setting, kind: PackageType, names: Seq<Seq<char>>, walk: WalkView)
    requires
        walk.queue.len() > 0,
        step(setting, Pass::Hard, walk) is Some,
        serves(kind, names, walk),
        blames(setting, kind, walk),
    ensures
        blames(setting, kind, step(setting, Pass::Hard, walk)->0),
{
    let next = step(setting, Pass::Hard, walk)->0;
    let item = walk.queue[0];
    let before = walk.plan.failures;
    let after = next.plan.failures;
    step_frames(setting, Pass::Hard, walk);
    if !walk.visited.contains(item.key) {
        let seen = WalkView {
            visited: walk.visited.push(item.key),
            queue: walk.queue.drop_first(),
            ..walk
        };
        if let Some(node) = setting.node(item.key) {
            requirements_only_append(setting, seen, node);
        }
        assert(next.visited =~= walk.visited.push(item.key));
        visiting_adds(walk.visited, item.key, item.key);
        assert forall|i: int| 0 <= i < after.len() implies next.visited.contains(
            (kind, (#[trigger] after[i]).0),
        ) && setting.outcome((kind, after[i].0)) == Some(
            Err::<NodeView, Seq<char>>(after[i].1),
        ) by {
            if i < before.len() {
                assert(after[i] == before[i]);
                assert(walk.visited.contains((kind, before[i].0)));
            }
        }
        assert forall|i: int, j: int| 0 <= i < j < after.len() implies (#[trigger] after[i]).0 != (
        #[trigger] after[j]).0 by {
            assert(after[i] == before[i]);
            if j < before.len() {
                assert(after[j] == before[j]);
            } else {
                assert(walk.visited.contains((kind, before[i].0)));
            }
        }
    }
}

/// A finished first pass blames only packages that cannot be resolved, each
/// once.
proof fn run_blames(setting: Setting, kind: PackageType, names: Seq<Seq<char>>, walk: WalkView)
    requires
        serves(kind, names, walk),
        blames(setting, kind, walk),
    ensures
        run(setting, Pass::Hard, walk) matches RunView::Done(end) ==> blames(setting, kind, end),
    decreases unused_replies(setting.replies, walk.visited), walk.queue.len(),
{
    if walk.queue.len() > 0 && step(setting, Pass::Hard, walk) is Some {
        steps_shrink(setting, Pass::Hard, walk);
        step_serves(setting, kind, names, walk);
        step_blames(setting, kind, names, walk);
        run_blames(setting, kind, names, step(setting, Pass::Hard, walk)->0);
    }
}

/// Every requested package gets exactly one answer: a job, or the reason why
/// there is none, which is why it cannot be resolved. Nothing else counts as
/// requested or failed: a bad request fails alone.
pub proof fn every_request_is_answered(
    setting: Setting,
    kind: PackageType,
    names: Seq<Seq<char>>,
)
    ensures
        resolution(setting, kind, names) matches OutcomeView::Ready(plan) ==> {
            &&& forall|n: int| 0 <= n < names.len() ==> answered(plan, kind, #[trigger] names[n])
            &&& forall|i: int|
                0 <= i < plan.requested.len() ==> (#[trigger] plan.requested[i]).kind == kind
                    && names.contains(plan.requested[i].name)
            &&& forall|i: int|
                0 <= i < plan.failures.len() ==> names.contains((#[trigger] plan.failures[i]).0)
                    && setting.outcome((kind, plan.failures[i].0)) == Some(
                    Err::<NodeView, Seq<char>>(plan.failures[i].1),
                )
            &&& forall|i: int, j: int|
                0 <= i < plan.requested.len() && 0 <= j < plan.failures.len()
                    ==> (#[trigger] plan.requested[i]).name != (#[trigger] plan.failures[j]).0
            &&& forall|i: int, j: int|
                0 <= i < j < plan.requested.len() ==> (#[trigger] plan.requested[i]).name != (
                #[trigger] plan.requested[j]).name
            &&& forall|i: int, j: int|
                0 <= i < j < plan.failures.len() ==> (#[trigger] plan.failures[i]).0 != (
                #[trigger] plan.failures[j]).0
        },
{
    if resolution(setting, kind, names) is Ready {
        let (first, end) = passes_are_sound(setting, kind, names);
        let start = beginning(kind, names);
        assert(serves(kind, names, start)) by {
            assert forall|n: int| 0 <= n < names.len() implies answered(
                start.plan,
                kind,
                #[trigger] names[n],
            ) || exists|i: int|
                0 <= i < start.queue.len() && (#[trigger] start.queue[i]).requested
                    && start.queue[i].key.1 == names[n] by {
                assert(start.queue[n].key.1 == names[n]);
            }
            assert forall|i: int|
                0 <= i < start.queue.len() && (#[trigger] start.queue[i]).requested implies start.queue[i].key.0
                == kind && names.contains(start.queue[i].key.1) by {
                assert(names[i] == start.queue[i].key.1);
            }
        }
        run_serves(setting, kind, names, start);
        run_blames(setting, kind, names, start);
        let plan = end.plan;
        assert forall|i: int| 0 <= i < plan.requested.len() implies plan.jobs()[i]
            == #[trigger] plan.requested[i] by {}
        assert forall|i: int, j: int|
            0 <= i < plan.requested.len() && 0 <= j < plan.failures.len() implies (
        #[trigger] plan.requested[i]).name != (#[trigger] plan.failures[j]).0 by {
            assert(plan.jobs()[i] == plan.requested[i]);
            assert(setting.node(job_key(plan.jobs()[i])) is Some);
            assert(first.plan.failures[j] == plan.failures[j]);
        }
        assert forall|i: int, j: int| 0 <= i < j < plan.requested.len() implies (
        #[trigger] plan.requested[i]).name != (#[trigger] plan.requested[j]).name by {
            assert(plan.jobs()[i] == plan.requested[i] && plan.jobs()[j] == plan.requested[j]);
            assert(first.plan.requested[i].kind == first.plan.requested[j].kind);
        }
        assert forall|n: int| 0 <= n < names.len() implies answered(
            end.plan,
            kind,
            #[trigger] names[n],
        ) by {
            assert(answered(first.plan, kind, names[n]));
        }
    }
}

/// A run only stops for a package nothing is known about.
proof fn run_asks(setting: Setting, pass: Pass, walk: WalkView)
    ensures
        run(setting, pass, walk) matches RunView::Ask(key) ==> setting.outcome(key) is None,
    decreases unused_replies(setting.replies, walk.visited), walk.queue.len(),
{
    if walk.queue.len() > 0 && step(setting, pass, walk) is Some {
        steps_shrink(setting, pass, walk);
        run_asks(setting, pass, step(setting, pass, walk)->0);
    }
}

/// The hosts are asked only about packages this license may install, and
/// never twice about the same one.
pub proof fn questions_are_new(setting: Setting, kind: PackageType, names: Seq<Seq<char>>)
    ensures
        resolution(setting, kind, names) matches OutcomeView::Ask(key) ==> installable(
            setting.indexes,
            key,
        ) is Ok && reply_for(setting.replies, key) is None,
{
    run_asks(setting, Pass::Hard, beginning(kind, names));
    if let RunView::Done(first) = run(setting, Pass::Hard, beginning(kind, names)) {
        run_asks(setting, Pass::Optional, continued(setting.installed, first));
    }
}

/// The reply that counts is the one in front of all others about its package.
proof fn the_first_reply_counts(replies: Seq<Reply>, key: Key, r: int)
    requires
        0 <= r < replies.len(),
        (replies[r].kind, replies[r].name@) == key,
        forall|i: int| 0 <= i < r ==> ((#[trigger] replies[i]).kind, replies[i].name@) != key,
    ensures
        reply_for(replies, key) == Some(replies[r]),
    decreases replies.len(),
{
    if r > 0 {
        let rest = replies.drop_first();
        assert((replies[0].kind, replies[0].name@) != key);
        assert forall|i: int| 0 <= i < r - 1 implies ((#[trigger] rest[i]).kind, rest[i].name@)
            != key by {
            assert(rest[i] == replies[i + 1]);
        }
        the_first_reply_counts(rest, key, r - 1);
    }
}

/// A package that its index does not list cannot be installed.
pub proof fn unlisted_packages_cannot_be_installed(setting: Setting, name: Seq<char>)
    ensures
        (forall|i: int|
            0 <= i < setting.indexes.module.packages@.len() ==> (
            #[trigger] setting.indexes.module.packages@[i]).name@ != name) ==> setting.outcome(
            (PackageType::Module, name),
        ) == Some(Err::<NodeView, Seq<char>>("not found in the index"@)),
        (forall|i: int|
            0 <= i < setting.indexes.system.packages@.len() ==> (
            #[trigger] setting.indexes.system.packages@[i]).name@ != name) ==> setting.outcome(
            (PackageType::System, name),
        ) == Some(Err::<NodeView, Seq<char>>("not found in the index"@)),
{
    types::first_named_is_listed(setting.indexes.module.packages@, name);
    types::first_named_is_listed(setting.indexes.system.packages@, name);
    if let Some(package) = types::first_named(setting.indexes.module.packages@, name) {
        let packages = setting.indexes.module.packages@;
        let i = choose|i: int| 0 <= i < packages.len() && packages[i] == package;
        assert(packages[i].name@ == name);
    }
    if let Some(package) = types::first_named(setting.indexes.system.packages@, name) {
        let packages = setting.indexes.system.packages@;
        let i = choose|i: int| 0 <= i < packages.len() && packages[i] == package;
        assert(packages[i].name@ == name);
    }
}

/// What becomes of a package that its index lists and the hosts replied about.
/// A protected package can be installed when the license owns it and its
/// download was granted; a free one when its manifest was fetched, names a
/// download and does not belong to another package. The job follows the grant or
/// the manifest, and the edges are those of the manifest if there is one.
pub proof fn packages_are_resolved_by_index_and_reply(
    setting: Setting,
    key: Key,
    index: Snapshot,
    at: int,
    r: int,
)
    requires
        index == match key.0 {
            PackageType::Module => setting.indexes.module,
            PackageType::System => setting.indexes.system,
        },
        0 <= at < index.packages@.len(),
        index.packages@[at].name@ == key.1,
        forall|i: int| 0 <= i < at ==> (#[trigger] index.packages@[i]).name@ != key.1,
        0 <= r < setting.replies.len(),
        (setting.replies[r].kind, setting.replies[r].name@) == key,
        forall|i: int|
            0 <= i < r ==> ((#[trigger] setting.replies[i]).kind, setting.replies[i].name@) != key,
    ensures
        ({
            let package = index.packages@[at];
            let reply = setting.replies[r];
            let node = setting.node(key);
            &&& setting.outcome(key) is Some
            &&& package.is_protected ==> (node is Some <==> index.owned@.contains(package.id)
                && reply.download is Ok)
            &&& !package.is_protected ==> (node is Some <==> (reply.manifest matches Ok(manifest)
                && manifest.download is Some && match (manifest.id, manifest.name) {
                (Some(id), _) => id@ == key.1,
                (None, Some(legacy)) => legacy@ == key.1,
                (None, None) => true,
            }))
            &&& node matches Some(node) ==> {
                &&& node.job.kind == key.0
                &&& node.job.name == key.1
                &&& node.job.protected == package.is_protected
                &&& node.job.download_url == if package.is_protected {
                    reply.download->Ok_0@
                } else {
                    reply.manifest->Ok_0.download->0@
                }
                &&& node.job.version == match reply.manifest {
                    Ok(manifest) if !package.is_protected && manifest.version is Some => match manifest.version->0 {
                        VersionField::Text(text) => text@,
                        VersionField::Number(number) => number@,
                    },
                    _ => package.version.version@,
                }
                &&& node.needs == match reply.manifest {
                    Ok(manifest) => manifest.needs@.map_values(
                        |dependency: DependencyRef| dependency.key(),
                    ),
                    Err(_) => Seq::empty(),
                }
                &&& node.suggests == match reply.manifest {
                    Ok(manifest) => manifest.suggests@.map_values(
                        |dependency: DependencyRef| dependency.key(),
                    ),
                    Err(_) => Seq::empty(),
                }
            }
        }),
{
    types::the_first_of_a_name_is_found(index.packages@, key.1, at);
    the_first_reply_counts(setting.replies, key, r);
    if let Ok(manifest) = setting.replies[r].manifest {
        assert(types::keys(manifest.needs@) =~= manifest.needs@.map_values(
            |dependency: DependencyRef| dependency.key(),
        ));
        assert(types::keys(manifest.suggests@) =~= manifest.suggests@.map_values(
            |dependency: DependencyRef| dependency.key(),
        ));
    }
}

/// Whether a package is taken care of by a plan: it is installed, planned, or
/// reported as impossible to install.
pub open spec fn is_settled(setting: Setting, plan: PlanView, key: Key) -> bool {
    ||| setting.installed.has(key)
    ||| installs(plan.jobs(), key)
    ||| setting.outcome(key) matches Some(Err(reason)) && reported(plan, key, reason)
}

/// What the first pass keeps of the recommendations: those of every installable
/// visited package are collected.
pub open spec fn collects(setting: Setting, walk: WalkView) -> bool {
    forall|i: int, suggested: Key|
        0 <= i < walk.visited.len() && setting.node(#[trigger] walk.visited[i]) is Some
            && setting.node(walk.visited[i])->0.suggests.contains(suggested)
            ==> #[trigger] walk.suggestions.contains(suggested)
}

/// A step of the first pass keeps collecting recommendations.
proof fn step_collects(setting: Setting, walk: WalkView)
    requires
        setting.include_recommends,
        walk.queue.len() > 0,
        step(setting, Pass::Hard, walk) is Some,
        collects(setting, walk),
    ensures
        collects(setting, step(setting, Pass::Hard, walk)->0),
{
    let next = step(setting, Pass::Hard, walk)->0;
    let key = walk.queue[0].key;
    let seen = WalkView {
        visited: walk.visited.push(key),
        queue: walk.queue.drop_first(),
        ..walk
    };
    if !walk.visited.contains(key) {
        if let Some(node) = setting.node(key) {
            requirements_only_append(setting, seen, node);
        }
        assert(next.visited =~= walk.visited.push(key));
        assert(next.suggestions.len() >= walk.suggestions.len());
        growing_keeps(walk.suggestions, next.suggestions);
        assert forall|i: int, suggested: Key|
            0 <= i < next.visited.len() && setting.node(#[trigger] next.visited[i]) is Some
                && setting.node(next.visited[i])->0.suggests.contains(
                suggested,
            ) implies #[trigger] next.suggestions.contains(suggested) by {
            if i < walk.visited.len() {
                assert(next.visited[i] == walk.visited[i]);
                assert(walk.suggestions.contains(suggested));
            } else {
                let suggests = setting.node(key)->0.suggests;
                let k = choose|k: int| 0 <= k < suggests.len() && suggests[k] == suggested;
                assert(next.suggestions == walk.suggestions + suggests);
                assert(next.suggestions[walk.suggestions.len() + k] == suggested);
            }
        }
    }
}

/// A finished first pass has collected the recommendations.
proof fn run_collects(setting: Setting, walk: WalkView)
    requires
        setting.include_recommends,
        collects(setting, walk),
    ensures
        run(setting, Pass::Hard, walk) matches RunView::Done(end) ==> collects(setting, end),
    decreases unused_replies(setting.replies, walk.visited), walk.queue.len(),
{
    if walk.queue.len() > 0 && step(setting, Pass::Hard, walk) is Some {
        steps_shrink(setting, Pass::Hard, walk);
        step_collects(setting, walk);
        run_collects(setting, step(setting, Pass::Hard, walk)->0);
    }
}

/// A finished run has visited everything that was waiting.
proof fn run_visits(setting: Setting, pass: Pass, walk: WalkView, key: Key)
    ensures
        run(setting, pass, walk) matches RunView::Done(end) ==> (walk.visited.contains(key) || queued(
            walk.queue,
            key,
        ) ==> end.visited.contains(key)),
    decreases unused_replies(setting.replies, walk.visited), walk.queue.len(),
{
    if walk.queue.len() > 0 && step(setting, pass, walk) is Some {
        let next = step(setting, pass, walk)->0;
        let first = walk.queue[0].key;
        let rest = walk.queue.drop_first();
        steps_shrink(setting, pass, walk);
        step_frames(setting, pass, walk);
        let seen = WalkView { visited: walk.visited.push(first), queue: rest, ..walk };
        if !walk.visited.contains(first) {
            if let Some(node) = setting.node(first) {
                requirements_only_append(setting, seen, node);
            }
            assert(next.visited =~= walk.visited.push(first));
            visiting_adds(walk.visited, first, first);
        }
        if queued(walk.queue, key) {
            waiting_behind(walk.queue, key);
            if key != first {
                let k = choose|k: int| 0 <= k < rest.len() && (#[trigger] rest[k]).key == key;
                assert(next.queue[k].key == key);
            }
        }
        run_visits(setting, pass, next, key);
    }
}

/// With recommendations switched on, none is forgotten: whatever a requested or
/// required package recommends is installed, planned, or reported as impossible
/// to install.
pub proof fn recommendations_are_offered(
    setting: Setting,
    kind: PackageType,
    names: Seq<Seq<char>>,
    key: Key,
    suggested: Key,
)
    requires
        setting.include_recommends,
        resolution(setting, kind, names) matches OutcomeView::Ready(plan) && (installs(
            plan.requested,
            key,
        ) || installs(plan.required, key)),
        setting.node(key) matches Some(node) && node.suggests.contains(suggested),
    ensures
        resolution(setting, kind, names) matches OutcomeView::Ready(plan) && is_settled(
            setting,
            plan,
            suggested,
        ),
{
    let (first, end) = passes_are_sound(setting, kind, names);
    let start = beginning(kind, names);
    assert(collects(setting, start));
    run_collects(setting, start);
    let jobs = first.plan.jobs();
    assert(installs(jobs, key)) by {
        if installs(end.plan.requested, key) {
            let requested = end.plan.requested;
            let i = choose|i: int| 0 <= i < requested.len() && job_key(#[trigger] requested[i]) == key;
            assert(jobs[i] == requested[i]);
        } else {
            let required = end.plan.required;
            let i = choose|i: int| 0 <= i < required.len() && job_key(#[trigger] required[i]) == key;
            assert(jobs[end.plan.requested.len() + i] == required[i]);
        }
    }
    let j = choose|i: int| 0 <= i < jobs.len() && job_key(#[trigger] jobs[i]) == key;
    assert(first.visited.contains(job_key(jobs[j])));
    let v = choose|i: int| 0 <= i < first.visited.len() && first.visited[i] == key;
    assert(setting.node(first.visited[v]) is Some);
    assert(first.suggestions.contains(suggested));
    let again = continued(setting.installed, first);
    missing_is_exact(setting.installed, Seq::empty(), first.suggestions);
    run_visits(setting, Pass::Optional, again, suggested);
    if !setting.installed.has(suggested) {
        let s = choose|s: int|
            0 <= s < first.suggestions.len() && first.suggestions[s] == suggested;
        assert(first.suggestions[s] == suggested);
        assert(queued(again.queue, suggested));
        let k = choose|k: int| 0 <= k < end.visited.len() && end.visited[k] == suggested;
        assert(setting.outcome(end.visited[k]) is Some);
        assert(setting.node(end.visited[k]) is Some ==> installs(end.plan.jobs(), suggested));
    }
}

/// Whether a package is a hard dependency of another one: its manifest requires
/// it, or it is the one system that the index lists for it.
pub open spec fn depends(setting: Setting, key: Key, need: Key) -> bool {
    setting.node(key) matches Some(node) && {
        ||| node.needs.contains(need)
        ||| key.0 == PackageType::Module && need.0 == PackageType::System && systems_of(
            setting.indexes,
            key.1,
        ) == seq![need.1]
    }
}

/// Whether a visited package depends on a package.
pub open spec fn is_needed(setting: Setting, visited: Seq<Key>, need: Key) -> bool {
    exists|i: int| 0 <= i < visited.len() && depends(setting, #[trigger] visited[i], need)
}

/// What both passes keep of the reasons why a package waits or is planned: it
/// was asked for, is among some packages to begin with, or is a dependency of a
/// visited one.
pub open spec fn is_justified(setting: Setting, walk: WalkView, given: Seq<Key>) -> bool {
    &&& forall|i: int|
        0 <= i < walk.queue.len() ==> (#[trigger] walk.queue[i]).requested || given.contains(
            walk.queue[i].key,
        ) || is_needed(setting, walk.visited, walk.queue[i].key)
    &&& forall|i: int|
        0 <= i < walk.plan.required.len() ==> is_needed(
            setting,
            walk.visited,
            job_key(#[trigger] walk.plan.required[i]),
        )
    &&& forall|i: int|
        0 <= i < walk.plan.recommended.len() ==> given.contains(
            job_key(#[trigger] walk.plan.recommended[i]),
        ) || is_needed(setting, walk.visited, job_key(walk.plan.recommended[i]))
}

/// What a package is needed for stays visited.
proof fn needs_stay(setting: Setting, before: Seq<Key>, after: Seq<Key>)
    requires
        before.len() <= after.len(),
        forall|i: int| 0 <= i < before.len() ==> before[i] == #[trigger] after[i],
    ensures
        forall|need: Key| #[trigger]
            is_needed(setting, before, need) ==> is_needed(setting, after, need),
{
    assert forall|need: Key| #[trigger] is_needed(setting, before, need) implies is_needed(
        setting,
        after,
        need,
    ) by {
        let i = choose|i: int| 0 <= i < before.len() && depends(setting, #[trigger] before[i], need);
        assert(after[i] == before[i]);
    }
}

/// A step queues and plans nothing without a reason.
proof fn step_is_justified(setting: Setting, pass: Pass, walk: WalkView, given: Seq<Key>)
    requires
        walk.queue.len() > 0,
        step(setting, pass, walk) is Some,
        is_justified(setting, walk, given),
        pass is Hard ==> given.len() == 0,
        pass is Optional ==> !walk.queue[0].requested,
    ensures
        is_justified(setting, step(setting, pass, walk)->0, given),
{
    let next = step(setting, pass, walk)->0;
    let item = walk.queue[0];
    let key = item.key;
    let rest = walk.queue.drop_first();
    let seen = WalkView { visited: walk.visited.push(key), queue: rest, ..walk };
    assert(forall|i: int| 0 <= i < rest.len() ==> #[trigger] rest[i] == walk.queue[i + 1]);
    if !walk.visited.contains(key) {
        if let Some(node) = setting.node(key) {
            requirements_only_append(setting, seen, node);
            node_bears_its_key(setting, key);
            missing_is_exact(setting.installed, seen.visited, node.needs);
        }
        assert(next.visited =~= walk.visited.push(key));
        needs_stay(setting, walk.visited, next.visited);
        assert(next.visited[walk.visited.len() as int] == key);
        assert forall|i: int| 0 <= i < next.queue.len() implies (#[trigger] next.queue[i]).requested
            || given.contains(next.queue[i].key) || is_needed(
            setting,
            next.visited,
            next.queue[i].key,
        ) by {
            if i < rest.len() {
                assert(next.queue[i] == walk.queue[i + 1]);
            } else {
                let node = setting.node(key)->0;
                let extra = missing(setting.installed, seen.visited, node.needs);
                let k = i - rest.len();
                if k < extra.len() {
                    assert(next.queue[i] == extra[k]);
                    missing_is_needed(setting.installed, seen.visited, node.needs, k);
                    assert(depends(setting, key, next.queue[i].key));
                } else {
                    let systems = systems_of(setting.indexes, node.job.name);
                    assert(systems =~= seq![systems[0]]);
                    assert(depends(setting, key, next.queue[i].key));
                }
            }
        }
        assert(item.requested || given.contains(key) || is_needed(setting, walk.visited, key));
        assert forall|i: int| 0 <= i < next.plan.required.len() implies is_needed(
            setting,
            next.visited,
            job_key(#[trigger] next.plan.required[i]),
        ) by {
            if i < walk.plan.required.len() {
                assert(next.plan.required[i] == walk.plan.required[i]);
            }
        }
        assert forall|i: int| 0 <= i < next.plan.recommended.len() implies given.contains(
            job_key(#[trigger] next.plan.recommended[i]),
        ) || is_needed(setting, next.visited, job_key(next.plan.recommended[i])) by {
            if i < walk.plan.recommended.len() {
                assert(next.plan.recommended[i] == walk.plan.recommended[i]);
            }
        }
    } else {
        assert forall|i: int| 0 <= i < next.queue.len() implies (#[trigger] next.queue[i]).requested
            || given.contains(next.queue[i].key) || is_needed(
            setting,
            next.visited,
            next.queue[i].key,
        ) by {
            assert(next.queue[i] == walk.queue[i + 1]);
        }
    }
}

/// What is missing is needed.
proof fn missing_is_needed(installed: InstalledSets, visited: Seq<Key>, needs: Seq<Key>, at: int)
    requires
        0 <= at < missing(installed, visited, needs).len(),
    ensures
        needs.contains(missing(installed, visited, needs)[at].key),
    decreases needs.len(),
{
    let init = needs.drop_last();
    let before = missing(installed, visited, init);
    let found = missing(installed, visited, needs)[at].key;
    if at < before.len() {
        missing_is_needed(installed, visited, init, at);
        let i = choose|i: int| 0 <= i < init.len() && init[i] == found;
        assert(needs[i] == found);
    } else {
        assert(needs[needs.len() - 1] == found);
    }
}

/// A finished run has planned nothing without a reason.
proof fn run_is_justified(setting: Setting, pass: Pass, walk: WalkView, given: Seq<Key>)
    requires
        is_justified(setting, walk, given),
        pass is Hard ==> given.len() == 0,
        pass is Optional ==> nothing_requested(walk.queue),
    ensures
        run(setting, pass, walk) matches RunView::Done(end) ==> is_justified(setting, end, given),
    decreases unused_replies(setting.replies, walk.visited), walk.queue.len(),
{
    if walk.queue.len() > 0 && step(setting, pass, walk) is Some {
        steps_shrink(setting, pass, walk);
        step_frames(setting, pass, walk);
        assert(pass is Optional ==> !walk.queue[0].requested);
        step_is_justified(setting, pass, walk, given);
        run_is_justified(setting, pass, step(setting, pass, walk)->0, given);
    }
}

/// Whether an installable visited package recommends a package.
pub open spec fn is_suggested(setting: Setting, visited: Seq<Key>, suggested: Key) -> bool {
    exists|i: int|
        0 <= i < visited.len() && (setting.node(#[trigger] visited[i]) matches Some(node)
            && node.suggests.contains(suggested))
}

/// What the first pass keeps of where recommendations come from: each is that of
/// an installable visited package.
pub open spec fn suggests_only(setting: Setting, walk: WalkView) -> bool {
    forall|s: int|
        0 <= s < walk.suggestions.len() ==> is_suggested(
            setting,
            walk.visited,
            #[trigger] walk.suggestions[s],
        )
}

/// A finished first pass has collected only recommendations of visited packages.
proof fn run_suggests_only(setting: Setting, walk: WalkView)
    requires
        suggests_only(setting, walk),
    ensures
        run(setting, Pass::Hard, walk) matches RunView::Done(end) ==> suggests_only(setting, end),
    decreases unused_replies(setting.replies, walk.visited), walk.queue.len(),
{
    if walk.queue.len() > 0 && step(setting, Pass::Hard, walk) is Some {
        let next = step(setting, Pass::Hard, walk)->0;
        let key = walk.queue[0].key;
        steps_shrink(setting, Pass::Hard, walk);
        let seen = WalkView {
            visited: walk.visited.push(key),
            queue: walk.queue.drop_first(),
            ..walk
        };
        if !walk.visited.contains(key) {
            if let Some(node) = setting.node(key) {
                requirements_only_append(setting, seen, node);
            }
            assert(next.visited =~= walk.visited.push(key));
            assert forall|s: int| 0 <= s < next.suggestions.len() implies is_suggested(
                setting,
                next.visited,
                #[trigger] next.suggestions[s],
            ) by {
                let suggested = next.suggestions[s];
                if s < walk.suggestions.len() {
                    assert(walk.suggestions[s] == suggested);
                    let i = choose|i: int|
                        0 <= i < walk.visited.len() && (setting.node(
                            #[trigger] walk.visited[i],
                        ) matches Some(node) && node.suggests.contains(suggested));
                    assert(next.visited[i] == walk.visited[i]);
                } else {
                    let node = setting.node(key)->0;
                    assert(node.suggests[s - walk.suggestions.len()] == suggested);
                    assert(node.suggests.contains(suggested));
                    assert(next.visited[walk.visited.len() as int] == key);
                }
            }
        } else {
            assert(next.suggestions == walk.suggestions && next.visited == walk.visited);
            assert(suggests_only(setting, next));
        }
        run_suggests_only(setting, next);
    }
}

/// A plan holds nothing without a reason. What it requires is a hard dependency
/// of a package that it installs. What it recommends is recommended by a
/// requested or required package, or a hard dependency of a package that it
/// installs.
pub proof fn plans_hold_nothing_else(
    setting: Setting,
    kind: PackageType,
    names: Seq<Seq<char>>,
    key: Key,
)
    ensures
        resolution(setting, kind, names) matches OutcomeView::Ready(plan) ==> {
            &&& installs(plan.required, key) ==> exists|by: Key| #[trigger]
                installs(plan.jobs(), by) && depends(setting, by, key)
            &&& installs(plan.recommended, key) ==> exists|by: Key| #[trigger]
                installs(plan.jobs(), by) && (depends(setting, by, key) || (!installs(
                    plan.recommended,
                    by,
                ) && (setting.node(by) matches Some(node) && node.suggests.contains(key))))
        },
{
    if resolution(setting, kind, names) is Ready {
        let (first, end) = passes_are_sound(setting, kind, names);
        let start = beginning(kind, names);
        assert forall|i: int| 0 <= i < start.queue.len() implies (
        #[trigger] start.queue[i]).requested by {}
        run_is_justified(setting, Pass::Hard, start, Seq::empty());
        run_suggests_only(setting, start);
        let again = continued(setting.installed, first);
        let given = first.suggestions;
        missing_is_exact(setting.installed, Seq::empty(), given);
        assert forall|i: int| 0 <= i < again.queue.len() implies given.contains(
            (#[trigger] again.queue[i]).key,
        ) by {
            missing_is_needed(setting.installed, Seq::empty(), given, i);
        }
        run_is_justified(setting, Pass::Optional, again, given);
        run_keeps_visited(setting, Pass::Optional, again);
        let plan = end.plan;
        let jobs = plan.jobs();
        assert forall|need: Key| #[trigger] is_needed(setting, end.visited, need) implies exists|
            by: Key,
        | #[trigger] installs(jobs, by) && depends(setting, by, need) by {
            let i = choose|i: int|
                0 <= i < end.visited.len() && depends(setting, #[trigger] end.visited[i], need);
            assert(setting.node(end.visited[i]) is Some);
            assert(installs(jobs, end.visited[i]));
        }
        if installs(plan.required, key) {
            let i = choose|i: int|
                0 <= i < plan.required.len() && job_key(#[trigger] plan.required[i]) == key;
            assert(is_needed(setting, end.visited, job_key(plan.required[i])));
        }
        if installs(plan.recommended, key) {
            let i = choose|i: int|
                0 <= i < plan.recommended.len() && job_key(#[trigger] plan.recommended[i]) == key;
            let found = job_key(plan.recommended[i]);
            if given.contains(found) {
                let s = choose|s: int| 0 <= s < given.len() && given[s] == found;
                assert(is_suggested(setting, first.visited, first.suggestions[s]));
                let v = choose|v: int|
                    0 <= v < first.visited.len() && (setting.node(
                        #[trigger] first.visited[v],
                    ) matches Some(node) && node.suggests.contains(found));
                let by = first.visited[v];
                assert(end.visited[v] == by);
                assert(setting.node(end.visited[v]) is Some);
                assert(installs(jobs, by));
                assert(first.visited.contains(by));
                if installs(plan.recommended, by) {
                    let k = choose|k: int|
                        0 <= k < plan.recommended.len() && job_key(#[trigger] plan.recommended[k])
                            == by;
                    assert(!first.visited.contains(job_key(plan.recommended[k])));
                }
            }
        }
    }
}

/// A finished run keeps the visited packages in front.
proof fn run_keeps_visited(setting: Setting, pass: Pass, walk: WalkView)
    ensures
        run(setting, pass, walk) matches RunView::Done(end) ==> walk.visited.len()
            <= end.visited.len() && forall|i: int|
            0 <= i < walk.visited.len() ==> walk.visited[i] == #[trigger] end.visited[i],
    decreases unused_replies(setting.replies, walk.visited), walk.queue.len(),
{
    if walk.queue.len() > 0 && step(setting, pass, walk) is Some {
        let next = step(setting, pass, walk)->0;
        let key = walk.queue[0].key;
        steps_shrink(setting, pass, walk);
        let seen = WalkView {
            visited: walk.visited.push(key),
            queue: walk.queue.drop_first(),
            ..walk
        };
        if !walk.visited.contains(key) {
            if let Some(node) = setting.node(key) {
                requirements_only_append(setting, seen, node);
            }
            assert(next.visited =~= walk.visited.push(key));
        }
        run_keeps_visited(setting, pass, next);
        if let RunView::Done(end) = run(setting, pass, next) {
            assert forall|i: int| 0 <= i < walk.visited.len() implies walk.visited[i]
                == #[trigger] end.visited[i] by {
                assert(next.visited[i] == walk.visited[i]);
            }
        }
    }
}

/// Modules and systems are installed each in their own right: a package is
/// installed just when the list of its own type has its name.
pub proof fn installed_packages_are_known_by_type(installed: InstalledSets, name: Seq<char>)
    ensures
        installed.has((PackageType::Module, name)) <==> exists|i: int|
            0 <= i < installed.modules@.len() && (#[trigger] installed.modules@[i])@ == name,
        installed.has((PackageType::System, name)) <==> exists|i: int|
            0 <= i < installed.systems@.len() && (#[trigger] installed.systems@[i])@ == name,
{
}

/// The test for packages that are neither installed nor visited.
pub open spec fn is_open(installed: InstalledSets, visited: Seq<Key>) -> spec_fn(Key) -> bool {
    |key: Key|
        !visited.contains(key) && match key.0 {
            PackageType::Module => !text::lists(installed.modules@, key.1),
            PackageType::System => !text::lists(installed.systems@, key.1),
        }
}

/// A dependency waiting to be visited.
pub open spec fn waiting() -> spec_fn(Key) -> ItemView {
    |key: Key| ItemView { key, requested: false }
}

/// Every dependency that is neither installed nor visited waits, in order, and
/// no other one does.
pub proof fn open_dependencies_wait(installed: InstalledSets, visited: Seq<Key>, needs: Seq<Key>)
    ensures
        missing(installed, visited, needs) == needs.filter(
            is_open(installed, visited),
        ).map_values(waiting()),
    decreases needs.len(),
{
    reveal(Seq::filter);
    if needs.len() == 0 {
        assert(missing(installed, visited, needs) =~= needs.filter(
            is_open(installed, visited),
        ).map_values(waiting()));
    } else {
        let init = needs.drop_last();
        let last = needs.last();
        open_dependencies_wait(installed, visited, init);
        let kept = init.filter(is_open(installed, visited));
        assert(kept.push(last).map_values(waiting()) =~= kept.map_values(waiting()).push(
            waiting()(last),
        ));
    }
}

/// Whether one of some systems is installed, visited or waiting.
pub open spec fn is_on_its_way(
    installed: InstalledSets,
    visited: Seq<Key>,
    queue: Seq<ItemView>,
    systems: Seq<Seq<char>>,
) -> bool {
    exists|s: int|
        #![trigger systems[s]]
        0 <= s < systems.len() && (text::lists(installed.systems@, systems[s]) || visited.contains(
            (PackageType::System, systems[s]),
        ) || exists|q: int|
            0 <= q < queue.len() && (#[trigger] queue[q]).key == (PackageType::System, systems[s]))
}

/// What a visited module adds to a walk: its open dependencies wait; and unless
/// one of the systems that the index lists for it is installed, visited or
/// waiting, its system waits too where there is one, and the plan warns where
/// there are several. A system only adds its open dependencies.
pub proof fn modules_bring_their_system(
    setting: Setting,
    walk: WalkView,
    node: NodeView,
    at: int,
)
    requires
        types::stands_first(setting.indexes.module.packages@, node.job.name, at),
    ensures
        ({
            let next = with_requirements(setting, walk, node);
            let systems = text::views(setting.indexes.module.packages@[at].systems@);
            let queue = walk.queue + node.needs.filter(
                is_open(setting.installed, walk.visited),
            ).map_values(waiting());
            let lacks = node.job.kind == PackageType::Module && !is_on_its_way(
                setting.installed,
                walk.visited,
                queue,
                systems,
            );
            &&& next.visited == walk.visited
            &&& next.suggestions == walk.suggestions
            &&& next.queue == if lacks && systems.len() == 1 {
                queue.push(ItemView { key: (PackageType::System, systems[0]), requested: false })
            } else {
                queue
            }
            &&& next.plan.warnings == if lacks && systems.len() > 1 {
                walk.plan.warnings.push(
                    "`"@ + node.job.name + "` requires one of the systems ["@ + text::joined(
                        systems,
                        ", "@,
                    ) + "], none of which is installed"@,
                )
            } else {
                walk.plan.warnings
            }
            &&& next.plan.requested == walk.plan.requested
            &&& next.plan.required == walk.plan.required
            &&& next.plan.recommended == walk.plan.recommended
            &&& next.plan.failures == walk.plan.failures
        }),
{
    let packages = setting.indexes.module.packages@;
    types::packages_are_found_by_name(packages, node.job.name);
    open_dependencies_wait(setting.installed, walk.visited, node.needs);
    let systems = text::views(packages[at].systems@);
    let queue = walk.queue + missing(setting.installed, walk.visited, node.needs);
    assert(systems_of(setting.indexes, node.job.name) == systems);
    if is_on_its_way(setting.installed, walk.visited, queue, systems) {
        let s = choose|s: int|
            #![trigger systems[s]]
            0 <= s < systems.len() && (text::lists(setting.installed.systems@, systems[s])
                || walk.visited.contains((PackageType::System, systems[s])) || exists|q: int|
                0 <= q < queue.len() && (#[trigger] queue[q]).key == (
                    PackageType::System,
                    systems[s],
                ));
        assert(covered(setting.installed, walk.visited, queue, systems[s]));
    }
    if exists|s: int|
        0 <= s < systems.len() && covered(
            setting.installed,
            walk.visited,
            queue,
            #[trigger] systems[s],
        ) {
        let s = choose|s: int|
            0 <= s < systems.len() && covered(
                setting.installed,
                walk.visited,
                queue,
                #[trigger] systems[s],
            );
        assert(is_on_its_way(setting.installed, walk.visited, queue, systems));
    }
}

/// What one visit comes to. A package that was visited before is passed over.
/// While the reply about it is outstanding nothing happens. One that cannot be
/// installed is reported: a request as a failure, anything else as a warning.
/// One that can be is planned as requested, required or recommended, after what
/// it brings; and its recommendations are collected in the first pass, if they
/// are wanted at all.
pub proof fn visits_plan_or_report(setting: Setting, pass: Pass, walk: WalkView)
    requires
        walk.queue.len() > 0,
    ensures
        ({
            let item = walk.queue[0];
            let rest = walk.queue.drop_first();
            let visited = walk.visited.push(item.key);
            let seen = WalkView { queue: rest, visited, ..walk };
            let next = step(setting, pass, walk);
            &&& walk.visited.contains(item.key) ==> next == Some(WalkView { queue: rest, ..walk })
            &&& next is None <==> !walk.visited.contains(item.key) && setting.outcome(
                item.key,
            ) is None
            &&& !walk.visited.contains(item.key) ==> (setting.outcome(item.key) matches Some(
                Err(reason),
            ) ==> next matches Some(next) && next.queue == rest && next.visited == visited
                && next.suggestions == walk.suggestions && if pass is Hard && item.requested {
                next.plan == (PlanView {
                    failures: walk.plan.failures.push((item.key.1, reason)),
                    ..walk.plan
                })
            } else {
                next.plan == (PlanView {
                    warnings: walk.plan.warnings.push(
                        (if pass is Hard {
                            "skipping dependency `"@
                        } else {
                            "skipping recommended `"@
                        }) + item.key.1 + "`: "@ + reason,
                    ),
                    ..walk.plan
                })
            })
            &&& !walk.visited.contains(item.key) ==> (setting.outcome(item.key) matches Some(Ok(node))
                ==> next matches Some(next) && {
                let wider = with_requirements(setting, seen, node);
                &&& next.queue == wider.queue
                &&& next.visited == wider.visited
                &&& next.suggestions == if pass is Hard && setting.include_recommends {
                    walk.suggestions + node.suggests
                } else {
                    walk.suggestions
                }
                &&& next.plan.warnings == wider.plan.warnings
                &&& next.plan.failures == wider.plan.failures
                &&& next.plan.requested == if pass is Hard && item.requested {
                    wider.plan.requested.push(node.job)
                } else {
                    wider.plan.requested
                }
                &&& next.plan.required == if pass is Hard && !item.requested {
                    wider.plan.required.push(node.job)
                } else {
                    wider.plan.required
                }
                &&& next.plan.recommended == if pass is Optional {
                    wider.plan.recommended.push(node.job)
                } else {
                    wider.plan.recommended
                }
            })
        }),
{
}

/// Whether a module can be installed, but several systems are listed for it,
/// none of them is installed, and its manifest requires none of them.
pub open spec fn is_undecided(setting: Setting, name: Seq<char>, at: int) -> bool {
    &&& types::stands_first(setting.indexes.module.packages@, name, at)
    &&& setting.node((PackageType::Module, name)) is Some
    &&& setting.indexes.module.packages@[at].systems@.len() > 1
    &&& forall|s: int|
        0 <= s < setting.indexes.module.packages@[at].systems@.len() ==> {
            let system = (#[trigger] setting.indexes.module.packages@[at].systems@[s])@;
            &&& !text::lists(setting.installed.systems@, system)
            &&& !setting.node((PackageType::Module, name))->0.needs.contains(
                (PackageType::System, system),
            )
        }
}

/// Whether a warning has a reason: a package that cannot be installed, or a
/// module whose system is undecided.
pub open spec fn has_reason(setting: Setting, warning: Seq<char>) -> bool {
    ||| exists|key: Key|
        (#[trigger] setting.outcome(key) matches Some(Err(reason)) && (warning
            == "skipping dependency `"@ + key.1 + "`: "@ + reason || warning
            == "skipping recommended `"@ + key.1 + "`: "@ + reason))
    ||| exists|name: Seq<char>, at: int| #[trigger]
        is_undecided(setting, name, at) && warning == "`"@ + name
            + "` requires one of the systems ["@ + text::joined(
            text::views(setting.indexes.module.packages@[at].systems@),
            ", "@,
        ) + "], none of which is installed"@
}

/// What both passes keep of the warnings: each has a reason.
pub open spec fn warns_with_reason(setting: Setting, walk: WalkView) -> bool {
    forall|i: int|
        0 <= i < walk.plan.warnings.len() ==> has_reason(setting, #[trigger] walk.plan.warnings[i])
}

/// A step only adds warnings that have a reason.
proof fn step_warns_with_reason(setting: Setting, pass: Pass, walk: WalkView)
    requires
        walk.queue.len() > 0,
        step(setting, pass, walk) is Some,
        warns_with_reason(setting, walk),
    ensures
        warns_with_reason(setting, step(setting, pass, walk)->0),
{
    let next = step(setting, pass, walk)->0;
    let item = walk.queue[0];
    let key = item.key;
    let before = walk.plan.warnings;
    let after = next.plan.warnings;
    assert forall|i: int| 0 <= i < after.len() implies has_reason(setting, #[trigger] after[i]) by {
        if i < before.len() {
            assert(after[i] == before[i]);
        } else {
            assert(!walk.visited.contains(key));
            match setting.outcome(key) {
                Some(Ok(node)) => {
                    node_bears_its_key(setting, key);
                    let seen = WalkView {
                        queue: walk.queue.drop_first(),
                        visited: walk.visited.push(key),
                        ..walk
                    };
                    let name = key.1;
                    let packages = setting.indexes.module.packages@;
                    let systems = systems_of(setting.indexes, name);
                    let extra = missing(setting.installed, seen.visited, node.needs);
                    let queue = seen.queue + extra;
                    assert(after[i] == ambiguous_warning(name, systems));
                    types::packages_are_found_by_name(packages, name);
                    let package = types::first_named(packages, name)->0;
                    let at = choose|at: int| #[trigger]
                        types::stands_first(packages, name, at) && packages[at] == package;
                    missing_is_exact(setting.installed, seen.visited, node.needs);
                    assert forall|s: int| 0 <= s < packages[at].systems@.len() implies {
                        let system = (#[trigger] packages[at].systems@[s])@;
                        &&& !text::lists(setting.installed.systems@, system)
                        &&& !node.needs.contains((PackageType::System, system))
                    } by {
                        let system = packages[at].systems@[s]@;
                        assert(systems[s] == system);
                        assert(!covered(setting.installed, seen.visited, queue, systems[s]));
                        if node.needs.contains((PackageType::System, system)) {
                            let n = choose|n: int|
                                0 <= n < node.needs.len() && node.needs[n] == (
                                    PackageType::System,
                                    system,
                                );
                            assert(queued(extra, node.needs[n]));
                            let k = choose|k: int|
                                0 <= k < extra.len() && (#[trigger] extra[k]).key == node.needs[n];
                            assert(queue[seen.queue.len() + k] == extra[k]);
                        }
                    }
                    assert(is_undecided(setting, name, at));
                },
                _ => {},
            }
        }
    }
}

/// A finished run only has warnings that have a reason.
proof fn run_warns_with_reason(setting: Setting, pass: Pass, walk: WalkView)
    requires
        warns_with_reason(setting, walk),
    ensures
        run(setting, pass, walk) matches RunView::Done(end) ==> warns_with_reason(setting, end),
    decreases unused_replies(setting.replies, walk.visited), walk.queue.len(),
{
    if walk.queue.len() > 0 && step(setting, pass, walk) is Some {
        steps_shrink(setting, pass, walk);
        step_warns_with_reason(setting, pass, walk);
        run_warns_with_reason(setting, pass, step(setting, pass, walk)->0);
    }
}

/// A plan never warns without a reason: every warning is about a package that
/// cannot be installed, with the reason why, or about a module that several
/// systems are listed for, none of which is installed or required by it.
pub proof fn plans_warn_for_a_reason(
    setting: Setting,
    kind: PackageType,
    names: Seq<Seq<char>>,
    at: int,
)
    ensures
        resolution(setting, kind, names) matches OutcomeView::Ready(plan) ==> (0 <= at
            < plan.warnings.len() ==> has_reason(setting, plan.warnings[at])),
{
    if resolution(setting, kind, names) is Ready {
        let (first, end) = passes_are_sound(setting, kind, names);
        run_warns_with_reason(setting, Pass::Hard, beginning(kind, names));
        run_warns_with_reason(setting, Pass::Optional, continued(setting.installed, first));
        if 0 <= at < end.plan.warnings.len() {
            assert(has_reason(setting, end.plan.warnings[at]));
        }
    }
}

/// The test for names of packages that can be installed.
pub open spec fn resolves(setting: Setting, kind: PackageType) -> spec_fn(Seq<char>) -> bool {
    |name: Seq<char>| setting.outcome((kind, name)) matches Some(Ok(_))
}

/// The test for names of packages that cannot be installed.
pub open spec fn fails(setting: Setting, kind: PackageType) -> spec_fn(Seq<char>) -> bool {
    |name: Seq<char>| setting.outcome((kind, name)) matches Some(Err(_))
}

/// The name of a job, as a function.
pub open spec fn job_name() -> spec_fn(JobView) -> Seq<char> {
    |job: JobView| job.name
}

/// The name of a failure, as a function.
pub open spec fn failure_name() -> spec_fn((Seq<char>, Seq<char>)) -> Seq<char> {
    |failure: (Seq<char>, Seq<char>)| failure.0
}

/// The package with a name, as a function.
pub open spec fn named(kind: PackageType) -> spec_fn(Seq<char>) -> Key {
    |name: Seq<char>| (kind, name)
}

/// What the first pass keeps of the order of the requests, when it has dealt
/// with so many of them: they are planned or failed in order, and the others
/// wait in front of everything else.
pub open spec fn in_turn(
    setting: Setting,
    kind: PackageType,
    names: Seq<Seq<char>>,
    walk: WalkView,
    count: int,
) -> bool {
    let done = text::merged(Seq::empty(), names.take(count));
    &&& 0 <= count <= names.len()
    &&& walk.plan.requested.map_values(job_name()) == done.filter(resolves(setting, kind))
    &&& walk.plan.failures.map_values(failure_name()) == done.filter(fails(setting, kind))
    &&& names.len() - count <= walk.queue.len()
    &&& forall|i: int|
        0 <= i < names.len() - count ==> (#[trigger] walk.queue[i]) == (ItemView {
            key: (kind, names[count + i]),
            requested: true,
        })
    &&& forall|i: int|
        names.len() - count <= i < walk.queue.len() ==> !(#[trigger] walk.queue[i]).requested
    &&& count < names.len() ==> walk.visited == done.map_values(named(kind))
}

/// One more request is dealt with in its turn.
proof fn requests_take_turns(
    setting: Setting,
    kind: PackageType,
    names: Seq<Seq<char>>,
    walk: WalkView,
    count: int,
)
    requires
        in_turn(setting, kind, names, walk, count),
        count < names.len(),
        step(setting, Pass::Hard, walk) is Some,
    ensures
        in_turn(setting, kind, names, step(setting, Pass::Hard, walk)->0, count + 1),
{
    reveal(Seq::filter);
    let next = step(setting, Pass::Hard, walk)->0;
    let done = text::merged(Seq::empty(), names.take(count));
    let name = names[count];
    let key = (kind, name);
    let item = walk.queue[0];
    assert(item.key == key && item.requested);
    assert(names.take(count + 1).drop_last() =~= names.take(count));
    assert(names.take(count + 1).last() == name);
    let after = text::merged(Seq::empty(), names.take(count + 1));
    assert(after == text::with_new(done, name));
    assert(walk.visited.contains(key) <==> done.contains(name)) by {
        if done.contains(name) {
            let i = choose|i: int| 0 <= i < done.len() && done[i] == name;
            assert(walk.visited[i] == key);
        }
        if walk.visited.contains(key) {
            let i = choose|i: int| 0 <= i < walk.visited.len() && walk.visited[i] == key;
            assert(done[i] == name);
        }
    }
    let rest = walk.queue.drop_first();
    assert(forall|i: int| 0 <= i < rest.len() ==> #[trigger] rest[i] == walk.queue[i + 1]);
    if walk.visited.contains(key) {
        assert(next.queue == rest);
    } else {
        assert(after == done.push(name));
        assert(after.drop_last() =~= done);
        let seen = WalkView { visited: walk.visited.push(key), queue: rest, ..walk };
        match setting.outcome(key) {
            Some(Ok(node)) => {
                requirements_only_append(setting, seen, node);
                node_bears_its_key(setting, key);
                assert(setting.node(key) == Some(node));
                assert(walk.plan.requested.push(node.job).map_values(job_name())
                    =~= walk.plan.requested.map_values(job_name()).push(name));
                assert(next.plan.requested == walk.plan.requested.push(node.job));
                assert forall|i: int|
                    names.len() - count - 1 <= i < next.queue.len() implies !(
                #[trigger] next.queue[i]).requested by {
                    if i < rest.len() {
                        assert(next.queue[i] == rest[i]);
                    }
                }
                assert forall|i: int|
                    0 <= i < names.len() - count - 1 implies (#[trigger] next.queue[i]) == (
                ItemView { key: (kind, names[count + 1 + i]), requested: true }) by {
                    assert(next.queue[i] == rest[i]);
                }
            },
            Some(Err(reason)) => {
                assert(walk.plan.failures.push((name, reason)).map_values(failure_name())
                    =~= walk.plan.failures.map_values(failure_name()).push(name));
                assert(next.queue == rest);
            },
            None => {},
        }
        assert(next.visited =~= walk.visited.push(key));
        assert(done.push(name).map_values(named(kind)) =~= done.map_values(named(kind)).push(key));
    }
}

/// A finished first pass has dealt with the requests in their turn.
proof fn run_takes_turns(
    setting: Setting,
    kind: PackageType,
    names: Seq<Seq<char>>,
    walk: WalkView,
    count: int,
)
    requires
        in_turn(setting, kind, names, walk, count),
    ensures
        run(setting, Pass::Hard, walk) matches RunView::Done(end) ==> in_turn(
            setting,
            kind,
            names,
            end,
            names.len() as int,
        ),
    decreases unused_replies(setting.replies, walk.visited), walk.queue.len(),
{
    if walk.queue.len() > 0 && step(setting, Pass::Hard, walk) is Some {
        let next = step(setting, Pass::Hard, walk)->0;
        steps_shrink(setting, Pass::Hard, walk);
        if count < names.len() {
            requests_take_turns(setting, kind, names, walk, count);
            run_takes_turns(setting, kind, names, next, count + 1);
        } else {
            let item = walk.queue[0];
            let key = item.key;
            let rest = walk.queue.drop_first();
            assert(!item.requested);
            assert(forall|i: int| 0 <= i < rest.len() ==> #[trigger] rest[i] == walk.queue[i + 1]);
            if !walk.visited.contains(key) {
                let seen = WalkView { visited: walk.visited.push(key), queue: rest, ..walk };
                if let Some(node) = setting.node(key) {
                    requirements_only_append(setting, seen, node);
                    assert forall|i: int| 0 <= i < next.queue.len() implies !(
                    #[trigger] next.queue[i]).requested by {
                        if i < rest.len() {
                            assert(next.queue[i] == rest[i]);
                        }
                    }
                }
            }
            run_takes_turns(setting, kind, names, next, count);
        }
    }
}

/// Requests keep their order: the requested jobs of a plan are those of the
/// names that can be installed, and its failures those of the names that cannot,
/// each name once and in the order in which they were first given.
pub proof fn requests_keep_their_order(
    setting: Setting,
    kind: PackageType,
    names: Seq<Seq<char>>,
)
    ensures
        resolution(setting, kind, names) matches OutcomeView::Ready(plan) ==> {
            let once = text::merged(Seq::empty(), names);
            &&& plan.requested.map_values(job_name()) == once.filter(resolves(setting, kind))
            &&& plan.failures.map_values(failure_name()) == once.filter(fails(setting, kind))
        },
{
    reveal(Seq::filter);
    if resolution(setting, kind, names) is Ready {
        let (first, end) = passes_are_sound(setting, kind, names);
        let start = beginning(kind, names);
        assert(names.take(0) =~= Seq::empty());
        assert(text::merged(Seq::empty(), names.take(0)) =~= Seq::empty());
        assert(start.plan.requested.map_values(job_name()) =~= Seq::empty());
        assert(start.plan.failures.map_values(failure_name()) =~= Seq::empty());
        assert(Seq::<Seq<char>>::empty().filter(resolves(setting, kind)) =~= Seq::empty());
        assert(Seq::<Seq<char>>::empty().filter(fails(setting, kind)) =~= Seq::empty());
        assert(start.visited =~= Seq::<Seq<char>>::empty().map_values(named(kind)));
        run_takes_turns(setting, kind, names, start, 0);
        assert(names.take(names.len() as int) =~= names);
    }
}

/// A listed package that the license may not install is refused as unpurchased,
/// and one whose download was not granted, or whose manifest could not be
/// fetched, with the reason of the host.
pub proof fn refusals_tell_their_reason(
    setting: Setting,
    key: Key,
    index: Snapshot,
    at: int,
    r: int,
)
    requires
        index == match key.0 {
            PackageType::Module => setting.indexes.module,
            PackageType::System => setting.indexes.system,
        },
        types::stands_first(index.packages@, key.1, at),
        0 <= r < setting.replies.len(),
        (setting.replies[r].kind, setting.replies[r].name@) == key,
        forall|i: int|
            0 <= i < r ==> ((#[trigger] setting.replies[i]).kind, setting.replies[i].name@) != key,
    ensures
        ({
            let package = index.packages@[at];
            let reply = setting.replies[r];
            &&& package.is_protected && !index.owned@.contains(package.id) ==> setting.outcome(key)
                == Some(Err::<NodeView, Seq<char>>("protected; purchase required"@))
            &&& package.is_protected && index.owned@.contains(package.id) ==> (
            reply.download matches Err(error) ==> setting.outcome(key) == Some(
                Err::<NodeView, Seq<char>>("protected download authorization failed: "@ + error@),
            ))
            &&& !package.is_protected ==> (reply.manifest matches Err(error) ==> setting.outcome(key)
                == Some(Err::<NodeView, Seq<char>>("manifest fetch failed: "@ + error@)))
            &&& !package.is_protected ==> (reply.manifest matches Ok(manifest) ==> (
            manifest.download is None ==> setting.outcome(key) == Some(
                Err::<NodeView, Seq<char>>("the manifest declares no download URL"@),
            )))
        }),
{
    types::packages_are_found_by_name(index.packages@, key.1);
    the_first_reply_counts(setting.replies, key, r);
}

} // verus!
